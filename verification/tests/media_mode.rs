use webapps::media_mode::{decide_tier, plugin_dir_signature, plugin_is_linked, plugin_is_shared_object, MediaTier};

#[test]
fn defaults_to_native() {
    assert_eq!(decide_tier(None, None), MediaTier::Native);
    assert_eq!(decide_tier(None, Some("garbage")), MediaTier::Native);
}

#[test]
fn marker_selects_tier() {
    assert_eq!(decide_tier(None, Some("no-pipewire")), MediaTier::NoPipewire);
    assert_eq!(decide_tier(None, Some("off")), MediaTier::Off);
    assert_eq!(decide_tier(None, Some(" native ")), MediaTier::Native);
}

#[test]
fn legacy_disabled_marker_prefers_mic_preserving_tier() {
    assert_eq!(decide_tier(None, Some("disabled")), MediaTier::NoPipewire);
}

#[test]
fn env_override_wins_over_marker() {
    assert_eq!(
        decide_tier(Some(MediaTier::Off), Some("no-pipewire")),
        MediaTier::Off
    );
}

#[test]
fn escalation_ladder() {
    assert_eq!(MediaTier::Native.escalate(), MediaTier::NoPipewire);
    assert_eq!(MediaTier::NoPipewire.escalate(), MediaTier::Off);
    assert_eq!(MediaTier::Off.escalate(), MediaTier::Off);
}

#[test]
fn only_off_disables_media_stream() {
    assert!(MediaTier::Native.media_stream_enabled());
    assert!(MediaTier::NoPipewire.media_stream_enabled());
    assert!(!MediaTier::Off.media_stream_enabled());
}

#[test]
fn plugins_are_linked_by_their_so_extension() {
    assert!(plugin_is_linked(b"libgstvideo.so"));
    // A stem that is not valid UTF-8 still has the extension `so`.
    assert!(plugin_is_linked(b"libgst\xff\xfe.so"));
    assert!(!plugin_is_linked(b"libgstpipewire.so"));
    assert!(!plugin_is_linked(b"README"));
    assert!(!plugin_is_linked(b"libgst.so.1"));
    // A leading dot is no extension.
    assert!(!plugin_is_shared_object(b".so"));
    assert!(plugin_is_shared_object(b"a.so"));
}

#[test]
fn signature_counts_shared_objects_and_newest_time() {
    let entries = vec![
        (b"a.so".to_vec(), Some(10u64)),
        (b"\xffb.so".to_vec(), Some(30u64)),
        (b"notes.txt".to_vec(), Some(99u64)),
        (b"c.so".to_vec(), None),
    ];
    assert_eq!(plugin_dir_signature(&entries), "3:30");
    assert_eq!(plugin_dir_signature(&Vec::new()), "0:0");
}
