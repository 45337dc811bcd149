use webapps::render_mode::{confirm_started_ok, decide_tier, startup_write, RenderTier};

#[test]
fn first_launch_is_full_and_probes() {
    assert_eq!(decide_tier(None, None), RenderTier::Full);
    assert_eq!(
        startup_write(RenderTier::Full, false).as_deref(),
        Some("probing:full")
    );
}

#[test]
fn confirmed_full_holds_and_reprobes() {
    assert_eq!(decide_tier(None, Some("ok:full")), RenderTier::Full);
    assert_eq!(
        startup_write(RenderTier::Full, false).as_deref(),
        Some("probing:full")
    );
}

#[test]
fn crash_at_full_escalates_to_nodmabuf() {
    assert_eq!(decide_tier(None, Some("probing:full")), RenderTier::NoDmabuf);
}

#[test]
fn crash_at_nodmabuf_escalates_to_nocompositing() {
    assert_eq!(
        decide_tier(None, Some("probing:nodmabuf")),
        RenderTier::NoCompositing
    );
}

#[test]
fn nocompositing_is_the_floor() {
    assert_eq!(
        decide_tier(None, Some("probing:nocompositing")),
        RenderTier::NoCompositing
    );
}

#[test]
fn confirmed_tier_holds_without_dropping_back() {
    assert_eq!(
        decide_tier(None, Some("ok:nocompositing")),
        RenderTier::NoCompositing
    );
}

#[test]
fn unknown_marker_falls_back_to_full() {
    assert_eq!(decide_tier(None, Some("???")), RenderTier::Full);
    assert_eq!(decide_tier(None, Some("probing:garbage")), RenderTier::Full);
}

#[test]
fn override_wins_and_does_not_persist() {
    assert_eq!(
        decide_tier(Some(RenderTier::NoCompositing), Some("ok:full")),
        RenderTier::NoCompositing
    );
    assert_eq!(startup_write(RenderTier::NoCompositing, true), None);
}

#[test]
fn legacy_probing_marker_escalates() {
    assert_eq!(decide_tier(None, Some("probing")), RenderTier::NoDmabuf);
}

#[test]
fn legacy_ok_marker_is_full() {
    assert_eq!(decide_tier(None, Some("ok")), RenderTier::Full);
}

#[test]
fn legacy_disabled_marker_maps_to_nodmabuf() {
    assert_eq!(decide_tier(None, Some("disabled")), RenderTier::NoDmabuf);
}

#[test]
fn confirming_a_probe_marks_the_tier_ok() {
    assert_eq!(
        confirm_started_ok(None, None, Some("probing:nodmabuf")).as_deref(),
        Some("ok:nodmabuf")
    );
    assert_eq!(confirm_started_ok(None, None, Some("ok:full")), None);
    assert_eq!(confirm_started_ok(None, None, None), None);
}

#[test]
fn confirming_under_an_override_leaves_the_marker() {
    assert_eq!(confirm_started_ok(None, Some("1"), Some("probing:full")), None);
    assert_eq!(confirm_started_ok(Some("full"), None, Some("probing:full")), None);
    // An unparseable tier variable is no override.
    assert_eq!(
        confirm_started_ok(Some("bogus"), None, Some("probing:full")).as_deref(),
        Some("ok:full")
    );
    // The next launch without the override still steps down.
    assert_eq!(decide_tier(None, Some("probing:full")), RenderTier::NoDmabuf);
}
