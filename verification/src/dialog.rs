//! The shell's dialog window: the page it loads and its title. Building and
//! placing the window is the caller's part.
use vstd::prelude::*;
use crate::text::str_eq;

verus! {

broadcast use vstd::string::group_string_axioms;

/// The dialog's width, in logical pixels.
pub const DIALOG_WIDTH: u32 = 450;

/// The dialog's height, in logical pixels.
pub const DIALOG_HEIGHT: u32 = 400;

/// A byte that a URL component keeps as it is: ASCII letters and digits,
/// `-`, `.`, `_` and `~`.
pub open spec fn unreserved(b: u8) -> bool {
    (0x30 <= b && b <= 0x39) || (0x41 <= b && b <= 0x5A) || (0x61 <= b && b <= 0x7A) || b == 0x2D
        || b == 0x2E || b == 0x5F || b == 0x7E
}

/// The upper-case hexadecimal digit of `n` (below 16).
pub open spec fn hex_upper(n: int) -> char {
    if n < 10 {
        (48 + n) as char
    } else {
        (55 + n) as char
    }
}

/// The bytes `b` percent-encoded: each byte that is not unreserved written
/// `%XX` in upper-case hexadecimal.
pub open spec fn percent_encoded(b: Seq<u8>) -> Seq<char>
    decreases b.len(),
{
    if b.len() == 0 {
        seq![]
    } else {
        (if unreserved(b[0]) {
            seq![b[0] as char]
        } else {
            seq!['%', hex_upper(b[0] as int / 16), hex_upper(b[0] as int % 16)]
        }) + percent_encoded(b.skip(1))
    }
}

/// `urlencoding::encode`: the UTF-8 bytes of `s` percent-encoded, every
/// byte but ASCII letters, digits, `-`, `.`, `_` and `~`, as its
/// documentation and source say.
#[verifier::external_body]
fn url_encode(s: &str) -> (r: String)
    ensures
        r@ == percent_encoded(vstd::utf8::encode_utf8(s@)),
{
    urlencoding::encode(s).into_owned()
}

/// The query text of the extra dialog parameters: `&<key>=<encoded value>`
/// for each, in order.
pub open spec fn params_text(params: Seq<(String, String)>) -> Seq<char>
    decreases params.len(),
{
    if params.len() == 0 {
        seq![]
    } else {
        params_text(params.drop_last()) + "&"@ + params.last().0@ + "="@ + percent_encoded(
            vstd::utf8::encode_utf8(params.last().1@),
        )
    }
}

/// The page of a dialog of type `dialog_type`:
/// `index.html?dialog=<type>`, then `&spaceId=<space id>` where one is
/// given, then the extra parameters.
pub open spec fn dialog_page(
    dialog_type: Seq<char>,
    space_id: Option<Seq<char>>,
    params: Seq<(String, String)>,
) -> Seq<char> {
    "index.html?dialog="@ + dialog_type + match space_id {
        Some(s) => "&spaceId="@ + s,
        None => seq![],
    } + params_text(params)
}

/// The page of a dialog (see [`dialog_page`]).
pub fn dialog_url(dialog_type: &str, space_id: Option<&str>, params: &Vec<(String, String)>) -> (r: String)
    ensures
        r@ == dialog_page(dialog_type@, crate::render_mode::opt_view(space_id), params@),
{
    let mut url = String::from_str("index.html?dialog=");
    url.append(dialog_type);
    match space_id {
        Some(s) => {
            url.append("&spaceId=");
            url.append(s);
        },
        None => {},
    }
    let ghost start = url@;
    assert(params@.take(0) =~= Seq::<(String, String)>::empty());
    let mut i: usize = 0;
    while i < params.len()
        invariant
            i <= params.len(),
            url@ == start + params_text(params@.take(i as int)),
        decreases params.len() - i,
    {
        assert(params@.take(i + 1).drop_last() =~= params@.take(i as int));
        assert(params@.take(i + 1).last() == params@[i as int]);
        url.append("&");
        url.append(params[i].0.as_str());
        url.append("=");
        let enc = url_encode(params[i].1.as_str());
        url.append(enc.as_str());
        i = i + 1;
    }
    assert(params@.take(params.len() as int) =~= params@);
    url
}

/// The title of a dialog by its type: `Add App`, `Edit App`, `New Space`,
/// else `Dialog`.
pub open spec fn dialog_title_of(dialog_type: Seq<char>) -> Seq<char> {
    if dialog_type == "add-app"@ {
        "Add App"@
    } else if dialog_type == "edit-app"@ {
        "Edit App"@
    } else if dialog_type == "create-space"@ {
        "New Space"@
    } else {
        "Dialog"@
    }
}

/// The title of a dialog (see [`dialog_title_of`]).
pub fn dialog_title(dialog_type: &str) -> (r: &'static str)
    ensures
        r@ == dialog_title_of(dialog_type@),
{
    if str_eq(dialog_type, "add-app") {
        "Add App"
    } else if str_eq(dialog_type, "edit-app") {
        "Edit App"
    } else if str_eq(dialog_type, "create-space") {
        "New Space"
    } else {
        "Dialog"
    }
}

/// Law: percent-encoding works byte by byte: the encoding of two runs of
/// bytes one after the other is their encodings one after the other; an
/// unreserved byte stays as it is; any other byte `x` becomes `%` and the two
/// upper-case hexadecimal digits of `x`.
pub proof fn law_percent_encoding(a: Seq<u8>, b: Seq<u8>, x: u8)
    ensures
        percent_encoded(a + b) == percent_encoded(a) + percent_encoded(b),
        unreserved(x) ==> percent_encoded(seq![x]) == seq![x as char],
        !unreserved(x) ==> percent_encoded(seq![x]) == seq!['%', hex_upper(x as int / 16), hex_upper(x as int % 16)],
        ('0' <= hex_upper(x as int / 16) <= '9' || 'A' <= hex_upper(x as int / 16) <= 'F'),
        ('0' <= hex_upper(x as int % 16) <= '9' || 'A' <= hex_upper(x as int % 16) <= 'F'),
    decreases a.len(),
{
    assert(seq![x].skip(1) =~= Seq::<u8>::empty());
    assert(percent_encoded(Seq::<u8>::empty()) =~= Seq::<char>::empty());
    if a.len() > 0 {
        law_percent_encoding(a.skip(1), b, x);
        assert((a + b).skip(1) =~= a.skip(1) + b);
        assert((a + b)[0] == a[0]);
    } else {
        assert(a + b =~= b);
    }
}

/// Lemma: the byte of an upper-case hexadecimal digit reads back as its
/// value.
proof fn lemma_hex_digit_reads_back(n: int)
    requires
        0 <= n < 16,
    ensures
        (hex_upper(n) as u32) < 0x80,
        crate::favicon::hex_val(((hex_upper(n) as u32) as u8)) == Some(n),
{
    if n < 10 {
        assert((hex_upper(n) as u32) == 48 + n);
    } else {
        assert((hex_upper(n) as u32) == 55 + n);
    }
}

/// Law: percent-decoding undoes percent-encoding: the bytes of the encoded
/// text of any bytes `b` decode to `b` again.
pub proof fn law_percent_round_trip(b: Seq<u8>)
    ensures
        crate::favicon::percent_decoded(vstd::utf8::encode_utf8(percent_encoded(b))) == b,
    decreases b.len(),
{
    if b.len() == 0 {
        assert(percent_encoded(b) =~= Seq::<char>::empty());
        assert(vstd::utf8::encode_utf8(Seq::<char>::empty()) =~= Seq::<u8>::empty());
        assert(crate::favicon::percent_decoded(Seq::<u8>::empty()) =~= Seq::<u8>::empty());
    } else {
        let x = b[0];
        let rest = b.skip(1);
        law_percent_round_trip(rest);
        let r = vstd::utf8::encode_utf8(percent_encoded(rest));
        let e = if unreserved(x) {
            seq![x as char]
        } else {
            seq!['%', hex_upper(x as int / 16), hex_upper(x as int % 16)]
        };
        assert(percent_encoded(b) == e + percent_encoded(rest));
        crate::text::lemma_encode_append(e, percent_encoded(rest));
        let eb = vstd::utf8::encode_utf8(e);
        let all = eb + r;
        if unreserved(x) {
            assert(((x as char) as u32) < 0x80);
            crate::text::lemma_ascii_bytes(e);
            assert(eb.len() == 1);
            assert(eb[0] == ((x as char) as u32) as u8);
            assert(eb[0] == x);
            assert(all[0] == x && x != 0x25);
            assert(all.skip(1) =~= r);
        } else {
            lemma_hex_digit_reads_back(x as int / 16);
            lemma_hex_digit_reads_back(x as int % 16);
            assert(('%' as u32) == 0x25);
            crate::text::lemma_ascii_bytes(e);
            assert(eb.len() == 3);
            assert(all[0] == 0x25u8);
            assert(all[1] == (hex_upper(x as int / 16) as u32) as u8);
            assert(all[2] == (hex_upper(x as int % 16) as u32) as u8);
            assert(all.skip(3) =~= r);
            assert(((x as int / 16) * 16 + x as int % 16) == x);
        }
        assert(crate::favicon::percent_decoded(all) =~= seq![x] + rest);
        assert(b =~= seq![x] + rest);
    }
}

} // verus!
