//! Character-level text operations shared by the parsers of this crate.
//!
//! Text is handled as sequences of `char`s: an exec `&str` or `String` is turned
//! into a `Vec<char>` with [`to_chars`], worked on, and turned back with
//! [`from_chars`]. Each operation is stated over `Seq<char>` by a spec function.
use vstd::prelude::*;

verus! {

broadcast use vstd::string::group_string_axioms;

/// Unicode `White_Space`, the set of characters that `str::trim` strips.
pub open spec fn is_ws(c: char) -> bool {
    let u = c as u32;
    ||| 0x09 <= u <= 0x0D
    ||| u == 0x20
    ||| u == 0x85
    ||| u == 0xA0
    ||| u == 0x1680
    ||| 0x2000 <= u <= 0x200A
    ||| u == 0x2028
    ||| u == 0x2029
    ||| u == 0x202F
    ||| u == 0x205F
    ||| u == 0x3000
}

/// `s` without its leading white space.
pub open spec fn trim_start(s: Seq<char>) -> Seq<char>
    decreases s.len(),
{
    if s.len() > 0 && is_ws(s[0]) {
        trim_start(s.drop_first())
    } else {
        s
    }
}

/// `s` without its trailing white space.
pub open spec fn trim_end(s: Seq<char>) -> Seq<char>
    decreases s.len(),
{
    if s.len() > 0 && is_ws(s.last()) {
        trim_end(s.drop_last())
    } else {
        s
    }
}

/// `s` without leading and trailing white space (`str::trim`).
pub open spec fn trim(s: Seq<char>) -> Seq<char> {
    trim_end(trim_start(s))
}

/// `p` occurs in `s` at index `k`.
pub open spec fn occurs_at<T>(s: Seq<T>, p: Seq<T>, k: int) -> bool {
    0 <= k && k + p.len() <= s.len() && s.subrange(k, k + p.len()) == p
}

/// The first index at or after `i` where `p` occurs in `s`.
pub open spec fn find_from<T>(s: Seq<T>, p: Seq<T>, i: int) -> Option<int>
    decreases s.len() + 1 - i,
{
    if i < 0 || i + p.len() > s.len() {
        None
    } else if occurs_at(s, p, i) {
        Some(i)
    } else {
        find_from(s, p, i + 1)
    }
}

/// The first index where `p` occurs in `s` (`str::find`, counted in the
/// elements of `s`).
pub open spec fn find<T>(s: Seq<T>, p: Seq<T>) -> Option<int> {
    find_from(s, p, 0)
}

/// `p` occurs somewhere in `s` (`str::contains`).
pub open spec fn contains(s: Seq<char>, p: Seq<char>) -> bool {
    find(s, p) is Some
}

/// `s` begins with `p` (`str::starts_with`).
pub open spec fn starts_with(s: Seq<char>, p: Seq<char>) -> bool {
    p.len() <= s.len() && s.subrange(0, p.len() as int) == p
}

/// `s` ends with `p` (`str::ends_with`).
pub open spec fn ends_with(s: Seq<char>, p: Seq<char>) -> bool {
    p.len() <= s.len() && s.subrange(s.len() - p.len(), s.len() as int) == p
}

/// Every non-overlapping occurrence of `p` in `s`, scanning left to right,
/// replaced by `r` (`str::replace` for a non-empty `p`).
pub open spec fn replace(s: Seq<char>, p: Seq<char>, r: Seq<char>) -> Seq<char>
    recommends
        p.len() > 0,
    decreases s.len(),
{
    if p.len() == 0 {
        s
    } else {
        match find(s, p) {
            None => s,
            Some(k) => {
                proof {
                    lemma_find_from_first(s, p, 0);
                }
                s.subrange(0, k) + r + replace(s.subrange(k + p.len(), s.len() as int), p, r)
            },
        }
    }
}

/// Lemma: a match found from `i` is the first one at or after `i`.
pub proof fn lemma_find_from_first<T>(s: Seq<T>, p: Seq<T>, i: int)
    requires
        0 <= i,
    ensures
        match find_from(s, p, i) {
            Some(k) => i <= k && occurs_at(s, p, k) && forall|j: int|
                i <= j < k ==> !occurs_at(s, p, j),
            None => forall|j: int| i <= j ==> !occurs_at(s, p, j),
        },
    decreases s.len() + 1 - i,
{
    if i + p.len() > s.len() {
    } else if occurs_at(s, p, i) {
    } else {
        lemma_find_from_first(s, p, i + 1);
    }
}

/// The characters of `s`, in order.
pub fn to_chars(s: &str) -> (v: Vec<char>)
    ensures
        v@ == s@,
{
    let mut v: Vec<char> = Vec::new();
    for c in it: s.chars()
        invariant
            v@ == it.seq().take(it.index()),
    {
        v.push(c);
    }
    assert(v@ == s@);
    v
}

/// Appends one character to a string (std's `String::push`). The contract
/// states that the character is added at the end and nothing else changes.
#[verifier::external_body]
pub(crate) fn push_char(s: &mut String, c: char)
    ensures
        final(s)@ == old(s)@.push(c),
{
    s.push(c);
}

/// The string made of the characters of `v`.
pub fn from_chars(v: &[char]) -> (s: String)
    ensures
        s@ == v@,
{
    let mut s = String::new();
    let mut i: usize = 0;
    while i < v.len()
        invariant
            i <= v.len(),
            s@ == v@.subrange(0, i as int),
        decreases v.len() - i,
    {
        push_char(&mut s, v[i]);
        assert(v@.subrange(0, i + 1) == v@.subrange(0, i as int).push(v@[i as int]));
        i = i + 1;
    }
    assert(v@.subrange(0, v.len() as int) == v@);
    s
}

/// `a` and `b` hold the same characters.
pub fn chars_eq(a: &[char], b: &[char]) -> (r: bool)
    ensures
        r == (a@ == b@),
{
    if a.len() != b.len() {
        return false;
    }
    let mut i: usize = 0;
    while i < a.len()
        invariant
            a.len() == b.len(),
            i <= a.len(),
            forall|j: int| 0 <= j < i ==> a@[j] == b@[j],
        decreases a.len() - i,
    {
        if a[i] != b[i] {
            return false;
        }
        i = i + 1;
    }
    assert(a@ =~= b@);
    true
}

/// `a` and `b` hold the same characters.
pub fn str_eq(a: &str, b: &str) -> (r: bool)
    ensures
        r == (a@ == b@),
{
    let va = to_chars(a);
    let vb = to_chars(b);
    chars_eq(va.as_slice(), vb.as_slice())
}

/// `p` occurs in `s` at index `k`.
pub fn occurs_at_exec(s: &[char], p: &[char], k: usize) -> (r: bool)
    ensures
        r == occurs_at(s@, p@, k as int),
{
    if k > s.len() || p.len() > s.len() - k {
        return false;
    }
    let mut i: usize = 0;
    while i < p.len()
        invariant
            k + p.len() <= s.len(),
            i <= p.len(),
            forall|j: int| 0 <= j < i ==> s@[k + j] == p@[j],
        decreases p.len() - i,
    {
        if s[k + i] != p[i] {
            assert(s@.subrange(k as int, k + p.len())[i as int] != p@[i as int]);
            return false;
        }
        i = i + 1;
    }
    assert(s@.subrange(k as int, k + p.len()) =~= p@);
    true
}

/// The first index at or after `from` where `p` occurs in `s`.
pub fn find_from_exec(s: &[char], p: &[char], from: usize) -> (r: Option<usize>)
    ensures
        find_from(s@, p@, from as int) == match r {
            Some(k) => Some(k as int),
            None => None::<int>,
        },
{
    let mut i = from;
    if i > s.len() || p.len() > s.len() - i {
        return None;
    }
    if p.len() == 0 {
        assert(s@.subrange(from as int, from as int) =~= p@);
        return Some(from);
    }
    while i <= s.len() - p.len()
        invariant
            from <= i,
            1 <= p.len() <= s.len(),
            find_from(s@, p@, from as int) == find_from(s@, p@, i as int),
        decreases s.len() - i,
    {
        if occurs_at_exec(s, p, i) {
            return Some(i);
        }
        i = i + 1;
    }
    None
}

/// The first index where `p` occurs in `s`.
pub fn find_exec(s: &[char], p: &[char]) -> (r: Option<usize>)
    ensures
        find(s@, p@) == match r {
            Some(k) => Some(k as int),
            None => None::<int>,
        },
{
    find_from_exec(s, p, 0)
}

/// `p` occurs somewhere in `s`.
pub fn contains_exec(s: &[char], p: &[char]) -> (r: bool)
    ensures
        r == contains(s@, p@),
{
    find_exec(s, p).is_some()
}

/// `s` begins with `p`.
pub fn starts_with_exec(s: &[char], p: &[char]) -> (r: bool)
    ensures
        r == starts_with(s@, p@),
{
    occurs_at_exec(s, p, 0)
}

/// `s` ends with `p`.
pub fn ends_with_exec(s: &[char], p: &[char]) -> (r: bool)
    ensures
        r == ends_with(s@, p@),
{
    if p.len() > s.len() {
        return false;
    }
    occurs_at_exec(s, p, s.len() - p.len())
}

/// Lemma: `trim_start` of a suffix that starts at white space is the trim of
/// the next suffix.
proof fn lemma_trim_start_step(s: Seq<char>, i: int)
    requires
        0 <= i < s.len(),
        is_ws(s[i]),
    ensures
        trim_start(s.skip(i)) == trim_start(s.skip(i + 1)),
{
    assert(s.skip(i).drop_first() =~= s.skip(i + 1));
}

proof fn lemma_trim_end_step(s: Seq<char>, j: int)
    requires
        0 < j <= s.len(),
        is_ws(s[j - 1]),
    ensures
        trim_end(s.take(j)) == trim_end(s.take(j - 1)),
{
    assert(s.take(j).drop_last() =~= s.take(j - 1));
}

/// The characters of `s` without leading and trailing white space.
pub fn trim_exec(s: &[char]) -> (r: Vec<char>)
    ensures
        r@ == trim(s@),
{
    let mut i: usize = 0;
    assert(s@.skip(0) =~= s@);
    while i < s.len() && is_ws_exec(s[i])
        invariant
            i <= s.len(),
            trim_start(s@) == trim_start(s@.skip(i as int)),
        decreases s.len() - i,
    {
        proof {
            lemma_trim_start_step(s@, i as int);
        }
        i = i + 1;
    }
    let ghost t = s@.skip(i as int);
    assert(trim_start(s@) == t);
    let mut j: usize = s.len() - i;
    assert(t.take(j as int) =~= t);
    while j > 0 && is_ws_exec(s[i + j - 1])
        invariant
            i <= s.len(),
            j <= t.len(),
            t == s@.skip(i as int),
            trim_end(t) == trim_end(t.take(j as int)),
        decreases j,
    {
        proof {
            lemma_trim_end_step(t, j as int);
        }
        j = j - 1;
    }
    assert(trim_end(t) == t.take(j as int));
    let mut r: Vec<char> = Vec::new();
    let mut k: usize = 0;
    while k < j
        invariant
            k <= j,
            i <= s.len(),
            j <= t.len(),
            t == s@.skip(i as int),
            r@ == t.take(k as int),
        decreases j - k,
    {
        r.push(s[i + k]);
        assert(t.take(k + 1) =~= t.take(k as int).push(t[k as int]));
        k = k + 1;
    }
    r
}

/// Unicode `White_Space` membership of one character.
pub fn is_ws_exec(c: char) -> (r: bool)
    ensures
        r == is_ws(c),
{
    let u = c as u32;
    (0x09 <= u && u <= 0x0D) || u == 0x20 || u == 0x85 || u == 0xA0 || u == 0x1680 || (0x2000
        <= u && u <= 0x200A) || u == 0x2028 || u == 0x2029 || u == 0x202F || u == 0x205F || u
        == 0x3000
}

/// The sub-sequence `s[from..to]` as a vector.
pub fn slice_to_vec(s: &[char], from: usize, to: usize) -> (r: Vec<char>)
    requires
        from <= to <= s.len(),
    ensures
        r@ == s@.subrange(from as int, to as int),
{
    let mut r: Vec<char> = Vec::new();
    let mut k = from;
    while k < to
        invariant
            from <= k <= to,
            to <= s.len(),
            r@ == s@.subrange(from as int, k as int),
        decreases to - k,
    {
        r.push(s[k]);
        assert(s@.subrange(from as int, k + 1) =~= s@.subrange(from as int, k as int).push(s@[k as int]));
        k = k + 1;
    }
    r
}

/// `a` followed by `b`.
pub fn concat_chars(a: &[char], b: &[char]) -> (r: Vec<char>)
    ensures
        r@ == a@ + b@,
{
    let mut r = slice_to_vec(a, 0, a.len());
    let mut k: usize = 0;
    assert(a@.subrange(0, a.len() as int) =~= a@);
    while k < b.len()
        invariant
            k <= b.len(),
            r@ == a@ + b@.take(k as int),
        decreases b.len() - k,
    {
        r.push(b[k]);
        assert(b@.take(k + 1) =~= b@.take(k as int).push(b@[k as int]));
        k = k + 1;
    }
    assert(b@.take(b.len() as int) =~= b@);
    r
}

} // verus!

verus! {

/// A string with no white space at either end is its own trim.
pub proof fn lemma_trim_noop(s: Seq<char>)
    requires
        s.len() > 0 ==> !is_ws(s[0]) && !is_ws(s.last()),
    ensures
        trim(s) == s,
{
}

/// The first occurrence of a one-character pattern is at the first index
/// holding that character.
pub proof fn lemma_find_single(s: Seq<char>, c: char, k: int)
    requires
        0 <= k < s.len(),
        s[k] == c,
        forall|j: int| 0 <= j < k ==> s[j] != c,
    ensures
        find(s, seq![c]) == Some(k),
{
    lemma_find_single_from(s, c, k, 0);
}

proof fn lemma_find_single_from(s: Seq<char>, c: char, k: int, i: int)
    requires
        0 <= i <= k < s.len(),
        s[k] == c,
        forall|j: int| 0 <= j < k ==> s[j] != c,
    ensures
        find_from(s, seq![c], i) == Some(k),
    decreases k - i,
{
    if i == k {
        assert(s.subrange(k, k + 1) =~= seq![c]);
    } else {
        assert(s.subrange(i, i + 1)[0] != c);
        lemma_find_single_from(s, c, k, i + 1);
    }
}

/// A one-character pattern that no character of `s` equals does not occur.
pub proof fn lemma_find_single_none(s: Seq<char>, c: char)
    requires
        forall|j: int| 0 <= j < s.len() ==> s[j] != c,
    ensures
        find(s, seq![c]) is None,
{
    lemma_find_from_first(s, seq![c], 0);
    if let Some(k) = find(s, seq![c]) {
        assert(s.subrange(k, k + 1)[0] == c);
    }
}

/// Where `s` first holds `c`, as the pair of text before and after it
/// (`str::split_once` with a `char` pattern).
pub open spec fn split_once(s: Seq<char>, c: char) -> Option<(Seq<char>, Seq<char>)> {
    match find(s, seq![c]) {
        None => None,
        Some(k) => Some((s.subrange(0, k), s.subrange(k + 1, s.len() as int))),
    }
}

/// Where `s` first holds `c`, as the pair of text before and after it.
pub fn split_once_exec(s: &[char], c: char) -> (r: Option<(Vec<char>, Vec<char>)>)
    ensures
        match split_once(s@, c) {
            None => r is None,
            Some((a, b)) => r matches Some((x, y)) && x@ == a && y@ == b,
        },
{
    let pat = vec![c];
    assert(pat@ =~= seq![c]);
    match find_exec(s, pat.as_slice()) {
        None => None,
        Some(k) => {
            proof {
                lemma_find_from_first(s@, seq![c], 0);
                assert(find(s@, seq![c]) == Some(k as int));
            }
            let n = s.len();
            assert(k + 1 <= n);
            let a = slice_to_vec(s, 0, k);
            let b = slice_to_vec(s, k + 1, n);
            Some((a, b))
        },
    }
}

/// The characters of `s` without leading and trailing white space.
pub fn trim_str(s: &str) -> (r: Vec<char>)
    ensures
        r@ == trim(s@),
{
    let v = to_chars(s);
    trim_exec(v.as_slice())
}

/// `v` holds exactly the characters of `lit`.
pub fn chars_eq_str(v: &[char], lit: &str) -> (r: bool)
    ensures
        r == (v@ == lit@),
{
    let l = to_chars(lit);
    chars_eq(v, l.as_slice())
}

} // verus!

verus! {

/// `s` in lower case (std's `str::to_lowercase`, full Unicode case mapping).
pub uninterp spec fn lowercase(s: Seq<char>) -> Seq<char>;

/// The lower-case form of `s` (std's `str::to_lowercase`). The contract
/// names the result: it is the Unicode lower-case mapping of `s`, a function
/// of `s` alone, which this crate does not spell out.
#[verifier::external_body]
pub(crate) fn to_lowercase(s: &str) -> (r: String)
    ensures
        r@ == lowercase(s@),
{
    s.to_lowercase()
}

} // verus!

verus! {

/// Every non-overlapping occurrence of `p` in `s`, scanning left to right,
/// replaced by `r`.
pub fn replace_exec(s: &[char], p: &[char], r: &[char]) -> (out: Vec<char>)
    requires
        p.len() > 0,
    ensures
        out@ == replace(s@, p@, r@),
    decreases s.len(),
{
    match find_exec(s, p) {
        None => slice_to_vec(s, 0, s.len()),
        Some(k) => {
            proof {
                lemma_find_from_first(s@, p@, 0);
            }
            let head = slice_to_vec(s, 0, k);
            let tail = slice_to_vec(s, k + p.len(), s.len());
            let rest = replace_exec(tail.as_slice(), p, r);
            let hr = concat_chars(head.as_slice(), r);
            let out = concat_chars(hr.as_slice(), rest.as_slice());
            assert(s@.subrange(0, s.len() as int) =~= s@);
            out
        },
    }
}

/// `s` with every occurrence of the non-empty `p` replaced by `r`
/// (`str::replace`).
pub fn replace_str(s: &str, p: &str, r: &str) -> (out: String)
    requires
        p@.len() > 0,
    ensures
        out@ == replace(s@, p@, r@),
{
    let sv = to_chars(s);
    let pv = to_chars(p);
    let rv = to_chars(r);
    let out = replace_exec(sv.as_slice(), pv.as_slice(), rv.as_slice());
    from_chars(out.as_slice())
}

/// `p` occurs in the bytes `s` at index `k`.
pub fn occurs_at_bytes(s: &[u8], p: &[u8], k: usize) -> (r: bool)
    ensures
        r == occurs_at(s@, p@, k as int),
{
    if k > s.len() || p.len() > s.len() - k {
        return false;
    }
    let mut i: usize = 0;
    while i < p.len()
        invariant
            k + p.len() <= s.len(),
            i <= p.len(),
            forall|j: int| 0 <= j < i ==> s@[k + j] == p@[j],
        decreases p.len() - i,
    {
        if s[k + i] != p[i] {
            assert(s@.subrange(k as int, k + p.len())[i as int] != p@[i as int]);
            return false;
        }
        i = i + 1;
    }
    assert(s@.subrange(k as int, k + p.len()) =~= p@);
    true
}

/// The first index at or after `from` where the bytes `p` occur in `s`.
pub fn find_from_bytes(s: &[u8], p: &[u8], from: usize) -> (r: Option<usize>)
    ensures
        find_from(s@, p@, from as int) == match r {
            Some(k) => Some(k as int),
            None => None::<int>,
        },
        r matches Some(k) ==> from <= k && k + p@.len() <= s@.len(),
{
    proof {
        lemma_find_from_first(s@, p@, from as int);
    }
    let mut i = from;
    if i > s.len() || p.len() > s.len() - i {
        return None;
    }
    if p.len() == 0 {
        assert(s@.subrange(from as int, from as int) =~= p@);
        return Some(from);
    }
    while i <= s.len() - p.len()
        invariant
            from <= i,
            1 <= p.len() <= s.len(),
            find_from(s@, p@, from as int) == find_from(s@, p@, i as int),
        decreases s.len() - i,
    {
        if occurs_at_bytes(s, p, i) {
            return Some(i);
        }
        i = i + 1;
    }
    None
}

/// The bytes `s[from..to]` as a vector.
pub fn slice_bytes(s: &[u8], from: usize, to: usize) -> (r: Vec<u8>)
    requires
        from <= to <= s.len(),
    ensures
        r@ == s@.subrange(from as int, to as int),
{
    let mut r: Vec<u8> = Vec::new();
    let mut k = from;
    while k < to
        invariant
            from <= k <= to,
            to <= s.len(),
            r@ == s@.subrange(from as int, k as int),
        decreases to - k,
    {
        r.push(s[k]);
        assert(s@.subrange(from as int, k + 1) =~= s@.subrange(from as int, k as int).push(s@[k as int]));
        k = k + 1;
    }
    r
}

/// Lemma: the UTF-8 bytes of ASCII text are its character codes.
pub proof fn lemma_ascii_bytes(s: Seq<char>)
    requires
        forall|i: int| 0 <= i < s.len() ==> (s[i] as u32) < 0x80,
    ensures
        vstd::utf8::encode_utf8(s).len() == s.len(),
        forall|i: int| 0 <= i < s.len() ==> vstd::utf8::encode_utf8(s)[i] == (s[i] as u32) as u8,
    decreases s.len(),
{
    if s.len() > 0 {
        let c = s[0] as u32;
        assert((c & 0x7F) == c) by (bit_vector)
            requires
                c < 0x80,
        ;
        assert(vstd::utf8::encode_scalar(c) =~= seq![c as u8]);
        let t = s.drop_first();
        assert forall|i: int| 0 <= i < t.len() implies (t[i] as u32) < 0x80 by {
            assert(t[i] == s[i + 1]);
        }
        lemma_ascii_bytes(t);
        assert forall|i: int| 0 <= i < s.len() implies vstd::utf8::encode_utf8(s)[i] == (s[i] as u32) as u8 by {
            if i > 0 {
                assert(vstd::utf8::encode_utf8(s)[i] == vstd::utf8::encode_utf8(t)[i - 1]);
                assert(t[i - 1] == s[i]);
            }
        }
    }
}

/// Lemma: the UTF-8 bytes of two texts one after the other are their bytes
/// one after the other.
pub proof fn lemma_encode_append(a: Seq<char>, b: Seq<char>)
    ensures
        vstd::utf8::encode_utf8(a + b) == vstd::utf8::encode_utf8(a) + vstd::utf8::encode_utf8(b),
    decreases a.len(),
{
    if a.len() == 0 {
        assert(a + b =~= b);
        assert(vstd::utf8::encode_utf8(a) =~= Seq::<u8>::empty());
        assert(vstd::utf8::encode_utf8(a) + vstd::utf8::encode_utf8(b) =~= vstd::utf8::encode_utf8(b));
    } else {
        assert((a + b)[0] == a[0]);
        assert((a + b).drop_first() =~= a.drop_first() + b);
        lemma_encode_append(a.drop_first(), b);
        assert(vstd::utf8::encode_utf8(a + b) =~= vstd::utf8::encode_scalar(a[0] as u32)
            + vstd::utf8::encode_utf8(a.drop_first() + b));
    }
}

} // verus!
