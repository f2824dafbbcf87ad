use vstd::prelude::*;

verus! {

// ---------------------------------------------------------------------------
// Moving between strings and character vectors
// ---------------------------------------------------------------------------

/// The characters of a string, in order.
pub fn chars_of(s: &str) -> (r: Vec<char>)
    ensures
        r@ == s@,
{
    let mut out: Vec<char> = Vec::new();
    for c in it: s.chars()
        invariant
            it.seq() == s@,
            out@ == it.seq().take(it.index() as int),
    {
        out.push(c);
        assert(it.seq().take(it.index() + 1) =~= it.seq().take(it.index() as int).push(c));
    }
    assert(out@ =~= s@);
    out
}

/// Wraps `FromIterator<&char> for String`: the string made of the given characters.
#[verifier::external_body]
pub(crate) fn string_from_chars(v: &[char]) -> (r: String)
    ensures
        r@ == v@,
{
    v.iter().collect::<String>()
}

/// Wraps `String::from_utf8`: the text the bytes encode, where they are
/// valid UTF-8, and nothing otherwise.
#[verifier::external_body]
pub(crate) fn utf8_text(bytes: Vec<u8>) -> (r: Option<String>)
    ensures
        r is Some <==> vstd::utf8::valid_utf8(bytes@),
        r matches Some(s) ==> s@ == vstd::utf8::decode_utf8(bytes@),
{
    String::from_utf8(bytes).ok()
}

/// What `String::from_utf8_lossy` gives for a byte string.
pub uninterp spec fn spec_utf8_lossy(bytes: Seq<u8>) -> Seq<char>;

/// Wraps `String::from_utf8_lossy`: the text of the bytes, with each
/// invalid sequence replaced by U+FFFD.  The result is named by
/// `spec_utf8_lossy`; for valid UTF-8 it is the decoded text.
#[verifier::external_body]
pub(crate) fn utf8_lossy(bytes: &[u8]) -> (r: String)
    ensures
        r@ == spec_utf8_lossy(bytes@),
        vstd::utf8::valid_utf8(bytes@) ==> r@ == vstd::utf8::decode_utf8(bytes@),
{
    String::from_utf8_lossy(bytes).into_owned()
}

/// A string holding the characters of a string slice.
pub fn owned(s: &str) -> (r: String)
    ensures
        r@ == s@,
{
    s.to_owned()
}

/// Equality of two string slices, character by character.
pub fn str_eq(a: &str, b: &str) -> (r: bool)
    ensures
        r == (a@ == b@),
{
    let av = chars_of(a);
    let bv = chars_of(b);
    seq_eq(&av, &bv)
}

/// Equality of two character vectors.
pub fn seq_eq(a: &Vec<char>, b: &Vec<char>) -> (r: bool)
    ensures
        r == (a@ == b@),
{
    if a.len() != b.len() {
        return false;
    }
    let mut i: usize = 0;
    while i < a.len()
        invariant
            a@.len() == b@.len(),
            0 <= i <= a@.len(),
            forall|j: int| 0 <= j < i ==> a@[j] == b@[j],
        decreases a@.len() - i,
    {
        if a[i] != b[i] {
            return false;
        }
        i = i + 1;
    }
    assert(a@ =~= b@);
    true
}

/// Appends the characters of `s` to `out`.
pub fn push_str(out: &mut Vec<char>, s: &str)
    ensures
        final(out)@ == old(out)@ + s@,
{
    let v = chars_of(s);
    push_all(out, &v);
}

/// Appends the characters of `v` to `out`.
pub fn push_all(out: &mut Vec<char>, v: &Vec<char>)
    ensures
        final(out)@ == old(out)@ + v@,
{
    let ghost start = out@;
    let mut i: usize = 0;
    while i < v.len()
        invariant
            0 <= i <= v@.len(),
            out@ == start + v@.take(i as int),
        decreases v@.len() - i,
    {
        out.push(v[i]);
        assert(v@.take(i + 1) =~= v@.take(i as int).push(v@[i as int]));
        i = i + 1;
    }
    assert(v@.take(v@.len() as int) =~= v@);
}

/// The concatenation of two strings.
pub fn concat2(a: &str, b: &str) -> (r: String)
    ensures
        r@ == a@ + b@,
{
    let mut v = chars_of(a);
    push_str(&mut v, b);
    string_from_chars(v.as_slice())
}

/// The concatenation of three strings.
pub fn concat3(a: &str, b: &str, c: &str) -> (r: String)
    ensures
        r@ == a@ + b@ + c@,
{
    let mut v = chars_of(a);
    push_str(&mut v, b);
    push_str(&mut v, c);
    string_from_chars(v.as_slice())
}

/// The concatenation of four strings.
pub fn concat4(a: &str, b: &str, c: &str, d: &str) -> (r: String)
    ensures
        r@ == a@ + b@ + c@ + d@,
{
    let mut v = chars_of(a);
    push_str(&mut v, b);
    push_str(&mut v, c);
    push_str(&mut v, d);
    string_from_chars(v.as_slice())
}

/// A copy of a vector of strings.
pub fn copy_strings(v: &Vec<String>) -> (r: Vec<String>)
    ensures
        r@.len() == v@.len(),
        forall|i: int| 0 <= i < v@.len() ==> #[trigger] r@[i]@ == v@[i]@,
{
    let mut out: Vec<String> = Vec::new();
    let mut i: usize = 0;
    while i < v.len()
        invariant
            0 <= i <= v@.len(),
            out@.len() == i,
            forall|j: int| 0 <= j < i ==> #[trigger] out@[j]@ == v@[j]@,
        decreases v@.len() - i,
    {
        out.push(v[i].clone());
        i = i + 1;
    }
    out
}

/// The views of a sequence of strings.
pub open spec fn views(v: Seq<String>) -> Seq<Seq<char>> {
    v.map_values(|s: String| s@)
}

/// The views of a sequence of string pairs.
pub open spec fn pair_views(v: Seq<(String, String)>) -> Seq<(Seq<char>, Seq<char>)> {
    v.map_values(|p: (String, String)| (p.0@, p.1@))
}

// ---------------------------------------------------------------------------
// Whitespace and trimming
// ---------------------------------------------------------------------------

/// Unicode `White_Space`, the property that `char::is_whitespace` tests.
pub open spec fn is_ws(c: char) -> bool {
    let u = c as u32;
    ||| (0x09 <= u && u <= 0x0D)
    ||| u == 0x20
    ||| u == 0x85
    ||| u == 0xA0
    ||| u == 0x1680
    ||| (0x2000 <= u && u <= 0x200A)
    ||| u == 0x2028
    ||| u == 0x2029
    ||| u == 0x202F
    ||| u == 0x205F
    ||| u == 0x3000
}

/// Whether a character is Unicode whitespace.
pub fn is_whitespace(c: char) -> (r: bool)
    ensures
        r == is_ws(c),
{
    let u = c as u32;
    (0x09 <= u && u <= 0x0D) || u == 0x20 || u == 0x85 || u == 0xA0 || u == 0x1680 || (0x2000
        <= u && u <= 0x200A) || u == 0x2028 || u == 0x2029 || u == 0x202F || u == 0x205F || u
        == 0x3000
}

/// `s` without its leading whitespace.
pub open spec fn trim_start(s: Seq<char>) -> Seq<char>
    decreases s.len(),
{
    if s.len() > 0 && is_ws(s[0]) {
        trim_start(s.drop_first())
    } else {
        s
    }
}

/// `s` without its trailing whitespace.
pub open spec fn trim_end(s: Seq<char>) -> Seq<char>
    decreases s.len(),
{
    if s.len() > 0 && is_ws(s.last()) {
        trim_end(s.drop_last())
    } else {
        s
    }
}

/// `s` without leading and trailing whitespace (what `str::trim` gives).
pub open spec fn trim(s: Seq<char>) -> Seq<char> {
    trim_end(trim_start(s))
}

/// `trim_start` drops a prefix of whitespace.
pub proof fn lemma_trim_start_skip(s: Seq<char>, i: int)
    requires
        0 <= i <= s.len(),
        forall|j: int| 0 <= j < i ==> is_ws(#[trigger] s[j]),
    ensures
        trim_start(s) == trim_start(s.skip(i)),
    decreases i,
{
    if i > 0 {
        assert(s.drop_first().skip(i - 1) =~= s.skip(i));
        lemma_trim_start_skip(s.drop_first(), i - 1);
    } else {
        assert(s.skip(0) =~= s);
    }
}

/// `trim_end` drops a suffix of whitespace.
pub proof fn lemma_trim_end_take(s: Seq<char>, k: int)
    requires
        0 <= k <= s.len(),
        forall|j: int| k <= j < s.len() ==> is_ws(#[trigger] s[j]),
    ensures
        trim_end(s) == trim_end(s.take(k)),
    decreases s.len() - k,
{
    if k < s.len() {
        assert(s.drop_last().take(k) =~= s.take(k));
        lemma_trim_end_take(s.drop_last(), k);
    } else {
        assert(s.take(k) =~= s);
    }
}

/// The length of `trim_start(s)` never exceeds that of `s`.
pub proof fn lemma_trim_start_len(s: Seq<char>)
    ensures
        trim_start(s).len() <= s.len(),
        trim_start(s).len() > 0 ==> !is_ws(trim_start(s)[0]),
        trim_start(s) == s.skip(s.len() - trim_start(s).len()),
    decreases s.len(),
{
    if s.len() > 0 && is_ws(s[0]) {
        lemma_trim_start_len(s.drop_first());
        assert(s.drop_first().skip(s.drop_first().len() - trim_start(s).len()) =~= s.skip(
            s.len() - trim_start(s).len(),
        ));
    } else {
        assert(s.skip(0) =~= s);
    }
}

/// The whitespace-trimmed form of a character sequence.
pub fn trim_chars(s: &Vec<char>) -> (r: Vec<char>)
    ensures
        r@ == trim(s@),
{
    let mut start: usize = 0;
    while start < s.len() && is_whitespace(s[start])
        invariant
            0 <= start <= s@.len(),
            forall|j: int| 0 <= j < start ==> is_ws(#[trigger] s@[j]),
        decreases s@.len() - start,
    {
        start = start + 1;
    }
    proof {
        lemma_trim_start_skip(s@, start as int);
    }
    let ghost t = s@.skip(start as int);
    assert(trim_start(t) == t);
    let mut end: usize = s.len();
    while end > start && is_whitespace(s[end - 1])
        invariant
            start <= end <= s@.len(),
            forall|j: int| end <= j < s@.len() ==> is_ws(#[trigger] s@[j]),
        decreases end,
    {
        end = end - 1;
    }
    proof {
        assert forall|j: int| (end - start) <= j < t.len() implies is_ws(#[trigger] t[j]) by {
            assert(t[j] == s@[j + start]);
        }
        lemma_trim_end_take(t, end - start);
        assert(t.take(end - start) =~= s@.subrange(start as int, end as int));
    }
    let mut out: Vec<char> = Vec::new();
    let mut i: usize = start;
    while i < end
        invariant
            start <= i <= end,
            end <= s@.len(),
            out@ == s@.subrange(start as int, i as int),
        decreases end - i,
    {
        out.push(s[i]);
        assert(s@.subrange(start as int, i + 1) =~= s@.subrange(start as int, i as int).push(
            s@[i as int],
        ));
        i = i + 1;
    }
    out
}

/// The whitespace-trimmed form of a string.
pub fn trim_str(s: &str) -> (r: String)
    ensures
        r@ == trim(s@),
{
    let v = chars_of(s);
    let t = trim_chars(&v);
    string_from_chars(t.as_slice())
}

/// `s` with every trailing `c` removed (what `str::trim_end_matches(c)` gives).
pub open spec fn trim_end_char(s: Seq<char>, c: char) -> Seq<char>
    decreases s.len(),
{
    if s.len() > 0 && s.last() == c {
        trim_end_char(s.drop_last(), c)
    } else {
        s
    }
}

/// `s` with every leading `c` removed.
pub open spec fn trim_start_char(s: Seq<char>, c: char) -> Seq<char>
    decreases s.len(),
{
    if s.len() > 0 && s[0] == c {
        trim_start_char(s.drop_first(), c)
    } else {
        s
    }
}

/// Removing trailing `c` from a character vector.
pub fn trim_end_matches_char(s: &Vec<char>, c: char) -> (r: Vec<char>)
    ensures
        r@ == trim_end_char(s@, c),
{
    let mut end: usize = s.len();
    assert(s@.take(s@.len() as int) =~= s@);
    while end > 0 && s[end - 1] == c
        invariant
            end <= s@.len(),
            trim_end_char(s@, c) == trim_end_char(s@.take(end as int), c),
        decreases end,
    {
        assert(s@.take(end as int).drop_last() =~= s@.take(end - 1));
        end = end - 1;
    }
    let mut out: Vec<char> = Vec::new();
    let mut i: usize = 0;
    while i < end
        invariant
            0 <= i <= end,
            end <= s@.len(),
            out@ == s@.take(i as int),
        decreases end - i,
    {
        out.push(s[i]);
        assert(s@.take(i + 1) =~= s@.take(i as int).push(s@[i as int]));
        i = i + 1;
    }
    out
}

/// Removing leading `c` from a character vector.
pub fn trim_start_matches_char(s: &Vec<char>, c: char) -> (r: Vec<char>)
    ensures
        r@ == trim_start_char(s@, c),
{
    let mut start: usize = 0;
    assert(s@.skip(0) =~= s@);
    while start < s.len() && s[start] == c
        invariant
            start <= s@.len(),
            trim_start_char(s@, c) == trim_start_char(s@.skip(start as int), c),
        decreases s@.len() - start,
    {
        assert(s@.skip(start as int).drop_first() =~= s@.skip(start + 1));
        start = start + 1;
    }
    let mut out: Vec<char> = Vec::new();
    let mut i: usize = start;
    while i < s.len()
        invariant
            start <= i <= s@.len(),
            out@ == s@.subrange(start as int, i as int),
        decreases s@.len() - i,
    {
        out.push(s[i]);
        assert(s@.subrange(start as int, i + 1) =~= s@.subrange(start as int, i as int).push(
            s@[i as int],
        ));
        i = i + 1;
    }
    assert(out@ =~= s@.skip(start as int));
    out
}

// ---------------------------------------------------------------------------
// Prefixes, suffixes and searching
// ---------------------------------------------------------------------------

/// Whether `p` is a prefix of `s`.
pub open spec fn has_prefix(s: Seq<char>, p: Seq<char>) -> bool {
    p.len() <= s.len() && s.take(p.len() as int) == p
}

/// Whether `p` is a suffix of `s`.
pub open spec fn has_suffix(s: Seq<char>, p: Seq<char>) -> bool {
    p.len() <= s.len() && s.skip(s.len() - p.len()) == p
}

/// Whether the characters of `s` starting at `at` spell `p`.
pub fn matches_at(s: &Vec<char>, at: usize, p: &Vec<char>) -> (r: bool)
    requires
        at <= s@.len(),
    ensures
        r == (p@.len() <= s@.len() - at && s@.subrange(at as int, at + p@.len()) == p@),
{
    if p.len() > s.len() - at {
        return false;
    }
    let mut i: usize = 0;
    while i < p.len()
        invariant
            at <= s@.len(),
            at + p@.len() <= s.len(),
            s@.len() == s.len(),
            p@.len() <= s@.len() - at,
            0 <= i <= p@.len(),
            forall|j: int| 0 <= j < i ==> s@[at + j] == p@[j],
        decreases p@.len() - i,
    {
        if s[at + i] != p[i] {
            assert(s@.subrange(at as int, at + p@.len())[i as int] != p@[i as int]);
            return false;
        }
        i = i + 1;
    }
    assert(s@.subrange(at as int, at + p@.len()) =~= p@);
    true
}

/// Whether `s` starts with `p`.
pub fn starts_with(s: &Vec<char>, p: &Vec<char>) -> (r: bool)
    ensures
        r == has_prefix(s@, p@),
{
    let r = matches_at(s, 0, p);
    assert(s@.take(p@.len() as int) =~= s@.subrange(0, p@.len() as int));
    r
}

/// Whether `s` ends with `p`.
pub fn ends_with(s: &Vec<char>, p: &Vec<char>) -> (r: bool)
    ensures
        r == has_suffix(s@, p@),
{
    if p.len() > s.len() {
        return false;
    }
    let r = matches_at(s, s.len() - p.len(), p);
    assert(s@.skip(s@.len() - p@.len()) =~= s@.subrange(s@.len() - p@.len(), s@.len() as int));
    r
}

/// `s` with every trailing occurrence of the non-empty `p` removed (what
/// `str::trim_end_matches(p)` gives).
pub open spec fn trim_end_str(s: Seq<char>, p: Seq<char>) -> Seq<char>
    decreases s.len(),
{
    if p.len() > 0 && has_suffix(s, p) {
        trim_end_str(s.take(s.len() - p.len()), p)
    } else {
        s
    }
}

/// Removing every trailing occurrence of `p` from `s`.
pub fn trim_end_matches_str(s: &str, p: &str) -> (r: String)
    requires
        p@.len() > 0,
    ensures
        r@ == trim_end_str(s@, p@),
{
    let sv = chars_of(s);
    let pv = chars_of(p);
    let mut end: usize = sv.len();
    assert(sv@.take(sv@.len() as int) =~= sv@);
    while end >= pv.len() && matches_at(&sv, end - pv.len(), &pv)
        invariant
            end <= sv@.len(),
            pv@.len() > 0,
            pv@ == p@,
            trim_end_str(sv@, pv@) == trim_end_str(sv@.take(end as int), pv@),
        decreases end,
    {
        let ghost t = sv@.take(end as int);
        assert(t.skip(t.len() - pv@.len()) =~= sv@.subrange(end - pv@.len(), end as int));
        assert(t.take(t.len() - pv@.len()) =~= sv@.take(end - pv@.len()));
        end = end - pv.len();
    }
    proof {
        let t = sv@.take(end as int);
        if end >= pv@.len() {
            assert(t.skip(t.len() - pv@.len()) =~= sv@.subrange(end - pv@.len(), end as int));
        }
    }
    let mut out: Vec<char> = Vec::new();
    let mut i: usize = 0;
    while i < end
        invariant
            0 <= i <= end,
            end <= sv@.len(),
            out@ == sv@.take(i as int),
        decreases end - i,
    {
        out.push(sv[i]);
        assert(sv@.take(i + 1) =~= sv@.take(i as int).push(sv@[i as int]));
        i = i + 1;
    }
    string_from_chars(out.as_slice())
}

/// Whether string `s` starts with the string `p`.
pub fn str_starts_with(s: &str, p: &str) -> (r: bool)
    ensures
        r == has_prefix(s@, p@),
{
    starts_with(&chars_of(s), &chars_of(p))
}

/// Whether string `s` ends with the string `p`.
pub fn str_ends_with(s: &str, p: &str) -> (r: bool)
    ensures
        r == has_suffix(s@, p@),
{
    ends_with(&chars_of(s), &chars_of(p))
}

/// What `str::strip_prefix(p).unwrap_or(s)` gives.
pub open spec fn strip_prefix_or_self(s: Seq<char>, p: Seq<char>) -> Seq<char> {
    if has_prefix(s, p) {
        s.skip(p.len() as int)
    } else {
        s
    }
}

/// `s` without the prefix `p`, or `s` itself where `p` is no prefix of it.
pub fn strip_prefix_or_keep(s: &str, p: &str) -> (r: String)
    ensures
        r@ == strip_prefix_or_self(s@, p@),
{
    let sv = chars_of(s);
    let pv = chars_of(p);
    if starts_with(&sv, &pv) {
        let mut out: Vec<char> = Vec::new();
        let mut i: usize = pv.len();
        while i < sv.len()
            invariant
                pv@.len() <= i <= sv@.len(),
                out@ == sv@.subrange(pv@.len() as int, i as int),
            decreases sv@.len() - i,
        {
            out.push(sv[i]);
            assert(sv@.subrange(pv@.len() as int, i + 1) =~= sv@.subrange(
                pv@.len() as int,
                i as int,
            ).push(sv@[i as int]));
            i = i + 1;
        }
        assert(out@ =~= sv@.skip(pv@.len() as int));
        string_from_chars(out.as_slice())
    } else {
        owned(s)
    }
}

/// Whether `p` occurs somewhere in `s`.
pub open spec fn contains_seq(s: Seq<char>, p: Seq<char>) -> bool {
    exists|i: int| 0 <= i <= s.len() - p.len() && #[trigger] s.subrange(i, i + p.len()) == p
}

/// Whether string `s` contains the string `p`.
pub fn str_contains(s: &str, p: &str) -> (r: bool)
    ensures
        r == contains_seq(s@, p@),
{
    let sv = chars_of(s);
    let pv = chars_of(p);
    if pv.len() > sv.len() {
        return false;
    }
    let limit: usize = sv.len() - pv.len();
    let mut i: usize = 0;
    loop
        invariant
            sv@ == s@,
            pv@ == p@,
            pv@.len() <= sv@.len(),
            limit == sv@.len() - pv@.len(),
            0 <= i <= limit,
            forall|j: int| 0 <= j < i ==> #[trigger] sv@.subrange(j, j + pv@.len()) != pv@,
        decreases limit - i,
    {
        if matches_at(&sv, i, &pv) {
            assert(sv@.subrange(i as int, i + pv@.len()) == pv@);
            assert(s@.subrange(i as int, i + p@.len()) == p@);
            assert(contains_seq(s@, p@));
            return true;
        }
        if i == limit {
            assert forall|j: int| 0 <= j <= s@.len() - p@.len() implies #[trigger] s@.subrange(
                j,
                j + p@.len(),
            ) != p@ by {
                assert(sv@.subrange(j, j + pv@.len()) != pv@);
            }
            return false;
        }
        i = i + 1;
    }
}

/// The characters of `s` between positions `from` and `to`.
pub fn slice_chars(s: &Vec<char>, from: usize, to: usize) -> (r: Vec<char>)
    requires
        from <= to <= s@.len(),
    ensures
        r@ == s@.subrange(from as int, to as int),
{
    let mut out: Vec<char> = Vec::new();
    let mut i: usize = from;
    while i < to
        invariant
            from <= i <= to,
            to <= s@.len(),
            out@ == s@.subrange(from as int, i as int),
        decreases to - i,
    {
        out.push(s[i]);
        assert(s@.subrange(from as int, i + 1) =~= s@.subrange(from as int, i as int).push(
            s@[i as int],
        ));
        i = i + 1;
    }
    out
}

// ---------------------------------------------------------------------------
// Case mapping
// ---------------------------------------------------------------------------

/// ASCII lower-casing of one character.
pub open spec fn ascii_lower(c: char) -> char {
    if 'A' <= c && c <= 'Z' {
        ((c as u32) + 32) as char
    } else {
        c
    }
}

/// ASCII lower-casing of a character sequence (what `to_ascii_lowercase` gives).
pub open spec fn ascii_lower_seq(s: Seq<char>) -> Seq<char> {
    s.map_values(|c: char| ascii_lower(c))
}

/// ASCII lower-casing of one character.
pub fn lower_char(c: char) -> (r: char)
    ensures
        r == ascii_lower(c),
{
    if 'A' <= c && c <= 'Z' {
        let u = (c as u32) + 32;
        assert(0x61 <= u <= 0x7a);
        char_from_ascii(u)
    } else {
        c
    }
}

/// The character with a given code point below 0x80.
fn char_from_ascii(u: u32) -> (r: char)
    requires
        u < 0x80,
    ensures
        r == u as char,
{
    let b: u8 = u as u8;
    b as char
}

/// The ASCII lower-case form of a string.
pub fn to_ascii_lower(s: &str) -> (r: String)
    ensures
        r@ == ascii_lower_seq(s@),
{
    let v = chars_of(s);
    let mut out: Vec<char> = Vec::new();
    let mut i: usize = 0;
    while i < v.len()
        invariant
            0 <= i <= v@.len(),
            out@ == ascii_lower_seq(v@.take(i as int)),
        decreases v@.len() - i,
    {
        let c = lower_char(v[i]);
        out.push(c);
        assert(ascii_lower_seq(v@.take(i + 1)) =~= ascii_lower_seq(v@.take(i as int)).push(c));
        i = i + 1;
    }
    assert(v@.take(v@.len() as int) =~= v@);
    string_from_chars(out.as_slice())
}

// What `str::to_lowercase` gives: full Unicode lower-casing.
pub uninterp spec fn spec_unicode_lowercase(s: Seq<char>) -> Seq<char>;

/// Wraps `str::to_lowercase`.  Its result is named by
/// `spec_unicode_lowercase`, a function of the input alone (the Unicode
/// case tables), which no clause here spells out.
#[verifier::external_body]
pub(crate) fn unicode_lowercase(s: &str) -> (r: String)
    ensures
        r@ == spec_unicode_lowercase(s@),
{
    s.to_lowercase()
}

// Upper-casing, what `str::to_uppercase` gives.
pub uninterp spec fn spec_unicode_uppercase(s: Seq<char>) -> Seq<char>;

/// Wraps `str::to_uppercase`.  Its result is named by
/// `spec_unicode_uppercase`, a function of the input alone.
#[verifier::external_body]
pub(crate) fn unicode_uppercase(s: &str) -> (r: String)
    ensures
        r@ == spec_unicode_uppercase(s@),
{
    s.to_uppercase()
}

// ---------------------------------------------------------------------------
// Decimal rendering
// ---------------------------------------------------------------------------

/// The decimal digit for `d < 10`.
pub open spec fn digit(d: nat) -> char {
    ('0' as u32 + d) as char
}

/// The decimal representation of `n`, without leading zeros.
pub open spec fn decimal(n: nat) -> Seq<char>
    decreases n,
{
    if n < 10 {
        seq![digit(n)]
    } else {
        decimal(n / 10).push(digit(n % 10))
    }
}

fn digit_char(d: u64) -> (r: char)
    requires
        d < 10,
    ensures
        r == digit(d as nat),
{
    char_from_ascii((0x30 + d) as u32)
}

fn push_decimal(out: &mut Vec<char>, n: u64)
    ensures
        final(out)@ == old(out)@ + decimal(n as nat),
    decreases n,
{
    if n < 10 {
        out.push(digit_char(n));
        assert(old(out)@.push(digit(n as nat)) =~= old(out)@ + decimal(n as nat));
    } else {
        push_decimal(out, n / 10);
        out.push(digit_char(n % 10));
        assert(old(out)@ + decimal((n / 10) as nat) + seq![digit((n % 10) as nat)] =~= old(out)@
            + decimal(n as nat));
    }
}

/// The decimal rendering of an unsigned integer (what its `Display` gives).
pub fn u64_to_decimal(n: u64) -> (r: String)
    ensures
        r@ == decimal(n as nat),
{
    let mut v: Vec<char> = Vec::new();
    push_decimal(&mut v, n);
    assert(v@ =~= decimal(n as nat));
    string_from_chars(v.as_slice())
}

// ---------------------------------------------------------------------------
// Replacing
// ---------------------------------------------------------------------------

/// What `str::replace(p, r)` gives for a non-empty pattern: each
/// non-overlapping occurrence of `p`, found from the left, becomes `r`.
pub open spec fn replace_all(s: Seq<char>, p: Seq<char>, r: Seq<char>) -> Seq<char>
    recommends
        p.len() > 0,
    decreases s.len(),
{
    if p.len() == 0 || s.len() < p.len() {
        s
    } else if s.take(p.len() as int) == p {
        r + replace_all(s.skip(p.len() as int), p, r)
    } else {
        seq![s[0]] + replace_all(s.drop_first(), p, r)
    }
}

/// Every occurrence of the non-empty pattern `p` in `s`, from the left, replaced by `r`.
pub fn replace_str(s: &str, p: &str, r: &str) -> (out: String)
    requires
        p@.len() > 0,
    ensures
        out@ == replace_all(s@, p@, r@),
{
    let sv = chars_of(s);
    let pv = chars_of(p);
    let rv = chars_of(r);
    let mut out: Vec<char> = Vec::new();
    let mut i: usize = 0;
    assert(sv@.skip(0) =~= sv@);
    assert(out@ + replace_all(sv@, pv@, rv@) =~= replace_all(sv@, pv@, rv@));
    while i < sv.len()
        invariant
            0 <= i <= sv@.len(),
            pv@.len() > 0,
            out@ + replace_all(sv@.skip(i as int), pv@, rv@) == replace_all(sv@, pv@, rv@),
        decreases sv@.len() - i,
    {
        let ghost rest = sv@.skip(i as int);
        if pv.len() <= sv.len() - i && matches_at(&sv, i, &pv) {
            assert(rest.take(pv@.len() as int) =~= sv@.subrange(i as int, i + pv@.len()));
            assert(rest.skip(pv@.len() as int) =~= sv@.skip(i + pv@.len()));
            push_all(&mut out, &rv);
            i = i + pv.len();
            assert(out@ + replace_all(sv@.skip(i as int), pv@, rv@) =~= old_out_plus(
                out@,
                rv@,
                replace_all(sv@.skip(i as int), pv@, rv@),
            ));
        } else {
            proof {
                if rest.len() >= pv@.len() {
                    assert(rest.take(pv@.len() as int) =~= sv@.subrange(i as int, i + pv@.len()));
                }
            }
            assert(rest.drop_first() =~= sv@.skip(i + 1));
            out.push(sv[i]);
            i = i + 1;
            assert(seq![sv@[i - 1]] + replace_all(sv@.skip(i as int), pv@, rv@) == replace_all(
                rest,
                pv@,
                rv@,
            ));
            assert(out@ + replace_all(sv@.skip(i as int), pv@, rv@) =~= out@.drop_last() + (seq![
                sv@[i - 1],
            ] + replace_all(sv@.skip(i as int), pv@, rv@)));
        }
    }
    assert(sv@.skip(sv@.len() as int) =~= Seq::<char>::empty());
    assert(out@ + Seq::<char>::empty() =~= out@);
    string_from_chars(out.as_slice())
}

spec fn old_out_plus(o: Seq<char>, r: Seq<char>, tail: Seq<char>) -> Seq<char> {
    o + tail
}

// ---------------------------------------------------------------------------
// Splitting
// ---------------------------------------------------------------------------

/// The length of the leading run of non-whitespace characters of `s`.
pub open spec fn word_len(s: Seq<char>) -> nat
    decreases s.len(),
{
    if s.len() == 0 || is_ws(s[0]) {
        0
    } else {
        1 + word_len(s.drop_first())
    }
}

/// The whitespace-separated words of `s` (what `str::split_whitespace` yields).
pub open spec fn words(s: Seq<char>) -> Seq<Seq<char>>
    decreases s.len(),
{
    let t = trim_start(s);
    if t.len() == 0 {
        seq![]
    } else {
        let w = word_len(t);
        if w == 0 || w > t.len() || t.len() > s.len() {
            seq![]
        } else {
            seq![t.take(w as int)] + words(t.skip(w as int))
        }
    }
}

proof fn lemma_word_len(s: Seq<char>)
    ensures
        word_len(s) <= s.len(),
        forall|j: int| 0 <= j < word_len(s) ==> !is_ws(#[trigger] s[j]),
        word_len(s) < s.len() ==> is_ws(s[word_len(s) as int]),
    decreases s.len(),
{
    if s.len() == 0 || is_ws(s[0]) {
    } else {
        lemma_word_len(s.drop_first());
        assert forall|j: int| 0 <= j < word_len(s) implies !is_ws(#[trigger] s[j]) by {
            if j > 0 {
                assert(s[j] == s.drop_first()[j - 1]);
            }
        }
    }
}

proof fn lemma_word_len_take(s: Seq<char>, k: int)
    requires
        0 <= k <= s.len(),
        forall|j: int| 0 <= j < k ==> !is_ws(#[trigger] s[j]),
        k == s.len() || is_ws(s[k]),
    ensures
        word_len(s) == k,
    decreases k,
{
    if k > 0 {
        lemma_word_len_take(s.drop_first(), k - 1);
    }
}

proof fn lemma_words_tail_blank(v: Seq<char>, i: int)
    requires
        0 <= i <= v.len(),
        forall|m: int| i <= m < v.len() ==> is_ws(#[trigger] v[m]),
    ensures
        words(v.skip(i)) == Seq::<Seq<char>>::empty(),
{
    let rest = v.skip(i);
    assert forall|m: int| 0 <= m < rest.len() implies is_ws(#[trigger] rest[m]) by {
        assert(rest[m] == v[m + i]);
    }
    lemma_trim_start_skip(rest, rest.len() as int);
    assert(rest.skip(rest.len() as int) =~= Seq::<char>::empty());
    assert(trim_start(Seq::<char>::empty()) == Seq::<char>::empty());
}

proof fn lemma_words_step(v: Seq<char>, i: int, j: int, k: int)
    requires
        0 <= i <= j < k <= v.len(),
        forall|m: int| i <= m < j ==> is_ws(#[trigger] v[m]),
        forall|m: int| j <= m < k ==> !is_ws(#[trigger] v[m]),
        k == v.len() || is_ws(v[k]),
    ensures
        words(v.skip(i)) == seq![v.subrange(j, k)] + words(v.skip(k)),
{
    let rest = v.skip(i);
    assert forall|m: int| 0 <= m < j - i implies is_ws(#[trigger] rest[m]) by {
        assert(rest[m] == v[m + i]);
    }
    lemma_trim_start_skip(rest, j - i);
    let t = v.skip(j);
    assert(rest.skip(j - i) =~= t);
    assert(!is_ws(t[0]));
    assert(trim_start(t) == t);
    assert forall|m: int| 0 <= m < k - j implies !is_ws(#[trigger] t[m]) by {
        assert(t[m] == v[m + j]);
    }
    if k < v.len() {
        assert(t[k - j] == v[k]);
    }
    lemma_word_len_take(t, k - j);
    assert(t.take(k - j) =~= v.subrange(j, k));
    assert(t.skip(k - j) =~= v.skip(k));
}

/// The whitespace-separated words of a string.
pub fn split_whitespace(s: &str) -> (r: Vec<String>)
    ensures
        views(r@) == words(s@),
{
    let v = chars_of(s);
    let mut out: Vec<String> = Vec::new();
    let mut i: usize = 0;
    assert(v@.skip(0) =~= v@);
    assert(views(out@) + words(v@) =~= words(v@));
    while i < v.len()
        invariant
            0 <= i <= v@.len(),
            views(out@) + words(v@.skip(i as int)) == words(v@),
        decreases v@.len() - i,
    {
        let mut j: usize = i;
        while j < v.len() && is_whitespace(v[j])
            invariant
                i <= j <= v@.len(),
                forall|m: int| i <= m < j ==> is_ws(#[trigger] v@[m]),
            decreases v@.len() - j,
        {
            j = j + 1;
        }
        if j == v.len() {
            proof {
                lemma_words_tail_blank(v@, i as int);
                assert(v@.skip(j as int) =~= Seq::<char>::empty());
                lemma_words_tail_blank(v@, j as int);
                assert(views(out@) + Seq::<Seq<char>>::empty() =~= views(out@));
            }
            i = j;
        } else {
            let mut k: usize = j;
            while k < v.len() && !is_whitespace(v[k])
                invariant
                    j <= k <= v@.len(),
                    forall|m: int| j <= m < k ==> !is_ws(#[trigger] v@[m]),
                decreases v@.len() - k,
            {
                k = k + 1;
            }
            let word = slice_chars(&v, j, k);
            proof {
                lemma_words_step(v@, i as int, j as int, k as int);
            }
            let ghost before = views(out@);
            let ws = string_from_chars(word.as_slice());
            out.push(ws);
            proof {
                assert(views(out@) =~= before.push(word@));
                assert(views(out@) + words(v@.skip(k as int)) =~= before + (seq![word@] + words(
                    v@.skip(k as int),
                )));
            }
            i = k;
        }
    }
    proof {
        assert(v@.skip(i as int) =~= Seq::<char>::empty());
        lemma_words_tail_blank(v@, i as int);
        assert(views(out@) + Seq::<Seq<char>>::empty() =~= views(out@));
    }
    out
}

// ---------------------------------------------------------------------------
// Joining and splitting on a separator
// ---------------------------------------------------------------------------

/// The parts joined with `sep` between consecutive parts (what `[String]::join` gives).
pub open spec fn join(parts: Seq<Seq<char>>, sep: Seq<char>) -> Seq<char>
    decreases parts.len(),
{
    if parts.len() == 0 {
        seq![]
    } else if parts.len() == 1 {
        parts[0]
    } else {
        join(parts.drop_last(), sep) + sep + parts.last()
    }
}

/// Each part stands whole in the joined text: the text is some prefix, the
/// part, and some suffix.
pub proof fn lemma_join_has_part(parts: Seq<Seq<char>>, sep: Seq<char>, i: int) -> (r: (Seq<char>, Seq<char>))
    requires
        0 <= i < parts.len(),
    ensures
        join(parts, sep) == r.0 + parts[i] + r.1,
    decreases parts.len(),
{
    if parts.len() == 1 {
        assert(join(parts, sep) =~= Seq::<char>::empty() + parts[i] + Seq::<char>::empty());
        (Seq::<char>::empty(), Seq::<char>::empty())
    } else if i == parts.len() - 1 {
        let pre = join(parts.drop_last(), sep) + sep;
        assert(join(parts, sep) =~= pre + parts[i] + Seq::<char>::empty());
        (pre, Seq::<char>::empty())
    } else {
        let (pre, post) = lemma_join_has_part(parts.drop_last(), sep, i);
        assert(parts.drop_last()[i] == parts[i]);
        let post2 = post + sep + parts.last();
        assert(join(parts, sep) =~= pre + parts[i] + post2);
        (pre, post2)
    }
}

/// A text holds the part that stands between its prefix and suffix.
pub proof fn lemma_contains_middle(pre: Seq<char>, x: Seq<char>, post: Seq<char>)
    ensures
        contains_seq(pre + x + post, x),
{
    let s = pre + x + post;
    assert(s.subrange(pre.len() as int, (pre.len() + x.len()) as int) =~= x);
}

/// The strings joined with `sep` between consecutive ones.
pub fn join_strings(parts: &Vec<String>, sep: &str) -> (r: String)
    ensures
        r@ == join(views(parts@), sep@),
{
    let mut out: Vec<char> = Vec::new();
    let mut i: usize = 0;
    while i < parts.len()
        invariant
            0 <= i <= parts@.len(),
            out@ == join(views(parts@).take(i as int), sep@),
        decreases parts@.len() - i,
    {
        let ghost pre = views(parts@).take(i as int);
        assert(views(parts@).take(i + 1).drop_last() =~= pre);
        assert(views(parts@).take(i + 1).last() == parts@[i as int]@);
        if i > 0 {
            push_str(&mut out, sep);
        } else {
            assert(pre =~= Seq::<Seq<char>>::empty());
        }
        push_str(&mut out, parts[i].as_str());
        proof {
            if i == 0 {
                assert(views(parts@).take(1)[0] == parts@[0]@);
                assert(out@ =~= parts@[0]@);
            }
        }
        i = i + 1;
    }
    assert(views(parts@).take(parts@.len() as int) =~= views(parts@));
    string_from_chars(out.as_slice())
}

/// The pieces of `s` between occurrences of `c` (what `str::split(c)` yields).
pub open spec fn split_char(s: Seq<char>, c: char) -> Seq<Seq<char>>
    decreases s.len(),
{
    if s.len() == 0 {
        seq![seq![]]
    } else {
        let rest = split_char(s.drop_last(), c);
        if s.last() == c {
            rest.push(seq![])
        } else {
            rest.update(rest.len() - 1, rest.last().push(s.last()))
        }
    }
}

proof fn lemma_split_char_nonempty(s: Seq<char>, c: char)
    ensures
        split_char(s, c).len() >= 1,
    decreases s.len(),
{
    if s.len() > 0 {
        lemma_split_char_nonempty(s.drop_last(), c);
    }
}

/// The pieces of a string between occurrences of `c`.
pub fn split_on_char(s: &str, c: char) -> (r: Vec<String>)
    ensures
        views(r@) == split_char(s@, c),
{
    let v = chars_of(s);
    let mut done: Vec<String> = Vec::new();
    let mut cur: Vec<char> = Vec::new();
    let mut i: usize = 0;
    assert(v@.take(0) =~= Seq::<char>::empty());
    while i < v.len()
        invariant
            0 <= i <= v@.len(),
            views(done@).push(cur@) == split_char(v@.take(i as int), c),
        decreases v@.len() - i,
    {
        let ghost pre = v@.take(i as int);
        assert(v@.take(i + 1).drop_last() =~= pre);
        proof {
            lemma_split_char_nonempty(pre, c);
        }
        if v[i] == c {
            let piece = string_from_chars(cur.as_slice());
            let ghost old_done = views(done@);
            done.push(piece);
            cur = Vec::new();
            assert(views(done@) =~= old_done.push(piece@));
            assert(views(done@).push(cur@) =~= split_char(v@.take(i + 1), c));
        } else {
            let ghost old_cur = cur@;
            cur.push(v[i]);
            assert(views(done@).push(cur@) =~= split_char(v@.take(i + 1), c));
        }
        i = i + 1;
    }
    assert(v@.take(v@.len() as int) =~= v@);
    let last = string_from_chars(cur.as_slice());
    let ghost old_done = views(done@);
    done.push(last);
    assert(views(done@) =~= old_done.push(last@));
    done
}

} // verus!
