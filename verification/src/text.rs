//! Character-level text operations shared by the codecs and the line formats.
//!
//! Every operation is stated over `Seq<char>`: the characters of a `str` or a
//! `String`. The executable forms work on character vectors.
use vstd::prelude::*;
use vstd::utf8::{decode_utf8, valid_utf8};

verus! {

/// `String::push`: appends one character to the end of the string.
pub assume_specification[ std::string::String::push ](s: &mut std::string::String, ch: char)
    ensures
        final(s)@ == old(s)@.push(ch),
;

/// The text that a byte sequence decodes to when every ill-formed part of it is
/// replaced by U+FFFD.
pub uninterp spec fn utf8_lossy(bytes: Seq<u8>) -> Seq<char>;

/// `String::from_utf8_lossy`: decodes bytes as UTF-8, replacing what is not
/// UTF-8. On well-formed UTF-8 nothing is replaced, so the text is exactly what
/// the bytes encode.
#[verifier::external_body]
pub(crate) fn decode_lossy(bytes: &[u8]) -> (text: String)
    ensures
        text@ == utf8_lossy(bytes@),
        valid_utf8(bytes@) ==> text@ == decode_utf8(bytes@),
{
    String::from_utf8_lossy(bytes).into_owned()
}

// ── Letter case ─────────────────────────────────────────────────────────────

/// The ASCII lower-case form of `c`; any other character is itself.
pub open spec fn lower_char(c: char) -> char {
    if 'A' <= c && c <= 'Z' {
        ((c as u32) + 32) as char
    } else {
        c
    }
}

/// `s` with each ASCII capital replaced by its small letter.
pub open spec fn lower(s: Seq<char>) -> Seq<char> {
    s.map_values(|c: char| lower_char(c))
}

/// Whether two texts differ at most in the case of ASCII letters.
pub open spec fn same_ignoring_case(a: Seq<char>, b: Seq<char>) -> bool {
    lower(a) == lower(b)
}

/// ASCII lower case of one character.
pub fn to_lower(c: char) -> (r: char)
    ensures
        r == lower_char(c),
{
    if 'A' <= c && c <= 'Z' {
        ((c as u8) + 32) as char
    } else {
        c
    }
}

/// The characters of a string slice.
pub fn chars_of(s: &str) -> (out: Vec<char>)
    ensures
        out@ == s@,
{
    let mut out: Vec<char> = Vec::new();
    for c in it: s.chars()
        invariant
            out@ == it.seq().take(it.index()),
            it.seq() == s@,
    {
        out.push(c);
    }
    out
}

/// The string made of the given characters.
pub fn text_of(chars: &[char]) -> (s: String)
    ensures
        s@ == chars@,
{
    let mut s = String::new();
    let mut i: usize = 0;
    while i < chars.len()
        invariant
            i <= chars.len(),
            s@ == chars@.take(i as int),
        decreases chars.len() - i,
    {
        s.push(chars[i]);
        i += 1;
    }
    assert(chars@.take(chars@.len() as int) =~= chars@);
    s
}

/// The ASCII lower-case form of a text, as characters.
pub fn lower_chars(s: &str) -> (out: Vec<char>)
    ensures
        out@ == lower(s@),
{
    let chars = chars_of(s);
    let mut out: Vec<char> = Vec::new();
    let mut i: usize = 0;
    while i < chars.len()
        invariant
            i <= chars.len(),
            chars@ == s@,
            out@ == lower(s@).take(i as int),
        decreases chars.len() - i,
    {
        out.push(to_lower(chars[i]));
        i += 1;
    }
    assert(lower(s@).take(s@.len() as int) =~= lower(s@));
    out
}

/// Whether two character slices are equal.
pub fn chars_eq(a: &[char], b: &[char]) -> (r: bool)
    ensures
        r == (a@ == b@),
{
    if a.len() != b.len() {
        return false;
    }
    let mut i: usize = 0;
    while i < a.len()
        invariant
            i <= a.len(),
            a.len() == b.len(),
            forall|j: int| 0 <= j < i ==> a@[j] == b@[j],
        decreases a.len() - i,
    {
        if a[i] != b[i] {
            return false;
        }
        i += 1;
    }
    assert(a@ =~= b@);
    true
}

/// Whether two string slices hold the same characters.
pub fn str_eq(a: &str, b: &str) -> (r: bool)
    ensures
        r == (a@ == b@),
{
    chars_eq(chars_of(a).as_slice(), chars_of(b).as_slice())
}

/// ASCII case-insensitive equality of two texts.
pub fn eq_ignoring_case(a: &str, b: &str) -> (r: bool)
    ensures
        r == same_ignoring_case(a@, b@),
{
    chars_eq(lower_chars(a).as_slice(), lower_chars(b).as_slice())
}

// ── Searching and cutting ───────────────────────────────────────────────────

/// The index of the first `c` in `s`, or the length of `s` where there is none.
pub open spec fn find(s: Seq<char>, c: char) -> nat
    decreases s.len(),
{
    if s.len() == 0 {
        0
    } else if s[0] == c {
        0
    } else {
        1 + find(s.drop_first(), c)
    }
}

/// `find` is determined by its first occurrence.
pub proof fn lemma_find(s: Seq<char>, c: char, k: int)
    requires
        0 <= k <= s.len(),
        forall|i: int| 0 <= i < k ==> s[i] != c,
        k < s.len() ==> s[k] == c,
    ensures
        find(s, c) == k,
    decreases s.len(),
{
    if s.len() > 0 && k > 0 {
        lemma_find(s.drop_first(), c, k - 1);
    }
}

/// The pieces of `s` between the occurrences of `c`; a text without `c` is its
/// own single piece.
pub open spec fn split(s: Seq<char>, c: char) -> Seq<Seq<char>>
    decreases s.len(),
{
    let k = find(s, c) as int;
    if k >= s.len() {
        seq![s]
    } else {
        seq![s.take(k)] + split(s.skip(k + 1), c)
    }
}

/// `s` cut at its first `c`, without that `c`; nothing where there is none.
pub open spec fn split_once(s: Seq<char>, c: char) -> Option<(Seq<char>, Seq<char>)> {
    let k = find(s, c) as int;
    if k >= s.len() {
        None
    } else {
        Some((s.take(k), s.skip(k + 1)))
    }
}

/// Whether `s` ends in `suffix`.
pub open spec fn ends_in(s: Seq<char>, suffix: Seq<char>) -> bool {
    suffix.len() <= s.len() && s.skip(s.len() - suffix.len()) == suffix
}

/// The Unicode white space characters.
pub open spec fn is_white(c: char) -> bool {
    ||| 0x9 <= c as u32 <= 0xd
    ||| c as u32 == 0x20
    ||| c as u32 == 0x85
    ||| c as u32 == 0xa0
    ||| c as u32 == 0x1680
    ||| 0x2000 <= c as u32 <= 0x200a
    ||| c as u32 == 0x2028
    ||| c as u32 == 0x2029
    ||| c as u32 == 0x202f
    ||| c as u32 == 0x205f
    ||| c as u32 == 0x3000
}

/// `s` without the white space at its start.
pub open spec fn trim_start(s: Seq<char>) -> Seq<char>
    decreases s.len(),
{
    if s.len() > 0 && is_white(s[0]) {
        trim_start(s.drop_first())
    } else {
        s
    }
}

/// `s` without the white space at its end.
pub open spec fn trim_end(s: Seq<char>) -> Seq<char>
    decreases s.len(),
{
    if s.len() > 0 && is_white(s.last()) {
        trim_end(s.drop_last())
    } else {
        s
    }
}

/// `s` without the white space at either end.
pub open spec fn trim(s: Seq<char>) -> Seq<char> {
    trim_end(trim_start(s))
}

/// Whether `c` is Unicode white space.
pub fn is_white_char(c: char) -> (r: bool)
    ensures
        r == is_white(c),
{
    let n: u32 = c as u32;
    (0x9 <= n && n <= 0xd) || n == 0x20 || n == 0x85 || n == 0xa0 || n == 0x1680 || (0x2000 <= n
        && n <= 0x200a) || n == 0x2028 || n == 0x2029 || n == 0x202f || n == 0x205f || n == 0x3000
}

/// A copy of the characters from `from` up to, not including, `to`.
pub fn slice_chars(v: &[char], from: usize, to: usize) -> (out: Vec<char>)
    requires
        from <= to <= v.len(),
    ensures
        out@ == v@.subrange(from as int, to as int),
{
    let mut out: Vec<char> = Vec::new();
    let mut i: usize = from;
    while i < to
        invariant
            from <= i <= to <= v.len(),
            out@ == v@.subrange(from as int, i as int),
        decreases to - i,
    {
        out.push(v[i]);
        i += 1;
    }
    out
}

/// The index of the first `c` at or after `from`, or the length.
pub fn find_from(v: &[char], c: char, from: usize) -> (k: usize)
    requires
        from <= v.len(),
    ensures
        from <= k <= v.len(),
        k == from + find(v@.skip(from as int), c),
{
    let mut k: usize = from;
    while k < v.len() && v[k] != c
        invariant
            from <= k <= v.len(),
            forall|i: int| from <= i < k ==> v@[i] != c,
        decreases v.len() - k,
    {
        k += 1;
    }
    proof {
        let rest = v@.skip(from as int);
        assert forall|i: int| 0 <= i < k - from implies rest[i] != c by {
            assert(rest[i] == v@[from + i]);
        }
        lemma_find(rest, c, k - from);
    }
    k
}

/// The views of a vector of character vectors.
pub open spec fn views(v: Seq<Vec<char>>) -> Seq<Seq<char>> {
    v.map_values(|p: Vec<char>| p@)
}

/// Cuts a text at every `c`.
pub fn split_chars(v: &[char], c: char) -> (out: Vec<Vec<char>>)
    ensures
        views(out@) == split(v@, c),
        out.len() > 0,
{
    let mut out: Vec<Vec<char>> = Vec::new();
    let mut from: usize = 0;
    let mut k: usize = find_from(v, c, 0);
    assert(v@.skip(0) =~= v@);
    assert(views(out@) =~= Seq::<Seq<char>>::empty());
    assert(views(out@) + split(v@, c) =~= split(v@, c));
    while k < v.len()
        invariant
            from <= k <= v.len(),
            k == from + find(v@.skip(from as int), c),
            views(out@) + split(v@.skip(from as int), c) == split(v@, c),
        decreases v.len() - from,
    {
        let ghost rest = v@.skip(from as int);
        let ghost before = views(out@);
        let piece = slice_chars(v, from, k);
        proof {
            assert(piece@ =~= rest.take(k - from));
            assert(rest.skip(k - from + 1) =~= v@.skip(k + 1));
        }
        out.push(piece);
        proof {
            assert(views(out@) =~= before.push(piece@));
            assert(split(rest, c) == seq![piece@] + split(v@.skip(k + 1), c));
            assert(before + (seq![piece@] + split(v@.skip(k + 1), c)) =~= before.push(piece@)
                + split(v@.skip(k + 1), c));
        }
        from = k + 1;
        k = find_from(v, c, from);
    }
    let ghost before = views(out@);
    let last = slice_chars(v, from, v.len());
    assert(last@ =~= v@.skip(from as int));
    out.push(last);
    proof {
        assert(views(out@) =~= before.push(last@));
        assert(split(last@, c) == seq![last@]);
        assert(before + seq![last@] =~= before.push(last@));
    }
    out
}

/// Cuts a text at its first `c`.
pub fn split_once_chars(v: &[char], c: char) -> (out: Option<(Vec<char>, Vec<char>)>)
    ensures
        match out {
            Some((a, b)) => split_once(v@, c) == Some((a@, b@)),
            None => split_once(v@, c) is None,
        },
{
    let k: usize = find_from(v, c, 0);
    assert(v@.skip(0) =~= v@);
    if k >= v.len() {
        None
    } else {
        let a = slice_chars(v, 0, k);
        let b = slice_chars(v, k + 1, v.len());
        assert(a@ =~= v@.take(k as int));
        assert(b@ =~= v@.skip(k + 1));
        Some((a, b))
    }
}

/// Drops the white space at the start of a text.
pub fn trim_start_chars(v: &[char]) -> (out: Vec<char>)
    ensures
        out@ == trim_start(v@),
{
    let mut i: usize = 0;
    assert(v@.skip(0) =~= v@);
    while i < v.len() && is_white_char(v[i])
        invariant
            i <= v.len(),
            trim_start(v@.skip(i as int)) == trim_start(v@),
        decreases v.len() - i,
    {
        assert(v@.skip(i as int).drop_first() =~= v@.skip(i + 1));
        i += 1;
    }
    let out = slice_chars(v, i, v.len());
    assert(out@ =~= v@.skip(i as int));
    out
}

/// Drops the white space at both ends of a text.
pub fn trim_chars(v: &[char]) -> (out: Vec<char>)
    ensures
        out@ == trim(v@),
{
    let mut out = trim_start_chars(v);
    while out.len() > 0 && is_white_char(out[out.len() - 1])
        invariant
            trim_end(out@) == trim(v@),
        decreases out.len(),
    {
        assert(out@.drop_last() =~= out@.take(out@.len() - 1));
        out.truncate(out.len() - 1);
    }
    out
}

/// Whether a text ends in another.
pub fn chars_end_in(v: &[char], suffix: &[char]) -> (r: bool)
    ensures
        r == ends_in(v@, suffix@),
{
    if suffix.len() > v.len() {
        return false;
    }
    let tail = slice_chars(v, v.len() - suffix.len(), v.len());
    assert(tail@ =~= v@.skip(v@.len() - suffix@.len()));
    chars_eq(tail.as_slice(), suffix)
}

// ── Laws ────────────────────────────────────────────────────────────────────

/// Two texts are the same but for case exactly where they have the same length and
/// each two characters are equal or the two cases of one ASCII letter.
pub proof fn law_case_is_that_of_ascii_letters(a: Seq<char>, b: Seq<char>)
    ensures
        same_ignoring_case(a, b) <==> a.len() == b.len() && (forall|i: int|
            0 <= i < a.len() ==> (#[trigger] a[i] == b[i] || ('A' <= a[i] && a[i] <= 'Z'
                && b[i] as int == a[i] as int + 32) || ('A' <= b[i] && b[i] <= 'Z' && a[i] as int
                == b[i] as int + 32))),
{
    let (x, y) = (lower(a), lower(b));
    if x == y {
        assert(a.len() == x.len() && b.len() == y.len());
        assert forall|i: int| 0 <= i < a.len() implies (#[trigger] a[i] == b[i] || ('A' <= a[i]
            && a[i] <= 'Z' && b[i] as int == a[i] as int + 32) || ('A' <= b[i] && b[i] <= 'Z'
            && a[i] as int == b[i] as int + 32)) by {
            assert(x[i] == lower_char(a[i]) && y[i] == lower_char(b[i]));
        }
    }
    if a.len() == b.len() && (forall|i: int|
        0 <= i < a.len() ==> (#[trigger] a[i] == b[i] || ('A' <= a[i] && a[i] <= 'Z' && b[i] as int
            == a[i] as int + 32) || ('A' <= b[i] && b[i] <= 'Z' && a[i] as int == b[i] as int
            + 32))) {
        assert forall|i: int| 0 <= i < a.len() implies x[i] == y[i] by {
            assert(a[i] == b[i] || ('A' <= a[i] && a[i] <= 'Z' && b[i] as int == a[i] as int + 32)
                || ('A' <= b[i] && b[i] <= 'Z' && a[i] as int == b[i] as int + 32));
        }
        assert(x =~= y);
    }
}

/// Trimming takes white space off the ends and nothing else: what is left neither
/// starts nor ends with it, and what was taken off is white space.
pub proof fn law_trim_takes_white_space_only(s: Seq<char>) -> (r: (int, int))
    ensures
        0 <= r.0 <= r.1 <= s.len(),
        trim(s) == s.subrange(r.0, r.1),
        forall|i: int| 0 <= i < r.0 ==> is_white(#[trigger] s[i]),
        forall|i: int| r.1 <= i < s.len() ==> is_white(#[trigger] s[i]),
        r.0 < r.1 ==> !is_white(s[r.0]) && !is_white(s[r.1 - 1]),
{
    let k = lemma_trim_start(s);
    let t = trim_start(s);
    let n = lemma_trim_end(t);
    assert(t.take(n) =~= s.subrange(k, k + n));
    assert forall|i: int| k + n <= i < s.len() implies is_white(#[trigger] s[i]) by {
        assert(t[i - k] == s[i]);
    }
    if n > 0 {
        assert(t[0] == s[k]);
        assert(t[n - 1] == s[k + n - 1]);
    }
    (k, k + n)
}

proof fn lemma_trim_start(s: Seq<char>) -> (k: int)
    ensures
        0 <= k <= s.len(),
        trim_start(s) == s.skip(k),
        forall|i: int| 0 <= i < k ==> is_white(#[trigger] s[i]),
        k < s.len() ==> !is_white(s[k]),
    decreases s.len(),
{
    if s.len() > 0 && is_white(s[0]) {
        let t = s.drop_first();
        let k = lemma_trim_start(t);
        assert(t.skip(k) =~= s.skip(k + 1));
        assert forall|i: int| 0 <= i < k + 1 implies is_white(#[trigger] s[i]) by {
            if i > 0 {
                assert(t[i - 1] == s[i]);
            }
        }
        if k < t.len() {
            assert(t[k] == s[k + 1]);
        }
        k + 1
    } else {
        assert(s.skip(0) =~= s);
        0
    }
}

proof fn lemma_trim_end(s: Seq<char>) -> (n: int)
    ensures
        0 <= n <= s.len(),
        trim_end(s) == s.take(n),
        forall|i: int| n <= i < s.len() ==> is_white(#[trigger] s[i]),
        n > 0 ==> !is_white(s[n - 1]),
    decreases s.len(),
{
    if s.len() > 0 && is_white(s.last()) {
        let t = s.drop_last();
        let n = lemma_trim_end(t);
        assert(t.take(n) =~= s.take(n));
        assert forall|i: int| n <= i < s.len() implies is_white(#[trigger] s[i]) by {
            if i < t.len() {
                assert(t[i] == s[i]);
            }
        }
        n
    } else {
        assert(s.take(s.len() as int) =~= s);
        s.len() as int
    }
}

/// A text is cut at each separator and nowhere else: a piece without the separator
/// before a cut comes first, and what stands behind the cut is cut in turn.
pub proof fn law_split_cuts_at_the_separator(a: Seq<char>, b: Seq<char>, c: char)
    requires
        forall|i: int| 0 <= i < a.len() ==> #[trigger] a[i] != c,
    ensures
        split(a, c) == seq![a],
        split(a + seq![c] + b, c) == seq![a] + split(b, c),
        split_once(a, c) is None,
        split_once(a + seq![c] + b, c) == Some((a, b)),
        find(a, c) == a.len(),
        find(a + seq![c] + b, c) == a.len(),
{
    let s = a + seq![c] + b;
    let k = a.len() as int;
    assert forall|i: int| 0 <= i < k implies s[i] != c by {
        assert(s[i] == a[i]);
    }
    lemma_find(a, c, k);
    lemma_find(s, c, k);
    assert(s.take(k) =~= a);
    assert(s.skip(k + 1) =~= b);
}

} // verus!
