//! Text utilities shared by the analysers: character sequences, substring
//! search and order-preserving de-duplication.
use vstd::prelude::*;

verus! {

/// `needle` occurs in `hay` starting at position `i`.
pub open spec fn occurs_at<T>(hay: Seq<T>, needle: Seq<T>, i: int) -> bool {
    &&& 0 <= i
    &&& i + needle.len() <= hay.len()
    &&& hay.subrange(i, i + needle.len()) =~= needle
}

/// `needle` occurs somewhere in `hay` (the empty needle occurs everywhere).
pub open spec fn contains_seq<T>(hay: Seq<T>, needle: Seq<T>) -> bool {
    exists|i: int| occurs_at(hay, needle, i)
}

/// The characters of a string slice, as a vector.
pub fn chars_of(s: &str) -> (v: Vec<char>)
    ensures
        v@ == s@,
{
    let mut v: Vec<char> = Vec::new();
    for c in it: s.chars()
        invariant
            v@ == it.seq().take(it.index() as int),
            it.seq() == s@,
    {
        v.push(c);
    }
    v
}

} // verus!

verus! {

/// Whether `needle` occurs in `hay` at position `i`, checked character by character.
pub fn occurs_at_chars(hay: &Vec<char>, needle: &Vec<char>, i: usize) -> (b: bool)
    ensures
        b == occurs_at(hay@, needle@, i as int),
{
    if i > hay.len() || needle.len() > hay.len() - i {
        return false;
    }
    let mut j: usize = 0;
    while j < needle.len()
        invariant
            i + needle.len() <= hay.len(),
            j <= needle.len(),
            forall|k: int| 0 <= k < j ==> hay@[i + k] == needle@[k],
        decreases needle.len() - j,
    {
        if hay[i + j] != needle[j] {
            assert(hay@.subrange(i as int, i + needle.len())[j as int] != needle@[j as int]);
            return false;
        }
        j = j + 1;
    }
    assert(hay@.subrange(i as int, i + needle.len()) =~= needle@);
    true
}

/// Whether `needle` occurs anywhere in `hay`.
pub fn contains_chars(hay: &Vec<char>, needle: &Vec<char>) -> (b: bool)
    ensures
        b == contains_seq(hay@, needle@),
{
    if needle.len() > hay.len() {
        assert forall|i: int| !occurs_at(hay@, needle@, i) by {}
        return false;
    }
    let last: usize = hay.len() - needle.len();
    let mut i: usize = 0;
    while i <= last
        invariant
            last == hay.len() - needle.len(),
            needle.len() <= hay.len(),
            i <= last + 1,
            forall|k: int| 0 <= k < i ==> !occurs_at(hay@, needle@, k),
        decreases last + 1 - i,
    {
        if occurs_at_chars(hay, needle, i) {
            return true;
        }
        i = i + 1;
    }
    assert forall|k: int| !occurs_at(hay@, needle@, k) by {
        if 0 <= k && k + needle.len() <= hay.len() {
            assert(k < i);
        }
    }
    false
}

/// Whether the text of `needle` occurs in the text of `hay`.
pub fn str_contains(hay: &str, needle: &str) -> (b: bool)
    ensures
        b == contains_seq(hay@, needle@),
{
    let h = chars_of(hay);
    let n = chars_of(needle);
    contains_chars(&h, &n)
}

/// The elements of `s` in order of first occurrence, each kept once.
pub open spec fn dedup<T>(s: Seq<T>) -> Seq<T>
    decreases s.len(),
{
    if s.len() == 0 {
        Seq::empty()
    } else {
        let d = dedup(s.drop_last());
        if d.contains(s.last()) {
            d
        } else {
            d.push(s.last())
        }
    }
}

/// A sequence in which no element occurs twice.
pub open spec fn no_duplicates<T>(s: Seq<T>) -> bool {
    forall|i: int, j: int| 0 <= i < s.len() && 0 <= j < s.len() && i != j ==> s[i] != s[j]
}

/// De-duplication keeps exactly the elements of its input, each once.
pub proof fn lemma_dedup<T>(s: Seq<T>)
    ensures
        no_duplicates(dedup(s)),
        forall|x: T| dedup(s).contains(x) <==> s.contains(x),
        dedup(s).len() <= s.len(),
    decreases s.len(),
{
    if s.len() > 0 {
        lemma_dedup(s.drop_last());
        let d = dedup(s.drop_last());
        assert forall|x: T| dedup(s).contains(x) <==> s.contains(x) by {
            let l = s.last();
            if s.contains(x) {
                let k = choose|k: int| 0 <= k < s.len() && s[k] == x;
                if k < s.len() - 1 {
                    assert(s.drop_last()[k] == x);
                    assert(s.drop_last().contains(x));
                    assert(d.contains(x));
                    let m = choose|m: int| 0 <= m < d.len() && d[m] == x;
                    if !d.contains(l) {
                        assert(d.push(l)[m] == x);
                    }
                } else if !d.contains(l) {
                    assert(d.push(l)[d.len() as int] == x);
                }
            }
            if dedup(s).contains(x) {
                let k = choose|k: int| 0 <= k < dedup(s).len() && dedup(s)[k] == x;
                if k < d.len() {
                    assert(d[k] == x);
                    assert(d.contains(x));
                    assert(s.drop_last().contains(x));
                    let m = choose|m: int| 0 <= m < s.drop_last().len() && s.drop_last()[m] == x;
                    assert(s.drop_last()[m] == s[m]);
                } else {
                    assert(x == l);
                    assert(s[s.len() - 1] == x);
                }
            }
        }
    }
}

/// Keeping some elements of a sequence without repeats keeps it without repeats.
pub proof fn lemma_filter_no_duplicates(s: Seq<Seq<char>>, pred: spec_fn(Seq<char>) -> bool)
    requires
        no_duplicates(s),
    ensures
        no_duplicates(s.filter(pred)),
    decreases s.len(),
{
    reveal_with_fuel(Seq::<_>::filter, 1);
    if s.len() > 0 {
        let d = s.drop_last();
        assert forall|i: int, j: int| 0 <= i < d.len() && 0 <= j < d.len() && i != j implies d[i]
            != d[j] by {
            assert(d[i] == s[i] && d[j] == s[j]);
        }
        lemma_filter_no_duplicates(d, pred);
        let f = d.filter(pred);
        if pred(s.last()) {
            assert forall|k: int| 0 <= k < f.len() implies f[k] != s.last() by {
                assert(f.contains(f[k]));
                d.lemma_filter_contains_rev(pred, f[k]);
                let m = choose|m: int| 0 <= m < d.len() && d[m] == f[k];
                assert(s[m] == d[m]);
            }
        }
    }
}

/// Whether some element of `v` has the same text as `s`.
pub fn contains_string(v: &Vec<String>, s: &String) -> (b: bool)
    ensures
        b == v.deep_view().contains(s@),
{
    let mut i: usize = 0;
    while i < v.len()
        invariant
            i <= v.len(),
            forall|k: int| 0 <= k < i ==> v.deep_view()[k] != s@,
        decreases v.len() - i,
    {
        if v[i] == *s {
            assert(v.deep_view()[i as int] == s@);
            return true;
        }
        i = i + 1;
    }
    false
}

/// Appends `s` to `v` unless `v` already holds the same text.
pub fn push_unique(v: &mut Vec<String>, s: String)
    ensures
        final(v).deep_view() == (if old(v).deep_view().contains(s@) {
            old(v).deep_view()
        } else {
            old(v).deep_view().push(s@)
        }),
{
    if !contains_string(v, &s) {
        v.push(s);
        assert(v.deep_view() =~= old(v).deep_view().push(s@));
    }
}

/// The strings of `v` in order of first occurrence, each text kept once.
pub fn dedup_strings(v: Vec<String>) -> (r: Vec<String>)
    ensures
        r.deep_view() == dedup(v.deep_view()),
{
    let mut r: Vec<String> = Vec::new();
    let mut i: usize = 0;
    while i < v.len()
        invariant
            i <= v.len(),
            r.deep_view() == dedup(v.deep_view().take(i as int)),
        decreases v.len() - i,
    {
        let s = v[i].clone();
        proof {
            let t = v.deep_view().take(i + 1);
            assert(t.drop_last() =~= v.deep_view().take(i as int));
            assert(t.last() == v.deep_view()[i as int]);
        }
        push_unique(&mut r, s);
        i = i + 1;
    }
    assert(v.deep_view().take(v.len() as int) =~= v.deep_view());
    r
}

} // verus!

verus! {

/// Every character of `s` is ASCII.
pub open spec fn all_ascii(s: Seq<char>) -> bool {
    forall|i: int| 0 <= i < s.len() ==> (s[i] as u32) < 128
}

/// ASCII lowercase: `A`..`Z` become `a`..`z`, every other character stays.
pub open spec fn ascii_lowercase(s: Seq<char>) -> Seq<char> {
    s.map_values(|c: char| if 'A' <= c && c <= 'Z' { ((c as u32) + 32) as char } else { c })
}

/// ASCII uppercase: `a`..`z` become `A`..`Z`, every other character stays.
pub open spec fn ascii_uppercase(s: Seq<char>) -> Seq<char> {
    s.map_values(|c: char| if 'a' <= c && c <= 'z' { ((c as u32) - 32) as char } else { c })
}

/// What `str::to_lowercase` returns for a text (Unicode lowercase mapping).
pub uninterp spec fn unicode_lowercase(s: Seq<char>) -> Seq<char>;

/// What `str::to_uppercase` returns for a text (Unicode uppercase mapping).
pub uninterp spec fn unicode_uppercase(s: Seq<char>) -> Seq<char>;

/// Calls `str::to_lowercase`. Claimed: the result is the Unicode lowercase of
/// `s`, which is a function of `s` alone, and on ASCII text it maps exactly
/// `A`..`Z` to `a`..`z` (the Unicode lowercase mapping of those letters).
#[verifier::external_body]
pub(crate) fn to_lowercase(s: &str) -> (res: String)
    ensures
        res@ == unicode_lowercase(s@),
        all_ascii(s@) ==> res@ == ascii_lowercase(s@),
{
    s.to_lowercase()
}

/// Calls `str::to_uppercase`. Claimed: the result is the Unicode uppercase of
/// `s`, a function of `s` alone, and on ASCII text it maps exactly `a`..`z`
/// to `A`..`Z`.
#[verifier::external_body]
pub(crate) fn to_uppercase(s: &str) -> (res: String)
    ensures
        res@ == unicode_uppercase(s@),
        all_ascii(s@) ==> res@ == ascii_uppercase(s@),
{
    s.to_uppercase()
}

/// Whether two texts are equal, compared character by character.
pub fn str_eq(a: &str, b: &str) -> (r: bool)
    ensures
        r == (a@ == b@),
{
    let x = chars_of(a);
    let y = chars_of(b);
    if x.len() != y.len() {
        return false;
    }
    let mut i: usize = 0;
    while i < x.len()
        invariant
            x@ == a@,
            y@ == b@,
            x.len() == y.len(),
            i <= x.len(),
            forall|k: int| 0 <= k < i ==> x@[k] == y@[k],
        decreases x.len() - i,
    {
        if x[i] != y[i] {
            assert(a@[i as int] != b@[i as int]);
            return false;
        }
        i = i + 1;
    }
    assert(x@ =~= y@);
    true
}

} // verus!

verus! {

/// `prefix` is a prefix of `s`.
pub open spec fn starts_with(s: Seq<char>, prefix: Seq<char>) -> bool {
    prefix.len() <= s.len() && s.take(prefix.len() as int) =~= prefix
}

/// Whether the text of `s` begins with the text of `prefix`.
pub fn str_starts_with(s: &str, prefix: &str) -> (b: bool)
    ensures
        b == starts_with(s@, prefix@),
{
    let x = chars_of(s);
    let p = chars_of(prefix);
    if p.len() > x.len() {
        return false;
    }
    occurs_at_chars(&x, &p, 0)
}

/// What `String::from_utf8_lossy` returns for a byte sequence.
pub uninterp spec fn utf8_lossy(bytes: Seq<u8>) -> Seq<char>;

/// The bytes of an ASCII text.
pub open spec fn ascii_bytes(s: Seq<char>) -> Seq<u8> {
    s.map_values(|c: char| c as u8)
}

/// Calls `String::from_utf8_lossy`. Claimed: the text is a function of the
/// bytes alone; for valid UTF-8 it is the decoded text; and an ASCII text
/// occurs in it exactly when its bytes occur in the input. The last holds
/// because an ASCII byte always decodes to itself, no other byte decodes to
/// an ASCII character (other characters and U+FFFD are not ASCII), and every
/// byte yields some character, so adjacent characters come from adjacent bytes.
#[verifier::external_body]
pub(crate) fn decode_utf8_lossy(bytes: &[u8]) -> (s: String)
    ensures
        s@ == utf8_lossy(bytes@),
        vstd::utf8::valid_utf8(bytes@) ==> s@ == vstd::utf8::decode_utf8(bytes@),
        forall|p: Seq<char>|
            all_ascii(p) ==> (#[trigger] contains_seq(s@, p) <==> contains_seq(
                bytes@,
                ascii_bytes(p),
            )),
{
    String::from_utf8_lossy(bytes).into_owned()
}

/// A UTF-16 code unit that opens a surrogate pair.
pub open spec fn is_high_surrogate(u: u16) -> bool {
    0xD800 <= u <= 0xDBFF
}

/// A UTF-16 code unit that closes a surrogate pair.
pub open spec fn is_low_surrogate(u: u16) -> bool {
    0xDC00 <= u <= 0xDFFF
}

/// The replacement character U+FFFD.
pub open spec fn replacement_char() -> char {
    '\u{FFFD}'
}

/// UTF-16 decoding in which each unit that is not part of a well-formed
/// surrogate pair becomes U+FFFD.
pub open spec fn utf16_lossy(u: Seq<u16>) -> Seq<char>
    decreases u.len(),
{
    if u.len() == 0 {
        Seq::empty()
    } else if is_high_surrogate(u[0]) && u.len() >= 2 && is_low_surrogate(u[1]) {
        seq![(0x10000 + (u[0] - 0xD800) * 0x400 + (u[1] - 0xDC00)) as char] + utf16_lossy(
            u.skip(2),
        )
    } else if is_high_surrogate(u[0]) || is_low_surrogate(u[0]) {
        seq![replacement_char()] + utf16_lossy(u.skip(1))
    } else {
        seq![u[0] as char] + utf16_lossy(u.skip(1))
    }
}

/// Calls `String::from_utf16_lossy`, which decodes with `char::decode_utf16`
/// and replaces each decoding error by U+FFFD. Claimed: the result is
/// `utf16_lossy` of the units.
#[verifier::external_body]
pub(crate) fn decode_utf16_lossy(units: &[u16]) -> (s: String)
    ensures
        s@ == utf16_lossy(units@),
{
    String::from_utf16_lossy(units)
}

/// Decoding more units keeps what fewer decoded, except possibly a final
/// U+FFFD (a high surrogate that the new units complete).
pub proof fn lemma_utf16_lossy_extend(u: Seq<u16>, w: Seq<u16>)
    ensures
        ({
            let d = utf16_lossy(u);
            let e = utf16_lossy(u + w);
            ||| d.len() <= e.len() && e.take(d.len() as int) == d
            ||| d.len() > 0 && d.last() == replacement_char() && d.len() - 1 <= e.len()
                && e.take(d.len() - 1) == d.drop_last()
        }),
    decreases u.len(),
{
    let d = utf16_lossy(u);
    let e = utf16_lossy(u + w);
    let uw = u + w;
    if u.len() == 0 {
        assert(uw =~= w);
        assert(e.take(0) =~= d);
    } else if is_high_surrogate(u[0]) && u.len() >= 2 && is_low_surrogate(u[1]) {
        assert(uw[0] == u[0] && uw[1] == u[1]);
        assert(uw.skip(2) =~= u.skip(2) + w);
        lemma_utf16_lossy_extend(u.skip(2), w);
        let c = seq![(0x10000 + (u[0] - 0xD800) * 0x400 + (u[1] - 0xDC00)) as char];
        let dr = utf16_lossy(u.skip(2));
        let er = utf16_lossy(u.skip(2) + w);
        assert(d == c + dr);
        assert(e == c + er);
        if dr.len() <= er.len() && er.take(dr.len() as int) == dr {
            assert(e.take(d.len() as int) =~= d);
        } else {
            assert(d.last() == dr.last());
            assert(d.drop_last() =~= c + dr.drop_last());
            assert(e.take(d.len() - 1) =~= c + er.take(dr.len() - 1));
            assert(e.take(d.len() - 1) =~= d.drop_last());
        }
    } else if is_high_surrogate(u[0]) && u.len() == 1 {
        assert(u.skip(1).len() == 0);
        assert(utf16_lossy(u.skip(1)).len() == 0);
        assert(d =~= seq![replacement_char()]);
        assert(e.take(0) =~= d.drop_last());
    } else {
        assert(uw[0] == u[0]);
        if u.len() >= 2 {
            assert(uw[1] == u[1]);
        }
        assert(uw.skip(1) =~= u.skip(1) + w);
        lemma_utf16_lossy_extend(u.skip(1), w);
        let c = if is_high_surrogate(u[0]) || is_low_surrogate(u[0]) {
            seq![replacement_char()]
        } else {
            seq![u[0] as char]
        };
        let dr = utf16_lossy(u.skip(1));
        let er = utf16_lossy(u.skip(1) + w);
        assert(d == c + dr);
        assert(e == c + er);
        if dr.len() <= er.len() && er.take(dr.len() as int) == dr {
            assert(e.take(d.len() as int) =~= d);
        } else {
            assert(d.last() == dr.last());
            assert(d.drop_last() =~= c + dr.drop_last());
            assert(e.take(d.len() - 1) =~= c + er.take(dr.len() - 1));
            assert(e.take(d.len() - 1) =~= d.drop_last());
        }
    }
}

} // verus!
