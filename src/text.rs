//! Byte-level text matching used to recognise markers in response bodies.
use vstd::prelude::*;
use vstd::std_specs::iter::IteratorSpec;
use vstd::utf8::encode_utf8;

verus! {

/// The UTF-8 bytes of a text.
pub open spec fn utf8(s: Seq<char>) -> Seq<u8> {
    encode_utf8(s)
}

/// `needle` occurs in `hay` starting at byte `i`.
pub open spec fn occurs_at(hay: Seq<u8>, needle: Seq<u8>, i: int) -> bool {
    &&& 0 <= i
    &&& i + needle.len() <= hay.len()
    &&& hay.subrange(i, i + needle.len()) == needle
}

/// `needle` occurs somewhere in `hay`.
pub open spec fn contains(hay: Seq<u8>, needle: Seq<u8>) -> bool {
    exists|i: int| occurs_at(hay, needle, i)
}

/// ASCII lower case of one byte; other bytes are unchanged.
pub open spec fn lower(b: u8) -> u8 {
    if 65 <= b <= 90 {
        (b + 32) as u8
    } else {
        b
    }
}

/// `needle` occurs in `hay` at byte `i`, ignoring ASCII case.
pub open spec fn occurs_at_ignoring_case(hay: Seq<u8>, needle: Seq<u8>, i: int) -> bool {
    &&& 0 <= i
    &&& i + needle.len() <= hay.len()
    &&& forall|j: int| 0 <= j < needle.len() ==> lower(#[trigger] hay[i + j]) == lower(needle[j])
}

/// `needle` occurs somewhere in `hay`, ignoring ASCII case.
pub open spec fn contains_ignoring_case(hay: Seq<u8>, needle: Seq<u8>) -> bool {
    exists|i: int| occurs_at_ignoring_case(hay, needle, i)
}

/// A character of the Unicode `White_Space` property, as
/// `char::is_whitespace` tests it.
pub open spec fn white_space(c: char) -> bool {
    let u = c as u32;
    (0x09 <= u <= 0x0d) || u == 0x20 || u == 0x85 || u == 0xa0 || u == 0x1680 || (0x2000 <= u
        <= 0x200a) || u == 0x2028 || u == 0x2029 || u == 0x202f || u == 0x205f || u == 0x3000
}

/// A text without its leading and trailing white space.
pub open spec fn trimmed(s: Seq<char>) -> Seq<char>
    decreases s.len(),
{
    if s.len() > 0 && white_space(s[0]) {
        trimmed(s.drop_first())
    } else if s.len() > 0 && white_space(s.last()) {
        trimmed(s.drop_last())
    } else {
        s
    }
}

/// Relies on `str::trim`: the text without the leading and trailing
/// characters that `char::is_whitespace` accepts (Unicode `White_Space`).
#[verifier::external_body]
pub(crate) fn trim(s: &str) -> (r: String)
    ensures
        r@ == trimmed(s@),
{
    s.trim().to_string()
}

fn ascii_lower(b: u8) -> (r: u8)
    ensures
        r == lower(b),
{
    if 65 <= b && b <= 90 {
        b + 32
    } else {
        b
    }
}

fn matches_at(hay: &[u8], needle: &[u8], i: usize, fold: bool) -> (r: bool)
    requires
        i + needle@.len() <= hay@.len(),
    ensures
        !fold ==> r == occurs_at(hay@, needle@, i as int),
        fold ==> r == occurs_at_ignoring_case(hay@, needle@, i as int),
{
    let n: usize = hay.len();
    let mut j: usize = 0;
    while j < needle.len()
        invariant
            n == hay@.len(),
            i + needle@.len() <= hay@.len(),
            j <= needle@.len(),
            !fold ==> forall|k: int| 0 <= k < j ==> hay@[i + k] == needle@[k],
            fold ==> forall|k: int| 0 <= k < j ==> lower(#[trigger] hay@[i + k]) == lower(needle@[k]),
        decreases needle@.len() - j,
    {
        let same = if fold {
            ascii_lower(hay[i + j]) == ascii_lower(needle[j])
        } else {
            hay[i + j] == needle[j]
        };
        if !same {
            if !fold {
                assert(hay@.subrange(i as int, i + needle@.len())[j as int] != needle@[j as int]);
            }
            return false;
        }
        j += 1;
    }
    if !fold {
        assert(hay@.subrange(i as int, i + needle@.len()) =~= needle@);
    }
    true
}

fn search(hay: &[u8], needle: &[u8], fold: bool) -> (r: bool)
    ensures
        !fold ==> r == contains(hay@, needle@),
        fold ==> r == contains_ignoring_case(hay@, needle@),
{
    if needle.len() > hay.len() {
        return false;
    }
    let last: usize = hay.len() - needle.len();
    let mut i: usize = 0;
    loop
        invariant
            last == hay@.len() - needle@.len(),
            i <= last,
            !fold ==> forall|k: int| 0 <= k < i ==> !occurs_at(hay@, needle@, k),
            fold ==> forall|k: int| 0 <= k < i ==> !occurs_at_ignoring_case(hay@, needle@, k),
        decreases last - i,
    {
        if matches_at(hay, needle, i, fold) {
            return true;
        }
        if i == last {
            return false;
        }
        i += 1;
    }
}

/// Whether `needle` occurs in `hay`, byte for byte.
pub fn contains_text(hay: &str, needle: &str) -> (r: bool)
    ensures
        r == contains(utf8(hay@), utf8(needle@)),
{
    search(hay.as_bytes(), needle.as_bytes(), false)
}

/// Whether `needle` occurs in `hay` when ASCII letters are compared without case.
pub fn contains_text_ignoring_case(hay: &str, needle: &str) -> (r: bool)
    ensures
        r == contains_ignoring_case(utf8(hay@), utf8(needle@)),
{
    search(hay.as_bytes(), needle.as_bytes(), true)
}

/// Two byte strings that are equal when ASCII letters are compared without case.
pub open spec fn same_ignoring_case(a: Seq<u8>, b: Seq<u8>) -> bool {
    a.len() == b.len() && occurs_at_ignoring_case(a, b, 0)
}

/// Whether two texts are equal when ASCII letters are compared without case.
pub fn equals_ignoring_case(a: &str, b: &str) -> (r: bool)
    ensures
        r == same_ignoring_case(utf8(a@), utf8(b@)),
{
    let x = a.as_bytes();
    let y = b.as_bytes();
    if x.len() != y.len() {
        return false;
    }
    matches_at(x, y, 0, true)
}

/// Whether a text has at most `limit` characters; counts no further than that.
pub fn has_at_most_chars(s: &str, limit: usize) -> (r: bool)
    ensures
        r == (s@.len() <= limit),
{
    broadcast use vstd::string::axiom_spec_iter, vstd::string::next_postcondition;

    let mut it = s.chars();
    let mut n: usize = 0;
    loop
        invariant
            n <= limit,
            it.remaining() == s@.subrange(n as int, s@.len() as int),
            n <= s@.len(),
        decreases s@.len() - n,
    {
        match it.next() {
            None => {
                return true;
            },
            Some(_) => {
                if n == limit {
                    return false;
                }
                n += 1;
            },
        }
    }
}

/// The decimal digits of `n`.
pub open spec fn digits(n: nat) -> Seq<char>
    decreases n,
{
    let d = (('0' as u32) + (n % 10) as u32) as char;
    if n < 10 {
        seq![d]
    } else {
        digits(n / 10).push(d)
    }
}

/// An integer in decimal, with a minus sign where it is negative.
pub open spec fn decimal_text(i: int) -> Seq<char> {
    if i < 0 {
        seq!['-'] + digits((-i) as nat)
    } else {
        digits(i as nat)
    }
}

/// Relies on `i64`'s `Display`: the integer in decimal.
#[verifier::external_body]
pub(crate) fn integer_text(i: i64) -> (r: String)
    ensures
        r@ == decimal_text(i as int),
{
    i.to_string()
}

/// A byte that can stand in the UTF-8 encoding of white space: an ASCII
/// white-space byte, or a byte of a multi-byte sequence.
pub open spec fn white_byte(b: u8) -> bool {
    (9 <= b <= 13) || b == 32 || b >= 0x80
}

proof fn lemma_utf8_concat(a: Seq<char>, b: Seq<char>)
    ensures
        utf8(a + b) == utf8(a) + utf8(b),
    decreases a.len(),
{
    if a.len() > 0 {
        assert((a + b).drop_first() =~= a.drop_first() + b);
        lemma_utf8_concat(a.drop_first(), b);
        assert(utf8(a + b) =~= utf8(a) + utf8(b));
    } else {
        assert(a + b =~= b);
        assert(utf8(a) + utf8(b) =~= utf8(b));
    }
}

proof fn lemma_white_bytes(c: char)
    requires
        white_space(c),
    ensures
        forall|k: int|
            0 <= k < vstd::utf8::encode_scalar(c as u32).len() ==> white_byte(
                #[trigger] vstd::utf8::encode_scalar(c as u32)[k],
            ),
{
    let u = c as u32;
    if u <= 0x7f {
        assert((u & 0x7f) as u8 == u) by (bit_vector)
            requires
                u <= 0x7f,
        ;
    } else {
        let a = ((u >> 6) & 0x1F) as u8;
        let b = ((u >> 12) & 0x0F) as u8;
        let d = ((u >> 18) & 0x7) as u8;
        let x = (u & 0x3F) as u8;
        let y = ((u >> 6) & 0x3F) as u8;
        let z = ((u >> 12) & 0x3F) as u8;
        assert((0xC0u8 | a) >= 0x80u8) by (bit_vector);
        assert((0xE0u8 | b) >= 0x80u8) by (bit_vector);
        assert((0xF0u8 | d) >= 0x80u8) by (bit_vector);
        assert((0x80u8 | x) >= 0x80u8) by (bit_vector);
        assert((0x80u8 | y) >= 0x80u8) by (bit_vector);
        assert((0x80u8 | z) >= 0x80u8) by (bit_vector);
    }
}

/// Trimming white space keeps every occurrence of a text whose first and
/// last bytes cannot stand in white space.
pub proof fn lemma_trimmed_keeps(s: Seq<char>, m: Seq<u8>)
    requires
        m.len() > 0,
        !white_byte(m[0]),
        !white_byte(m.last()),
        contains(utf8(s), m),
    ensures
        contains(utf8(trimmed(s)), m),
    decreases s.len(),
{
    if s.len() > 0 && white_space(s[0]) {
        let e = vstd::utf8::encode_scalar(s[0] as u32);
        let rest = utf8(s.drop_first());
        assert(utf8(s) == e + rest);
        let i = choose|i: int| occurs_at(utf8(s), m, i);
        lemma_white_bytes(s[0]);
        if i < e.len() {
            assert(utf8(s).subrange(i, i + m.len())[0] == m[0]);
            assert(utf8(s)[i] == e[i]);
        } else {
            assert(rest.subrange(i - e.len(), i - e.len() + m.len()) =~= utf8(s).subrange(
                i,
                i + m.len(),
            ));
            assert(occurs_at(rest, m, i - e.len()));
        }
        lemma_trimmed_keeps(s.drop_first(), m);
    } else if s.len() > 0 && white_space(s.last()) {
        let front = s.drop_last();
        let c = s.last();
        assert(s =~= front + seq![c]);
        lemma_utf8_concat(front, seq![c]);
        assert(seq![c].drop_first() =~= Seq::<char>::empty());
        let e = vstd::utf8::encode_scalar(c as u32);
        assert(seq![c][0] == c);
        assert(utf8(Seq::<char>::empty()) =~= Seq::<u8>::empty());
        assert(utf8(seq![c]) == e + utf8(Seq::<char>::empty()));
        assert(utf8(seq![c]) =~= e);
        let f = utf8(front);
        assert(utf8(s) == f + e);
        let i = choose|i: int| occurs_at(utf8(s), m, i);
        lemma_white_bytes(c);
        if i + m.len() > f.len() {
            let j = i + m.len() - 1;
            assert(utf8(s).subrange(i, i + m.len())[m.len() - 1] == m.last());
            assert(utf8(s)[j] == e[j - f.len()]);
        } else {
            assert(f.subrange(i, i + m.len()) =~= utf8(s).subrange(i, i + m.len()));
            assert(occurs_at(f, m, i));
        }
        lemma_trimmed_keeps(front, m);
    }
}

} // verus!
