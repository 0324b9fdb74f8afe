use crate::constants::ID_LENGTH;
use crate::wire::str_bytes;
use vstd::prelude::*;
use vstd::string::StringSliceAdditionalSpecFns;
use vstd::utf8::{
    decode_utf8, decode_utf8_encode_utf8, encode_utf8, encode_utf8_decode_utf8, pop_first_scalar,
    valid_utf8,
};

verus! {

/// Byte length of a string whose length must fit the one-byte length prefix.
pub fn get_string_slice_length(s: &str) -> (r: u8)
    requires
        s.spec_bytes().len() <= 255,
    ensures
        r as nat == s.spec_bytes().len(),
{
    s.len() as u8
}

/// Splits a 16-bit value into its high and low bytes.
pub fn split_u16(value: u16) -> (r: (u8, u8))
    ensures
        r.0 as int == value as int / 256,
        r.1 as int == value as int % 256,
{
    let high_byte = (value >> 8u16) as u8;
    let low_byte = (value & 0xFFu16) as u8;
    assert(high_byte == value / 256 && low_byte == value % 256) by (bit_vector)
        requires
            high_byte == (value >> 8u16) as u8,
            low_byte == (value & 0xFFu16) as u8,
    ;
    (high_byte, low_byte)
}

/// Joins a high and a low byte into a 16-bit value.
pub fn merge_u8(high_byte: u8, low_byte: u8) -> (r: u16)
    ensures
        r as int == high_byte as int * 256 + low_byte as int,
{
    let r = ((high_byte as u16) << 8u16) | (low_byte as u16);
    assert(r == high_byte as u16 * 256 + low_byte as u16) by (bit_vector)
        requires
            r == ((high_byte as u16) << 8u16) | (low_byte as u16),
    ;
    r
}
/// Relies on `String::from_utf8`: it succeeds exactly on valid UTF-8, and the string
/// then holds the characters those bytes encode.
#[verifier::external_body]
pub(crate) fn string_from_utf8(b: &[u8]) -> (r: Option<String>)
    ensures
        r is Some <==> valid_utf8(b@),
        r matches Some(s) ==> s@ == decode_utf8(b@),
{
    String::from_utf8(b.to_vec()).ok()
}

/// Appends every byte of `b` to `out`.
pub fn append_bytes(out: &mut Vec<u8>, b: &[u8])
    ensures
        final(out)@ == old(out)@ + b@,
{
    let mut i: usize = 0;
    while i < b.len()
        invariant
            i <= b@.len(),
            out@ == old(out)@ + b@.subrange(0, i as int),
        decreases b@.len() - i,
    {
        out.push(b[i]);
        i = i + 1;
        assert(b@.subrange(0, i as int) == b@.subrange(0, i - 1) + seq![b@[i - 1]]);
    }
    assert(b@.subrange(0, b@.len() as int) == b@);
}
/// Whether two strings hold the same characters, compared byte by byte.
pub fn same_text(a: &str, b: &str) -> (r: bool)
    ensures
        r == (a@ == b@),
{
    let x = a.as_bytes();
    let y = b.as_bytes();
    proof {
        encode_utf8_decode_utf8(a@);
        encode_utf8_decode_utf8(b@);
    }
    if x.len() != y.len() {
        return false;
    }
    let mut i: usize = 0;
    while i < x.len()
        invariant
            x@ == encode_utf8(a@),
            y@ == encode_utf8(b@),
            decode_utf8(x@) == a@,
            decode_utf8(y@) == b@,
            x@.len() == y@.len(),
            i <= x@.len(),
            x@.subrange(0, i as int) == y@.subrange(0, i as int),
        decreases x@.len() - i,
    {
        if x[i] != y[i] {
            assert(x@[i as int] != y@[i as int]);
            assert(x@ != y@);
            return false;
        }
        assert(x@.subrange(0, i + 1) == x@.subrange(0, i as int) + seq![x@[i as int]]);
        assert(y@.subrange(0, i + 1) == y@.subrange(0, i as int) + seq![y@[i as int]]);
        i = i + 1;
    }
    assert(x@.subrange(0, i as int) == x@);
    assert(y@.subrange(0, i as int) == y@);
    true
}
/// One of the bytes `A`-`Z`, `a`-`z`, `0`-`9`.
pub open spec fn is_alphanumeric(b: u8) -> bool {
    (0x41 <= b <= 0x5A) || (0x61 <= b <= 0x7A) || (0x30 <= b <= 0x39)
}

/// Relies on rand's `Alphanumeric` distribution sampled from `thread_rng`: every draw
/// is one of the 62 ASCII letters and digits.
#[verifier::external_body]
fn random_alphanumeric() -> (r: u8)
    ensures
        is_alphanumeric(r),
{
    rand::Rng::sample(&mut rand::thread_rng(), rand::distributions::Alphanumeric)
}

/// Bytes below 0x80 are valid UTF-8.
proof fn lemma_ascii_valid_utf8(b: Seq<u8>)
    requires
        forall|i: int| 0 <= i < b.len() ==> b[i] < 0x80,
    ensures
        valid_utf8(b),
    decreases b.len(),
{
    if b.len() > 0 {
        let x = b[0];
        assert((x & 0x7F) == x) by (bit_vector)
            requires
                x < 0x80,
        ;
        let rest = b.subrange(1, b.len() as int);
        lemma_ascii_valid_utf8(rest);
        assert(pop_first_scalar(b) =~= rest);
    }
}

/// A fresh player identifier: `ID_LENGTH` random ASCII letters and digits.
pub fn get_random_id() -> (r: String)
    ensures
        str_bytes(r@).len() == ID_LENGTH,
        forall|i: int| 0 <= i < ID_LENGTH ==> is_alphanumeric(#[trigger] str_bytes(r@)[i]),
{
    let mut bytes: Vec<u8> = Vec::new();
    let mut i: usize = 0;
    while i < ID_LENGTH
        invariant
            i <= ID_LENGTH,
            bytes@.len() == i,
            forall|j: int| 0 <= j < i ==> is_alphanumeric(#[trigger] bytes@[j]),
        decreases ID_LENGTH - i,
    {
        bytes.push(random_alphanumeric());
        i = i + 1;
    }
    proof {
        lemma_ascii_valid_utf8(bytes@);
        decode_utf8_encode_utf8(bytes@);
    }
    match string_from_utf8(bytes.as_slice()) {
        Some(s) => s,
        None => {
            proof {
                assert(false);
            }
            String::new()
        },
    }
}

/// A character of Unicode's White_Space property, as `char::is_whitespace` documents it.
pub open spec fn is_white_space(c: char) -> bool {
    let u = c as u32;
    (0x9 <= u <= 0xD) || u == 0x20 || u == 0x85 || u == 0xA0 || u == 0x1680 || (0x2000 <= u
        <= 0x200A) || u == 0x2028 || u == 0x2029 || u == 0x202F || u == 0x205F || u == 0x3000
}

/// How many white-space characters a string starts with.
pub open spec fn leading_white_space(s: Seq<char>) -> nat
    decreases s.len(),
{
    if s.len() > 0 && is_white_space(s[0]) {
        1 + leading_white_space(s.subrange(1, s.len() as int))
    } else {
        0
    }
}

/// How many white-space characters a string ends with.
pub open spec fn trailing_white_space(s: Seq<char>) -> nat
    decreases s.len(),
{
    if s.len() > 0 && is_white_space(s.last()) {
        1 + trailing_white_space(s.drop_last())
    } else {
        0
    }
}

/// What `str::trim` leaves of a string: the string without its leading and trailing
/// white space; nothing when it is all white space.
pub open spec fn trimmed(s: Seq<char>) -> Seq<char> {
    if leading_white_space(s) >= s.len() {
        Seq::empty()
    } else {
        s.subrange(leading_white_space(s) as int, s.len() - trailing_white_space(s))
    }
}

/// Relies on `str::trim`: leading and trailing white space (Unicode White_Space)
/// removed.
#[verifier::external_body]
pub(crate) fn trim_text(s: &str) -> (r: &str)
    ensures
        r@ == trimmed(s@),
{
    s.trim()
}

} // verus!
