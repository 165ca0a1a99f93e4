//! Lowercase hexadecimal notation of bytes.
use vstd::prelude::*;

verus! {

/// Whether `c` is a lowercase hexadecimal digit.
pub open spec fn is_hex_digit(c: char) -> bool {
    ('0' <= c && c <= '9') || ('a' <= c && c <= 'f')
}

/// The lowercase hexadecimal digit for `d` (below 16).
pub open spec fn hex_char(d: nat) -> char {
    if d < 10 {
        (('0' as nat) + d) as char
    } else {
        (('a' as nat) + d - 10) as char
    }
}

/// Two lowercase hexadecimal digits per byte, high digit first (`{:02x}`).
pub open spec fn hex_seq(bytes: Seq<u8>) -> Seq<char>
    decreases bytes.len(),
{
    if bytes.len() == 0 {
        seq![]
    } else {
        hex_seq(bytes.drop_last()).push(hex_char((bytes.last() / 16) as nat)).push(
            hex_char((bytes.last() % 16) as nat),
        )
    }
}

/// The hexadecimal digit for `d` (executable).
pub fn hex_digit(d: u8) -> (r: char)
    requires
        d < 16,
    ensures
        r == hex_char(d as nat),
        is_hex_digit(r),
{
    if d < 10 {
        (48u8 + d) as char
    } else {
        (87u8 + d) as char
    }
}

/// Every character of `hex_seq` is a hexadecimal digit, and there are two per byte.
pub proof fn lemma_hex_seq(bytes: Seq<u8>)
    ensures
        hex_seq(bytes).len() == 2 * bytes.len(),
        forall|i: int| 0 <= i < hex_seq(bytes).len() ==> is_hex_digit(#[trigger] hex_seq(bytes)[i]),
    decreases bytes.len(),
{
    if bytes.len() > 0 {
        lemma_hex_seq(bytes.drop_last());
        let h = hex_seq(bytes.drop_last());
        let b = bytes.last();
        assert(is_hex_digit(hex_char((b / 16) as nat)));
        assert(is_hex_digit(hex_char((b % 16) as nat)));
        assert forall|i: int| 0 <= i < hex_seq(bytes).len() implies is_hex_digit(#[trigger] hex_seq(bytes)[i]) by {
            if i < h.len() {
                assert(hex_seq(bytes)[i] == h[i]);
            }
        }
    }
}

/// Lowercase hexadecimal notation of `bytes`.
pub fn hex_string(bytes: &Vec<u8>) -> (r: String)
    ensures
        r@ == hex_seq(bytes@),
        r@.len() == 2 * bytes@.len(),
        forall|i: int| 0 <= i < r@.len() ==> is_hex_digit(#[trigger] r@[i]),
{
    let mut v: Vec<char> = Vec::new();
    let mut i: usize = 0;
    while i < bytes.len()
        invariant
            i <= bytes.len(),
            v@ == hex_seq(bytes@.take(i as int)),
        decreases bytes.len() - i,
    {
        assert(bytes@.take(i + 1).drop_last() =~= bytes@.take(i as int));
        let b = bytes[i];
        v.push(hex_digit(b / 16));
        v.push(hex_digit(b % 16));
        i += 1;
    }
    assert(bytes@.take(i as int) =~= bytes@);
    proof {
        lemma_hex_seq(bytes@);
    }
    crate::text::from_chars(&v)
}

} // verus!
