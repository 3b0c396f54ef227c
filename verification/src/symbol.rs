//! The text encoding behind exported symbol names.
//!
//! A canonical signature is encoded in base 64 without padding, over an
//! alphabet in which `$` and `_` take the places of `+` and `/`, so that the
//! result can stand in a linker symbol.
use base64::alphabet::Alphabet;
use base64::engine::general_purpose::NO_PAD;
use base64::engine::GeneralPurpose;
use base64::Engine;
use vstd::prelude::*;
use vstd::utf8::encode_utf8;

verus! {

/// The character for the six-bit value `i`: `A` to `Z`, `a` to `z`, `0` to
/// `9`, then `$` and `_`.
pub open spec fn symbol(i: int) -> char {
    if i < 26 {
        ((65 + i) as u8) as char
    } else if i < 52 {
        ((71 + i) as u8) as char
    } else if i < 62 {
        ((i - 4) as u8) as char
    } else if i == 62 {
        '$'
    } else {
        '_'
    }
}

/// The encoding of `bytes`: four characters for every three bytes, most
/// significant bits first, and two or three characters for one or two bytes
/// left over.
pub open spec fn encoded(bytes: Seq<u8>) -> Seq<char>
    decreases bytes.len(),
{
    if bytes.len() == 0 {
        Seq::empty()
    } else if bytes.len() == 1 {
        let a = bytes[0] as int;
        seq![symbol(a / 4), symbol((a % 4) * 16)]
    } else if bytes.len() == 2 {
        let a = bytes[0] as int;
        let b = bytes[1] as int;
        seq![symbol(a / 4), symbol((a % 4) * 16 + b / 16), symbol((b % 16) * 4)]
    } else {
        let a = bytes[0] as int;
        let b = bytes[1] as int;
        let c = bytes[2] as int;
        seq![
            symbol(a / 4),
            symbol((a % 4) * 16 + b / 16),
            symbol((b % 16) * 4 + c / 64),
            symbol(c % 64),
        ] + encoded(bytes.skip(3))
    }
}

/// Different six-bit values have different characters.
pub proof fn lemma_symbol_injective(i: int, j: int)
    requires
        0 <= i < 64,
        0 <= j < 64,
        symbol(i) == symbol(j),
    ensures
        i == j,
{
    assert(symbol(i) as u32 == symbol(j) as u32);
    assert(('$' as u32) == 36 && ('_' as u32) == 95);
}

/// The length of an encoding.
pub proof fn lemma_encoded_len(bytes: Seq<u8>)
    ensures
        encoded(bytes).len() == 4 * (bytes.len() / 3) + if bytes.len() % 3 == 0 {
            0int
        } else {
            (bytes.len() % 3) as int + 1
        },
    decreases bytes.len(),
{
    if bytes.len() >= 3 {
        lemma_encoded_len(bytes.skip(3));
    }
}

/// Different byte strings have different encodings.
pub proof fn lemma_encoded_injective(x: Seq<u8>, y: Seq<u8>)
    requires
        encoded(x) == encoded(y),
    ensures
        x == y,
    decreases x.len(),
{
    lemma_encoded_len(x);
    lemma_encoded_len(y);
    let ex = encoded(x);
    let ey = encoded(y);
    if x.len() == 0 {
        assert(x =~= y);
    } else if x.len() == 1 {
        assert(y.len() == 1);
        let a = x[0] as int;
        let b = y[0] as int;
        assert(ex[0] == ey[0] && ex[1] == ey[1]);
        lemma_symbol_injective(a / 4, b / 4);
        lemma_symbol_injective((a % 4) * 16, (b % 4) * 16);
        assert(x =~= y);
    } else if x.len() == 2 {
        assert(y.len() == 2);
        let a = x[0] as int;
        let b = x[1] as int;
        let c = y[0] as int;
        let d = y[1] as int;
        assert(ex[0] == ey[0] && ex[1] == ey[1] && ex[2] == ey[2]);
        lemma_symbol_injective(a / 4, c / 4);
        lemma_symbol_injective((a % 4) * 16 + b / 16, (c % 4) * 16 + d / 16);
        lemma_symbol_injective((b % 16) * 4, (d % 16) * 4);
        assert(x =~= y);
    } else {
        assert(y.len() >= 3);
        let a = x[0] as int;
        let b = x[1] as int;
        let c = x[2] as int;
        let d = y[0] as int;
        let e = y[1] as int;
        let f = y[2] as int;
        assert(ex[0] == ey[0] && ex[1] == ey[1] && ex[2] == ey[2] && ex[3] == ey[3]);
        lemma_symbol_injective(a / 4, d / 4);
        lemma_symbol_injective((a % 4) * 16 + b / 16, (d % 4) * 16 + e / 16);
        lemma_symbol_injective((b % 16) * 4 + c / 64, (e % 16) * 4 + f / 64);
        lemma_symbol_injective(c % 64, f % 64);
        assert(encoded(x.skip(3)) =~= ex.skip(4));
        assert(encoded(y.skip(3)) =~= ey.skip(4));
        lemma_encoded_injective(x.skip(3), y.skip(3));
        assert(x =~= y) by {
            assert forall|i: int| 3 <= i < x.len() implies x[i] == y[i] by {
                assert(x.skip(3)[i - 3] == y.skip(3)[i - 3]);
            }
            assert(x.skip(3).len() == y.skip(3).len());
        }
    }
}

/// The largest number of bytes whose encoding has a length that fits.
pub open spec fn encodable_len() -> int {
    (usize::MAX / 4) * 3
}

/// Calls `encode` of the base64 crate, on an engine without padding over the
/// alphabet `A` to `Z`, `a` to `z`, `0` to `9`, `$`, `_`.
///
/// The result is the encoding of the bytes of `input` in UTF-8, as
/// [`encoded`] states it. The call fails where the length of the encoding does not fit, which
/// the bound on the length of `input` excludes.
#[verifier::external_body]
pub(crate) fn base64_encode(input: &str) -> (r: String)
    requires
        encode_utf8(input@).len() <= encodable_len(),
    ensures
        r@ == encoded(encode_utf8(input@)),
{
    let alphabet = Alphabet::new(
        "ABCDEFGHIJKLMNOPQRSTUVWXYZabcdefghijklmnopqrstuvwxyz0123456789$_",
    ).unwrap();
    let engine = GeneralPurpose::new(&alphabet, NO_PAD);
    engine.encode(input)
}

} // verus!
