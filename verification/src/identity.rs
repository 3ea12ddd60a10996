//! Identities: the short random tokens that tag one instance each.

use crate::text::chars_of;
use vstd::prelude::*;

verus! {

/// The number of symbols in an identity.
pub const IDENTITY_LENGTH: usize = 8;

/// The symbols that an identity is drawn from: the lower-case letters and the
/// digits.
pub const ALPHABET: &'static str = "abcdefghijklmnopqrstuvwxyz0123456789";

/// Whether `c` is a lower-case letter or a digit.
pub open spec fn is_symbol(c: char) -> bool {
    ('a' <= c && c <= 'z') || ('0' <= c && c <= '9')
}

/// Whether `text` is an identity: eight symbols of the alphabet.
pub open spec fn is_identity(text: Seq<char>) -> bool {
    &&& text.len() == IDENTITY_LENGTH
    &&& forall|i: int| 0 <= i < text.len() ==> is_symbol(#[trigger] text[i])
}

/// The alphabet holds 36 symbols, and a character is a symbol exactly if the
/// alphabet holds it.
pub proof fn lemma_alphabet()
    ensures
        ALPHABET@.len() == 36,
        forall|c: char| ALPHABET@.contains(c) <==> is_symbol(c),
{
    reveal_strlit("abcdefghijklmnopqrstuvwxyz0123456789");
    let symbols = ALPHABET@;
    assert forall|c: char| is_symbol(c) implies symbols.contains(c) by {
        if 'a' <= c && c <= 'z' {
            assert(symbols[c as int - 'a' as int] == c);
        } else {
            assert(symbols[26 + c as int - '0' as int] == c);
        }
    }
}

/// Draws `size` symbols from `alphabet` with `nanoid::format` and the random
/// source `nanoid::rngs::default`. Every symbol of the result is one of the
/// alphabet, and there are `size` of them; which ones is left to chance.
///
/// `nanoid::format` panics on an alphabet of more than 255 symbols, and does
/// not return for an empty alphabet, for a size of zero, or where the symbols
/// handed out never add up to `size` bytes, which a symbol outside ASCII may
/// cause; it multiplies `size` by eight. The random source takes its seed
/// from the operating system and panics where the system gives none: no
/// input decides that, and nothing here rules it out.
#[verifier::external_body]
fn draw(alphabet: &Vec<char>, size: usize) -> (drawn: String)
    requires
        0 < alphabet@.len() <= 255,
        forall|i: int| 0 <= i < alphabet@.len() ==> (#[trigger] alphabet@[i]) <= '\x7f',
        0 < size,
        8 * size <= usize::MAX,
    ensures
        drawn@.len() == size,
        forall|i: int| 0 <= i < drawn@.len() ==> alphabet@.contains(#[trigger] drawn@[i]),
{
    nanoid::format(nanoid::rngs::default, alphabet.as_slice(), size)
}

/// Generates a fresh identity.
pub fn generate() -> (identity: String)
    ensures
        is_identity(identity@),
{
    let alphabet = chars_of(ALPHABET);
    proof {
        lemma_alphabet();
        assert forall|i: int| 0 <= i < alphabet@.len() implies (#[trigger] alphabet@[i])
            <= '\x7f' by {
            assert(is_symbol(alphabet@[i]));
        }
    }
    draw(&alphabet, IDENTITY_LENGTH)
}

} // verus!
