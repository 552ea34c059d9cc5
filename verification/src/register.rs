//! The register resolver: from a register token to its four-bit index.

use crate::error::AsmError;
use crate::text::digit_value;
use vstd::prelude::*;

verus! {

/// The letter that starts a register token, in either case.
pub open spec fn is_register_letter(c: char) -> bool {
    c == 'R' || c == 'r'
}

/// The index that a token names: the letter `R` in either case, followed by
/// one of the numbers 0 to 15 written in decimal without a leading zero.
pub open spec fn register_index(token: Seq<char>) -> Option<u16> {
    if token.len() == 2 && is_register_letter(token[0]) && '0' <= token[1] <= '9' {
        Some(digit_value(token[1]) as u16)
    } else if token.len() == 3 && is_register_letter(token[0]) && token[1] == '1' && '0'
        <= token[2] <= '5' {
        Some((10 + digit_value(token[2])) as u16)
    } else {
        None
    }
}

/// The token of register `index` that starts with the given letter: the
/// letter and the index in decimal.
pub open spec fn register_token(letter: char, index: u16) -> Seq<char> {
    if index < 10 {
        seq![letter, (('0' as u16) + index) as char]
    } else {
        seq![letter, '1', (('0' as u16) + index - 10) as char]
    }
}

/// A token names register `index` exactly if `index` is one of 0 to 15 and
/// the token is `R` or `r` followed by the index in decimal. So each of the
/// thirty-two tokens `R0` to `R15` and `r0` to `r15` names its own register,
/// and no other token names any.
pub proof fn lemma_register_tokens(token: Seq<char>, index: u16)
    ensures
        register_index(token) == Some(index) <==> index < 16 && (token == register_token(
            'R',
            index,
        ) || token == register_token('r', index)),
{
    if index < 16 {
        let upper = register_token('R', index);
        let lower = register_token('r', index);
        assert(register_index(upper) == Some(index));
        assert(register_index(lower) == Some(index));
    }
    if register_index(token) == Some(index) {
        assert(index < 16);
        assert(token =~= register_token(token[0], index));
    }
}

/// Resolves a register token to its index.
#[allow(non_snake_case)]
pub fn loadRegister(element: &String) -> (result: Result<u16, AsmError>)
    ensures
        result == match register_index(element@) {
            Some(index) => Ok::<u16, AsmError>(index),
            None => Err::<u16, AsmError>(AsmError::InvalidRegister),
        },
{
    let token = element.as_str();
    let len: usize = token.unicode_len();
    if len == 2 {
        let letter: char = token.get_char(0);
        let digit: char = token.get_char(1);
        if (letter == 'R' || letter == 'r') && '0' <= digit && digit <= '9' {
            return Ok((digit as u8 - 48u8) as u16);
        }
    } else if len == 3 {
        let letter: char = token.get_char(0);
        let tens: char = token.get_char(1);
        let units: char = token.get_char(2);
        if (letter == 'R' || letter == 'r') && tens == '1' && '0' <= units && units <= '5' {
            return Ok(10 + (units as u8 - 48u8) as u16);
        }
    }
    Err(AsmError::InvalidRegister)
}

} // verus!
