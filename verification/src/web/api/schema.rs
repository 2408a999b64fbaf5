//! The payload that names a hardware address, and its validation.

use vstd::prelude::*;

verus! {

/// Why a payload was refused.
#[derive(Debug, PartialEq, Eq)]
pub struct ValidationError {
    pub code: String,
}

pub open spec fn invalid_mac_text() -> Seq<char> {
    "Invalid MAC address format"@
}

/// Whether `c` is a hexadecimal digit, in either case.
pub open spec fn is_hex_digit(c: char) -> bool {
    ||| '0' <= c <= '9'
    ||| 'a' <= c <= 'f'
    ||| 'A' <= c <= 'F'
}

/// Whether `text` is a hardware address in colon-hex form: 17 characters,
/// of which every third is a colon and every other one a hexadecimal digit.
pub open spec fn is_mac_text(text: Seq<char>) -> bool {
    &&& text.len() == 17
    &&& forall|i: int|
        0 <= i < 17 ==> if i % 3 == 2 {
            #[trigger] text[i] == ':'
        } else {
            is_hex_digit(text[i])
        }
}

fn is_hex(c: char) -> (r: bool)
    ensures
        r == is_hex_digit(c),
{
    (c >= '0' && c <= '9') || (c >= 'a' && c <= 'f') || (c >= 'A' && c <= 'F')
}

/// Accepts `text` if it is a hardware address in colon-hex form.
pub fn validate_mac_address(text: &str) -> (r: Result<(), ValidationError>)
    ensures
        r is Ok <==> is_mac_text(text@),
        r matches Err(e) ==> e.code@ == invalid_mac_text(),
{
    if text.unicode_len() != 17 {
        return Err(ValidationError { code: "Invalid MAC address format".to_owned() });
    }
    let mut i: usize = 0;
    while i < 17
        invariant
            i <= 17,
            text@.len() == 17,
            forall|j: int|
                0 <= j < i ==> if j % 3 == 2 {
                    #[trigger] text@[j] == ':'
                } else {
                    is_hex_digit(text@[j])
                },
        decreases 17 - i,
    {
        let c = text.get_char(i);
        let fits = if i % 3 == 2 {
            c == ':'
        } else {
            is_hex(c)
        };
        if !fits {
            return Err(ValidationError { code: "Invalid MAC address format".to_owned() });
        }
        i = i + 1;
    }
    Ok(())
}

/// What can be checked before it is used.
pub trait Validate {
    /// Whether the value is fit for use.
    spec fn valid(&self) -> bool;

    fn validate(&self) -> (r: Result<(), ValidationError>)
        ensures
            r is Ok <==> self.valid(),
    ;
}

/// A payload that names one hardware address.
#[derive(Debug, PartialEq, Eq)]
pub struct AllowedMacSchema {
    pub mac_address: String,
}

impl Clone for AllowedMacSchema {
    fn clone(&self) -> (r: Self)
        ensures
            r == *self,
    {
        AllowedMacSchema { mac_address: self.mac_address.clone() }
    }
}

impl Validate for AllowedMacSchema {
    open spec fn valid(&self) -> bool {
        is_mac_text(self.mac_address@)
    }

    fn validate(&self) -> (r: Result<(), ValidationError>)
        ensures
            r matches Err(e) ==> e.code@ == invalid_mac_text(),
    {
        validate_mac_address(self.mac_address.as_str())
    }
}

pub type AllowedMacPostResponseSchema = AllowedMacSchema;

pub type AllowedMacPostSchema = AllowedMacSchema;

pub type AllowedMacDeleteSchema = AllowedMacSchema;

} // verus!
