//! The three operations on the allowlist, from payload to answer.

use vstd::prelude::*;
use crate::address::{hex_digit, hex_pair, mac_addr_from_str, mac_text, MacAddress};
use crate::repositories::allowed_mac::AllowedMacRepository;
use crate::web::api::schema::{
    is_hex_digit, is_mac_text, AllowedMacDeleteSchema, AllowedMacPostResponseSchema,
    AllowedMacPostSchema, AllowedMacSchema, Validate,
};

verus! {

/// The status of an answer.
#[derive(Clone, Copy, Debug, PartialEq, Eq, Structural)]
pub enum StatusCode {
    Success,
    Created,
    NoContent,
    BadRequest,
    InternalServerError,
}

impl StatusCode {
    /// The status as a number.
    pub open spec fn code(self) -> u16 {
        match self {
            StatusCode::Success => 200,
            StatusCode::Created => 201,
            StatusCode::NoContent => 204,
            StatusCode::BadRequest => 400,
            StatusCode::InternalServerError => 500,
        }
    }

    pub fn as_u16(&self) -> (r: u16)
        ensures
            r == self.code(),
    {
        match self {
            StatusCode::Success => 200,
            StatusCode::Created => 201,
            StatusCode::NoContent => 204,
            StatusCode::BadRequest => 400,
            StatusCode::InternalServerError => 500,
        }
    }
}

pub open spec fn json_parse_error_text() -> Seq<char> {
    "Json parse error."@
}

pub open spec fn invalid_schema_text() -> Seq<char> {
    "Invalid schema"@
}

/// A payload that was decoded and found valid.
#[derive(Debug)]
pub struct ValidatedJson<T>(pub T);

impl<T: Validate> ValidatedJson<T> {
    /// Accepts a request's payload. `decoded` is the payload if the request
    /// body could be decoded, and nothing otherwise. A body that could not
    /// be decoded and a payload that is not valid are both refused as a bad
    /// request, each with its own text.
    pub fn from_request(decoded: Option<T>) -> (r: Result<Self, (StatusCode, String)>)
        ensures
            match r {
                Ok(accepted) => decoded == Some(accepted.0) && accepted.0.valid(),
                Err((status, text)) => {
                    &&& status == StatusCode::BadRequest
                    &&& match decoded {
                        None => text@ == json_parse_error_text(),
                        Some(value) => !value.valid() && text@ == invalid_schema_text(),
                    }
                },
            },
    {
        match decoded {
            None => Err((StatusCode::BadRequest, "Json parse error.".to_owned())),
            Some(value) => {
                match value.validate() {
                    Ok(()) => Ok(ValidatedJson(value)),
                    Err(_) => Err((StatusCode::BadRequest, "Invalid schema".to_owned())),
                }
            },
        }
    }
}

/// What adding the address read from a payload comes to. A payload that
/// names no address is a bad request. An address is added and written back
/// in colon-hex form; if the allowlist fails, it stays as it was.
pub open spec fn added(
    r: Result<(StatusCode, AllowedMacPostResponseSchema), StatusCode>,
    parsed: Option<MacAddress>,
    infallible: bool,
    before: Set<MacAddress>,
    after: Set<MacAddress>,
) -> bool {
    match parsed {
        None => r == Err::<(StatusCode, AllowedMacPostResponseSchema), StatusCode>(
            StatusCode::BadRequest,
        ) && after == before,
        Some(addr) => match r {
            Ok((status, body)) => {
                &&& status == StatusCode::Created
                &&& body.mac_address@ == mac_text(addr)
                &&& after == before.insert(addr)
            },
            Err(status) => status == StatusCode::InternalServerError && after == before
                && !infallible,
        },
    }
}

/// What deleting the address read from a payload comes to. A payload that
/// names no address is a bad request. An address is removed, whether it was
/// allowed or not; if the allowlist fails, it stays as it was.
pub open spec fn deleted(
    r: Result<StatusCode, StatusCode>,
    parsed: Option<MacAddress>,
    infallible: bool,
    before: Set<MacAddress>,
    after: Set<MacAddress>,
) -> bool {
    match parsed {
        None => r == Err::<StatusCode, StatusCode>(StatusCode::BadRequest) && after == before,
        Some(addr) => match r {
            Ok(status) => status == StatusCode::NoContent && after == before.remove(addr),
            Err(status) => status == StatusCode::InternalServerError && after == before
                && !infallible,
        },
    }
}

/// `texts` are the addresses of `list`, in order, in colon-hex form.
pub open spec fn written(texts: Seq<String>, list: Seq<MacAddress>) -> bool {
    &&& texts.len() == list.len()
    &&& forall|i: int| 0 <= i < texts.len() ==> (#[trigger] texts[i])@ == mac_text(list[i])
}

/// `texts` show the set `macs`: every address once, in colon-hex form.
pub open spec fn shows(texts: Seq<String>, macs: Set<MacAddress>) -> bool {
    exists|list: Seq<MacAddress>|
        list.no_duplicates() && list.to_set() == macs && #[trigger] written(texts, list)
}

/// An address written in colon-hex form is a valid payload: what the
/// operations answer with, they accept.
pub proof fn lemma_written_address_is_valid(addr: MacAddress)
    ensures
        is_mac_text(mac_text(addr)),
{
    let text = mac_text(addr);
    assert forall|n: int| 0 <= n < 16 implies is_hex_digit(#[trigger] hex_digit(n)) by {}
    assert forall|b: u8|
        is_hex_digit((#[trigger] hex_pair(b))[0]) && is_hex_digit(hex_pair(b)[1]) by {
        assert(is_hex_digit(hex_digit(b as int / 16)));
        assert(is_hex_digit(hex_digit(b as int % 16)));
    }
    assert(text.len() == 17);
    assert forall|i: int| 0 <= i < 17 implies if i % 3 == 2 {
        #[trigger] text[i] == ':'
    } else {
        is_hex_digit(text[i])
    } by {
        let parts = seq![addr.0, addr.1, addr.2, addr.3, addr.4, addr.5];
        if i % 3 != 2 {
            assert(text[i] == hex_pair(parts[i / 3])[i % 3]);
        }
    }
}

/// Adds the address that a payload names to the allowlist.
pub fn add_allowedmac<M: AllowedMacRepository>(
    allowedmac_repo: &mut M,
    payload: &ValidatedJson<AllowedMacPostSchema>,
) -> (r: Result<(StatusCode, AllowedMacPostResponseSchema), StatusCode>)
    requires
        old(allowedmac_repo).well_formed(),
    ensures
        final(allowedmac_repo).well_formed(),
        final(allowedmac_repo).infallible() == old(allowedmac_repo).infallible(),
        added(
            r,
            mac_addr_from_str(payload.0.mac_address@),
            old(allowedmac_repo).infallible(),
            old(allowedmac_repo).macs(),
            final(allowedmac_repo).macs(),
        ),
{
    let parsed = MacAddress::from_text(payload.0.mac_address.as_str());
    add_parsed(allowedmac_repo, parsed)
}

/// Adds an address that was read from a payload, or refuses the payload if
/// no address could be read.
pub fn add_parsed<M: AllowedMacRepository>(allowedmac_repo: &mut M, parsed: Option<MacAddress>) -> (r:
    Result<(StatusCode, AllowedMacPostResponseSchema), StatusCode>)
    requires
        old(allowedmac_repo).well_formed(),
    ensures
        final(allowedmac_repo).well_formed(),
        final(allowedmac_repo).infallible() == old(allowedmac_repo).infallible(),
        added(
            r,
            parsed,
            old(allowedmac_repo).infallible(),
            old(allowedmac_repo).macs(),
            final(allowedmac_repo).macs(),
        ),
{
    let addr = match parsed {
        Some(addr) => addr,
        None => {
            return Err(StatusCode::BadRequest);
        },
    };
    match allowedmac_repo.add(addr) {
        Ok(created_addr) => Ok(
            (StatusCode::Created, AllowedMacSchema { mac_address: created_addr.to_text() }),
        ),
        Err(_) => Err(StatusCode::InternalServerError),
    }
}

/// Lists the allowlist in colon-hex form.
pub fn all_allowedmac<M: AllowedMacRepository>(allowedmac_repo: &M) -> (r: Result<
    (StatusCode, Vec<String>),
    StatusCode,
>)
    requires
        allowedmac_repo.well_formed(),
    ensures
        allowedmac_repo.infallible() ==> r is Ok,
        match r {
            Ok((status, texts)) => status == StatusCode::Success && shows(
                texts@,
                allowedmac_repo.macs(),
            ),
            Err(status) => status == StatusCode::InternalServerError,
        },
{
    match allowedmac_repo.getall() {
        Ok(addrs) => {
            let mut addrs_str: Vec<String> = Vec::new();
            let n: usize = addrs.len();
            let mut i: usize = 0;
            while i < n
                invariant
                    i <= n,
                    n == addrs@.len(),
                    written(addrs_str@, addrs@.subrange(0, i as int)),
                decreases n - i,
            {
                let addr: MacAddress = addrs[i];
                addrs_str.push(addr.to_text());
                i = i + 1;
            }
            proof {
                assert(addrs@.subrange(0, n as int) =~= addrs@);
                assert(addrs@.no_duplicates() && addrs@.to_set() == allowedmac_repo.macs()
                    && written(addrs_str@, addrs@));
            }
            Ok((StatusCode::Success, addrs_str))
        },
        Err(_) => Err(StatusCode::InternalServerError),
    }
}

/// Removes the address that a payload names from the allowlist.
pub fn delete_allowedmac<M: AllowedMacRepository>(
    allowedmac_repo: &mut M,
    payload: &ValidatedJson<AllowedMacDeleteSchema>,
) -> (r: Result<StatusCode, StatusCode>)
    requires
        old(allowedmac_repo).well_formed(),
    ensures
        final(allowedmac_repo).well_formed(),
        final(allowedmac_repo).infallible() == old(allowedmac_repo).infallible(),
        deleted(
            r,
            mac_addr_from_str(payload.0.mac_address@),
            old(allowedmac_repo).infallible(),
            old(allowedmac_repo).macs(),
            final(allowedmac_repo).macs(),
        ),
{
    let parsed = MacAddress::from_text(payload.0.mac_address.as_str());
    delete_parsed(allowedmac_repo, parsed)
}

/// Removes an address that was read from a payload, or refuses the payload
/// if no address could be read.
pub fn delete_parsed<M: AllowedMacRepository>(
    allowedmac_repo: &mut M,
    parsed: Option<MacAddress>,
) -> (r: Result<StatusCode, StatusCode>)
    requires
        old(allowedmac_repo).well_formed(),
    ensures
        final(allowedmac_repo).well_formed(),
        final(allowedmac_repo).infallible() == old(allowedmac_repo).infallible(),
        deleted(
            r,
            parsed,
            old(allowedmac_repo).infallible(),
            old(allowedmac_repo).macs(),
            final(allowedmac_repo).macs(),
        ),
{
    let addr = match parsed {
        Some(addr) => addr,
        None => {
            return Err(StatusCode::BadRequest);
        },
    };
    match allowedmac_repo.remove(&addr) {
        Ok(()) => Ok(StatusCode::NoContent),
        Err(_) => Err(StatusCode::InternalServerError),
    }
}

} // verus!
