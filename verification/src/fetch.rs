use vstd::prelude::*;

use crate::envelope::{
    matches_failure, parse_envelope, spec_parse_envelope, EtherscanTokenTxList,
};
use crate::errors::{EnvelopeError, FetchError};
use crate::json::JsonValue;
use crate::record::Address;
use crate::text::push_char;

verus! {

/// The transport failed; every cause (timeout, connection, bad status)
/// collapses into this one value, and there is no retry.
#[derive(Clone, Copy, Debug, PartialEq, Eq, Structural)]
pub struct TransportFailure;

/// The lower-case hex digit of a value below sixteen.
pub open spec fn hex_char_of(d: nat) -> char {
    if d == 0 {
        '0'
    } else if d == 1 {
        '1'
    } else if d == 2 {
        '2'
    } else if d == 3 {
        '3'
    } else if d == 4 {
        '4'
    } else if d == 5 {
        '5'
    } else if d == 6 {
        '6'
    } else if d == 7 {
        '7'
    } else if d == 8 {
        '8'
    } else if d == 9 {
        '9'
    } else if d == 10 {
        'a'
    } else if d == 11 {
        'b'
    } else if d == 12 {
        'c'
    } else if d == 13 {
        'd'
    } else if d == 14 {
        'e'
    } else {
        'f'
    }
}

/// Bytes rendered as lower-case hex, two digits per byte.
pub open spec fn lower_hex_text(bs: Seq<u8>) -> Seq<char> {
    Seq::new(
        2 * bs.len(),
        |i: int|
            if i % 2 == 0 {
                hex_char_of((bs[i / 2] / 16) as nat)
            } else {
                hex_char_of((bs[i / 2] % 16) as nat)
            },
    )
}

/// The bit-exact query URL: fixed module and action, the address as
/// lower-case `0x` hex, the block range from genesis to an effectively
/// unbounded upper bound, ascending order, and the credential.
pub open spec fn spec_request_url(address: Seq<u8>, api_key: Seq<char>) -> Seq<char> {
    "https://api.etherscan.io/api?module=account&action=tokentx&address=0x"@ + lower_hex_text(
        address,
    ) + "&startBlock=0&endBlock=999999999&sort=asc&apiKey="@ + api_key
}

fn hex_char_exec(d: u8) -> (c: char)
    requires
        d < 16,
    ensures
        c == hex_char_of(d as nat),
{
    if d == 0 {
        '0'
    } else if d == 1 {
        '1'
    } else if d == 2 {
        '2'
    } else if d == 3 {
        '3'
    } else if d == 4 {
        '4'
    } else if d == 5 {
        '5'
    } else if d == 6 {
        '6'
    } else if d == 7 {
        '7'
    } else if d == 8 {
        '8'
    } else if d == 9 {
        '9'
    } else if d == 10 {
        'a'
    } else if d == 11 {
        'b'
    } else if d == 12 {
        'c'
    } else if d == 13 {
        'd'
    } else if d == 14 {
        'e'
    } else {
        'f'
    }
}

/// Builds the fully specified explorer query for an address.
#[verifier::loop_isolation(false)]
pub fn etherscan_request_url(address: &Address, api_key: &str) -> (url: String)
    ensures
        url@ == spec_request_url(address@, api_key@),
{
    let mut url =
        "https://api.etherscan.io/api?module=account&action=tokentx&address=0x".to_owned();
    let ghost prefix = url@;
    let n = address.bytes.len();
    let mut i: usize = 0;
    while i < n
        invariant
            i <= n,
            url@ == prefix + lower_hex_text(address@.subrange(0, i as int)),
        decreases n - i,
    {
        let b = address.bytes[i];
        push_char(&mut url, hex_char_exec(b / 16));
        push_char(&mut url, hex_char_exec(b % 16));
        proof {
            assert(lower_hex_text(address@.subrange(0, i + 1)) =~= lower_hex_text(
                address@.subrange(0, i as int),
            ).push(hex_char_of((address@[i as int] / 16) as nat)).push(
                hex_char_of((address@[i as int] % 16) as nat),
            ));
            assert(url@ =~= prefix + lower_hex_text(address@.subrange(0, i + 1)));
        }
        i = i + 1;
    }
    proof {
        assert(address@.subrange(0, n as int) =~= address@);
    }
    url.append("&startBlock=0&endBlock=999999999&sort=asc&apiKey=");
    url.append(api_key);
    proof {
        assert(url@ =~= spec_request_url(address@, api_key@));
    }
    url
}

/// The `Requesting` step: a missing credential fails the fetch before any
/// network activity; otherwise the query URL is fully determined.
pub fn begin_fetch(api_key: Option<&str>, address: &Address) -> (r: Result<String, FetchError>)
    ensures
        match r {
            Ok(url) => api_key matches Some(k) && url@ == spec_request_url(address@, k@),
            Err(e) => e == FetchError::ConfigMissing && api_key is None,
        },
{
    match api_key {
        None => Err(FetchError::ConfigMissing),
        Some(k) => Ok(etherscan_request_url(address, k)),
    }
}

/// The transport outcome: any failure collapses to `TransportError`;
/// success hands the body through unchanged.
pub fn accept_transport(outcome: Result<String, TransportFailure>) -> (r: Result<
    String,
    FetchError,
>)
    ensures
        match r {
            Ok(body) => outcome matches Ok(b) && body == b,
            Err(e) => e == FetchError::TransportError && outcome is Err,
        },
{
    match outcome {
        Ok(b) => Ok(b),
        Err(_) => Err(FetchError::TransportError),
    }
}

/// The `ParsingEnvelope` step: a body that was not JSON at all, or an
/// envelope that fails to parse, fails the whole fetch; success yields
/// the record list, discarding status and message.
pub fn parse_transactions(doc: Option<JsonValue>) -> (r: Result<EtherscanTokenTxList, FetchError>)
    ensures
        match doc {
            None => r == Err::<EtherscanTokenTxList, FetchError>(
                FetchError::ParseError(EnvelopeError::MalformedJson),
            ),
            Some(v) => match spec_parse_envelope(v) {
                Ok(ev) => r matches Ok(list) && list@ == ev.result,
                Err(f) => r matches Err(e) && (e matches FetchError::ParseError(pe)
                    && matches_failure(pe, f)),
            },
        },
{
    match doc {
        None => Err(FetchError::ParseError(EnvelopeError::MalformedJson)),
        Some(v) => match parse_envelope(&v) {
            Ok(env) => Ok(EtherscanTokenTxList(env.result)),
            Err(e) => Err(FetchError::ParseError(e)),
        },
    }
}

} // verus!
