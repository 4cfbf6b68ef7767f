use vstd::prelude::*;

use crate::errors::{FieldError, RecordParseError};
use crate::json::{
    get_text_field, get_u256_field, get_u64_field, lookup_field, spec_text_field, spec_u256_field,
    spec_u64_field, spellings, JsonValue,
};
use crate::numeric::U256;

verus! {

// ---------------------------------------------------------------------------
// Hex text for addresses and digests
// ---------------------------------------------------------------------------

pub open spec fn is_hex_digit(c: char) -> bool {
    (48 <= c as u32 && c as u32 <= 57) || (97 <= c as u32 && c as u32 <= 102) || (65 <= c as u32
        && c as u32 <= 70)
}

pub open spec fn hex_digit_val(c: char) -> nat {
    if 48 <= c as u32 && c as u32 <= 57 {
        (c as u32 - 48) as nat
    } else if 97 <= c as u32 && c as u32 <= 102 {
        (c as u32 - 87) as nat
    } else {
        (c as u32 - 55) as nat
    }
}

/// Canonical hex text for a fixed byte width: `0x`, then exactly two hex
/// digits per byte.
pub open spec fn valid_hex(s: Seq<char>, nbytes: nat) -> bool {
    s.len() == 2 + 2 * nbytes && s[0] == '0' && s[1] == 'x' && (forall|i: int|
        2 <= i < s.len() ==> is_hex_digit(#[trigger] s[i]))
}

/// The bytes such hex text denotes.
pub open spec fn hex_bytes(s: Seq<char>, nbytes: nat) -> Seq<u8> {
    Seq::new(
        nbytes,
        |k: int| (hex_digit_val(s[2 + 2 * k]) * 16 + hex_digit_val(s[3 + 2 * k])) as u8,
    )
}

fn hex_digit(c: char) -> (r: Option<u8>)
    ensures
        match r {
            Some(v) => is_hex_digit(c) && v == hex_digit_val(c),
            None => !is_hex_digit(c),
        },
{
    let code: u32 = c as u32;
    if 48 <= code && code <= 57 {
        Some((code - 48) as u8)
    } else if 97 <= code && code <= 102 {
        Some((code - 87) as u8)
    } else if 65 <= code && code <= 70 {
        Some((code - 55) as u8)
    } else {
        None
    }
}

/// Parses `0x`-prefixed hex text of a fixed byte width; anything else
/// fails with `MalformedHex`.
fn parse_hex_fixed(s: &str, nbytes: usize) -> (r: Result<Vec<u8>, FieldError>)
    requires
        nbytes <= 0xffff,
    ensures
        match r {
            Ok(v) => valid_hex(s@, nbytes as nat) && v@ == hex_bytes(s@, nbytes as nat),
            Err(e) => e == FieldError::MalformedHex && !valid_hex(s@, nbytes as nat),
        },
{
    let n = s.unicode_len();
    if n != 2 + 2 * nbytes {
        return Err(FieldError::MalformedHex);
    }
    if s.get_char(0) != '0' || s.get_char(1) != 'x' {
        return Err(FieldError::MalformedHex);
    }
    let mut out: Vec<u8> = Vec::new();
    let mut k: usize = 0;
    while k < nbytes
        invariant
            n == s@.len(),
            n == 2 + 2 * nbytes,
            nbytes <= 0xffff,
            k <= nbytes,
            s@[0] == '0',
            s@[1] == 'x',
            out@.len() == k,
            forall|j: int|
                0 <= j < k ==> is_hex_digit(#[trigger] s@[2 + 2 * j]) && is_hex_digit(
                    s@[3 + 2 * j],
                ) && out@[j] == (hex_digit_val(s@[2 + 2 * j]) * 16 + hex_digit_val(
                    s@[3 + 2 * j],
                )) as u8,
        decreases nbytes - k,
    {
        let hi = s.get_char(2 + 2 * k);
        let lo = s.get_char(3 + 2 * k);
        let hv = match hex_digit(hi) {
            Some(v) => v,
            None => {
                proof {
                    assert(!is_hex_digit(s@[2 + 2 * k]));
                }
                return Err(FieldError::MalformedHex);
            },
        };
        let lv = match hex_digit(lo) {
            Some(v) => v,
            None => {
                proof {
                    assert(!is_hex_digit(s@[3 + 2 * k]));
                }
                return Err(FieldError::MalformedHex);
            },
        };
        let b: u8 = hv * 16 + lv;
        out.push(b);
        k = k + 1;
    }
    proof {
        assert forall|i: int| 2 <= i < s@.len() implies is_hex_digit(#[trigger] s@[i]) by {
            let j = (i - 2) / 2;
            assert(0 <= j < nbytes);
            assert(is_hex_digit(s@[2 + 2 * j]) && is_hex_digit(s@[3 + 2 * j]));
            if (i - 2) % 2 == 0 {
                assert(i == 2 + 2 * j);
            } else {
                assert(i == 3 + 2 * j);
            }
        }
        assert(valid_hex(s@, nbytes as nat));
        assert(out@ =~= hex_bytes(s@, nbytes as nat));
    }
    Ok(out)
}

/// A 32-byte digest, as transaction and block hashes arrive.
#[derive(Debug)]
pub struct H256 {
    pub bytes: Vec<u8>,
}

impl View for H256 {
    type V = Seq<u8>;

    open spec fn view(&self) -> Seq<u8> {
        self.bytes@
    }
}

impl H256 {
    /// Well-formed: exactly 32 bytes.
    pub open spec fn wf(self) -> bool {
        self.bytes@.len() == 32
    }

    pub fn from_hex_text(s: &str) -> (r: Result<H256, FieldError>)
        ensures
            match r {
                Ok(h) => valid_hex(s@, 32) && h@ == hex_bytes(s@, 32) && h.wf(),
                Err(e) => e == FieldError::MalformedHex && !valid_hex(s@, 32),
            },
    {
        match parse_hex_fixed(s, 32) {
            Ok(v) => Ok(H256 { bytes: v }),
            Err(e) => Err(e),
        }
    }
}

/// A 20-byte account or contract address.
#[derive(Debug)]
pub struct Address {
    pub bytes: Vec<u8>,
}

impl View for Address {
    type V = Seq<u8>;

    open spec fn view(&self) -> Seq<u8> {
        self.bytes@
    }
}

impl Address {
    /// Well-formed: exactly 20 bytes.
    pub open spec fn wf(self) -> bool {
        self.bytes@.len() == 20
    }

    pub fn from_hex_text(s: &str) -> (r: Result<Address, FieldError>)
        ensures
            match r {
                Ok(a) => valid_hex(s@, 20) && a@ == hex_bytes(s@, 20) && a.wf(),
                Err(e) => e == FieldError::MalformedHex && !valid_hex(s@, 20),
            },
    {
        match parse_hex_fixed(s, 20) {
            Ok(v) => Ok(Address { bytes: v }),
            Err(e) => Err(e),
        }
    }
}

/// What a field that holds hex text of a fixed byte width must parse to.
pub open spec fn spec_hex_field(
    entries: Seq<(String, JsonValue)>,
    names: Seq<Seq<char>>,
    nbytes: nat,
) -> Result<Seq<u8>, FieldError> {
    if crate::json::count_matches(entries, names) != 1 {
        Err(FieldError::MissingField)
    } else {
        match crate::json::first_match(entries, names) {
            JsonValue::Text(s) => if valid_hex(s@, nbytes) {
                Ok(hex_bytes(s@, nbytes))
            } else {
                Err(FieldError::MalformedHex)
            },
            _ => Err(FieldError::MalformedHex),
        }
    }
}

fn get_h256_field(entries: &Vec<(String, JsonValue)>, n1: &str, n2: Option<&str>) -> (r: Result<
    H256,
    FieldError,
>)
    ensures
        match r {
            Ok(h) => spec_hex_field(entries@, spellings(n1, n2), 32) == Ok::<Seq<u8>, FieldError>(
                h@,
            ) && h.wf(),
            Err(e) => spec_hex_field(entries@, spellings(n1, n2), 32) == Err::<
                Seq<u8>,
                FieldError,
            >(e),
        },
{
    match lookup_field(entries, n1, n2) {
        None => Err(FieldError::MissingField),
        Some(v) => match v {
            JsonValue::Text(s) => H256::from_hex_text(s.as_str()),
            _ => Err(FieldError::MalformedHex),
        },
    }
}

fn get_address_field(entries: &Vec<(String, JsonValue)>, n1: &str, n2: Option<&str>) -> (r:
    Result<Address, FieldError>)
    ensures
        match r {
            Ok(a) => spec_hex_field(entries@, spellings(n1, n2), 20) == Ok::<Seq<u8>, FieldError>(
                a@,
            ) && a.wf(),
            Err(e) => spec_hex_field(entries@, spellings(n1, n2), 20) == Err::<
                Seq<u8>,
                FieldError,
            >(e),
        },
{
    match lookup_field(entries, n1, n2) {
        None => Err(FieldError::MissingField),
        Some(v) => match v {
            JsonValue::Text(s) => Address::from_hex_text(s.as_str()),
            _ => Err(FieldError::MalformedHex),
        },
    }
}

// ---------------------------------------------------------------------------
// The transfer record
// ---------------------------------------------------------------------------

/// One ERC-20 transfer event, fully typed. `value` stays in raw integer
/// units relative to `token_decimal`; callers scale it themselves.
#[derive(Debug)]
pub struct EtherscanTokenTx {
    pub block_number: u64,
    pub timestamp: u64,
    pub hash: H256,
    pub nonce: u64,
    pub block_hash: H256,
    pub from: Address,
    pub contract_address: Address,
    pub to: Address,
    pub value: U256,
    pub token_name: String,
    pub token_symbol: String,
    pub token_decimal: u64,
    pub transaction_index: u64,
    pub gas: U256,
    pub gas_price: U256,
    pub gas_used: U256,
    pub cumulative_gas_used: U256,
    pub input: String,
    pub confirmations: u64,
}

/// The mathematical content of one record.
pub ghost struct TxView {
    pub block_number: u64,
    pub timestamp: u64,
    pub hash: Seq<u8>,
    pub nonce: u64,
    pub block_hash: Seq<u8>,
    pub from: Seq<u8>,
    pub contract_address: Seq<u8>,
    pub to: Seq<u8>,
    pub value: nat,
    pub token_name: Seq<char>,
    pub token_symbol: Seq<char>,
    pub token_decimal: u64,
    pub transaction_index: u64,
    pub gas: nat,
    pub gas_price: nat,
    pub gas_used: nat,
    pub cumulative_gas_used: nat,
    pub input: Seq<char>,
    pub confirmations: u64,
}

impl View for EtherscanTokenTx {
    type V = TxView;

    open spec fn view(&self) -> TxView {
        TxView {
            block_number: self.block_number,
            timestamp: self.timestamp,
            hash: self.hash@,
            nonce: self.nonce,
            block_hash: self.block_hash@,
            from: self.from@,
            contract_address: self.contract_address@,
            to: self.to@,
            value: self.value.val(),
            token_name: self.token_name@,
            token_symbol: self.token_symbol@,
            token_decimal: self.token_decimal,
            transaction_index: self.transaction_index,
            gas: self.gas.val(),
            gas_price: self.gas_price.val(),
            gas_used: self.gas_used.val(),
            cumulative_gas_used: self.cumulative_gas_used.val(),
            input: self.input@,
            confirmations: self.confirmations,
        }
    }
}

// The per-field parse rules, each under its candidate key spellings.
pub open spec fn f_block_number(es: Seq<(String, JsonValue)>) -> Result<u64, FieldError> {
    spec_u64_field(es, seq!["blockNumber"@, "block_number"@])
}

pub open spec fn f_timestamp(es: Seq<(String, JsonValue)>) -> Result<u64, FieldError> {
    spec_u64_field(es, seq!["timeStamp"@, "timestamp"@])
}

pub open spec fn f_hash(es: Seq<(String, JsonValue)>) -> Result<Seq<u8>, FieldError> {
    spec_hex_field(es, seq!["hash"@], 32)
}

pub open spec fn f_nonce(es: Seq<(String, JsonValue)>) -> Result<u64, FieldError> {
    spec_u64_field(es, seq!["nonce"@])
}

pub open spec fn f_block_hash(es: Seq<(String, JsonValue)>) -> Result<Seq<u8>, FieldError> {
    spec_hex_field(es, seq!["blockHash"@, "block_hash"@], 32)
}

pub open spec fn f_from(es: Seq<(String, JsonValue)>) -> Result<Seq<u8>, FieldError> {
    spec_hex_field(es, seq!["from"@], 20)
}

pub open spec fn f_contract_address(es: Seq<(String, JsonValue)>) -> Result<Seq<u8>, FieldError> {
    spec_hex_field(es, seq!["contractAddress"@, "contract_address"@], 20)
}

pub open spec fn f_to(es: Seq<(String, JsonValue)>) -> Result<Seq<u8>, FieldError> {
    spec_hex_field(es, seq!["to"@], 20)
}

pub open spec fn f_value(es: Seq<(String, JsonValue)>) -> Result<nat, FieldError> {
    spec_u256_field(es, seq!["value"@])
}

pub open spec fn f_token_name(es: Seq<(String, JsonValue)>) -> Result<Seq<char>, FieldError> {
    spec_text_field(es, seq!["tokenName"@, "token_name"@])
}

pub open spec fn f_token_symbol(es: Seq<(String, JsonValue)>) -> Result<Seq<char>, FieldError> {
    spec_text_field(es, seq!["tokenSymbol"@, "token_symbol"@])
}

pub open spec fn f_token_decimal(es: Seq<(String, JsonValue)>) -> Result<u64, FieldError> {
    spec_u64_field(es, seq!["tokenDecimal"@, "token_decimal"@])
}

pub open spec fn f_transaction_index(es: Seq<(String, JsonValue)>) -> Result<u64, FieldError> {
    spec_u64_field(es, seq!["transactionIndex"@, "transaction_index"@])
}

pub open spec fn f_gas(es: Seq<(String, JsonValue)>) -> Result<nat, FieldError> {
    spec_u256_field(es, seq!["gas"@])
}

pub open spec fn f_gas_price(es: Seq<(String, JsonValue)>) -> Result<nat, FieldError> {
    spec_u256_field(es, seq!["gasPrice"@, "gas_price"@])
}

pub open spec fn f_gas_used(es: Seq<(String, JsonValue)>) -> Result<nat, FieldError> {
    spec_u256_field(es, seq!["gasUsed"@, "gas_used"@])
}

pub open spec fn f_cumulative_gas_used(es: Seq<(String, JsonValue)>) -> Result<nat, FieldError> {
    spec_u256_field(es, seq!["cumulativeGasUsed"@, "cumulative_gas_used"@])
}

pub open spec fn f_input(es: Seq<(String, JsonValue)>) -> Result<Seq<char>, FieldError> {
    spec_text_field(es, seq!["input"@])
}

pub open spec fn f_confirmations(es: Seq<(String, JsonValue)>) -> Result<u64, FieldError> {
    spec_u64_field(es, seq!["confirmations"@])
}

pub open spec fn the_err<T>(r: Result<T, FieldError>) -> FieldError {
    match r {
        Ok(_) => FieldError::MissingField,
        Err(e) => e,
    }
}

pub open spec fn ok_u64(r: Result<u64, FieldError>) -> u64 {
    match r {
        Ok(v) => v,
        Err(_) => 0,
    }
}

pub open spec fn ok_nat(r: Result<nat, FieldError>) -> nat {
    match r {
        Ok(v) => v,
        Err(_) => 0,
    }
}

pub open spec fn ok_text(r: Result<Seq<char>, FieldError>) -> Seq<char> {
    match r {
        Ok(v) => v,
        Err(_) => Seq::empty(),
    }
}

pub open spec fn ok_bytes(r: Result<Seq<u8>, FieldError>) -> Seq<u8> {
    match r {
        Ok(v) => v,
        Err(_) => Seq::empty(),
    }
}

/// All nineteen fields of a record parse.
#[verifier::opaque]
pub open spec fn spec_tx_ok(es: Seq<(String, JsonValue)>) -> bool {
    f_block_number(es) is Ok && f_timestamp(es) is Ok && f_hash(es) is Ok && f_nonce(es) is Ok
        && f_block_hash(es) is Ok && f_from(es) is Ok && f_contract_address(es) is Ok && f_to(
        es,
    ) is Ok && f_value(es) is Ok && f_token_name(es) is Ok && f_token_symbol(es) is Ok
        && f_token_decimal(es) is Ok && f_transaction_index(es) is Ok && f_gas(es) is Ok
        && f_gas_price(es) is Ok && f_gas_used(es) is Ok && f_cumulative_gas_used(es) is Ok
        && f_input(es) is Ok && f_confirmations(es) is Ok
}

/// The record a fully parsing object denotes.
#[verifier::opaque]
pub open spec fn spec_tx_view(es: Seq<(String, JsonValue)>) -> TxView {
    TxView {
        block_number: ok_u64(f_block_number(es)),
        timestamp: ok_u64(f_timestamp(es)),
        hash: ok_bytes(f_hash(es)),
        nonce: ok_u64(f_nonce(es)),
        block_hash: ok_bytes(f_block_hash(es)),
        from: ok_bytes(f_from(es)),
        contract_address: ok_bytes(f_contract_address(es)),
        to: ok_bytes(f_to(es)),
        value: ok_nat(f_value(es)),
        token_name: ok_text(f_token_name(es)),
        token_symbol: ok_text(f_token_symbol(es)),
        token_decimal: ok_u64(f_token_decimal(es)),
        transaction_index: ok_u64(f_transaction_index(es)),
        gas: ok_nat(f_gas(es)),
        gas_price: ok_nat(f_gas_price(es)),
        gas_used: ok_nat(f_gas_used(es)),
        cumulative_gas_used: ok_nat(f_cumulative_gas_used(es)),
        input: ok_text(f_input(es)),
        confirmations: ok_u64(f_confirmations(es)),
    }
}

/// The first failing field in declaration order, with its wire name.
#[verifier::opaque]
pub open spec fn spec_tx_first_err(es: Seq<(String, JsonValue)>) -> (Seq<char>, FieldError) {
    if f_block_number(es) is Err {
        ("blockNumber"@, the_err(f_block_number(es)))
    } else if f_timestamp(es) is Err {
        ("timeStamp"@, the_err(f_timestamp(es)))
    } else if f_hash(es) is Err {
        ("hash"@, the_err(f_hash(es)))
    } else if f_nonce(es) is Err {
        ("nonce"@, the_err(f_nonce(es)))
    } else if f_block_hash(es) is Err {
        ("blockHash"@, the_err(f_block_hash(es)))
    } else if f_from(es) is Err {
        ("from"@, the_err(f_from(es)))
    } else if f_contract_address(es) is Err {
        ("contractAddress"@, the_err(f_contract_address(es)))
    } else if f_to(es) is Err {
        ("to"@, the_err(f_to(es)))
    } else if f_value(es) is Err {
        ("value"@, the_err(f_value(es)))
    } else if f_token_name(es) is Err {
        ("tokenName"@, the_err(f_token_name(es)))
    } else if f_token_symbol(es) is Err {
        ("tokenSymbol"@, the_err(f_token_symbol(es)))
    } else if f_token_decimal(es) is Err {
        ("tokenDecimal"@, the_err(f_token_decimal(es)))
    } else if f_transaction_index(es) is Err {
        ("transactionIndex"@, the_err(f_transaction_index(es)))
    } else if f_gas(es) is Err {
        ("gas"@, the_err(f_gas(es)))
    } else if f_gas_price(es) is Err {
        ("gasPrice"@, the_err(f_gas_price(es)))
    } else if f_gas_used(es) is Err {
        ("gasUsed"@, the_err(f_gas_used(es)))
    } else if f_cumulative_gas_used(es) is Err {
        ("cumulativeGasUsed"@, the_err(f_cumulative_gas_used(es)))
    } else if f_input(es) is Err {
        ("input"@, the_err(f_input(es)))
    } else {
        ("confirmations"@, the_err(f_confirmations(es)))
    }
}

/// What parsing one element of `result` yields: the record's content, or
/// the first failing field's wire name and cause. A value that is not an
/// object fails under an empty field name.
pub open spec fn spec_parse_tx(v: JsonValue) -> Result<TxView, (Seq<char>, FieldError)> {
    match v {
        JsonValue::Object(entries) => if spec_tx_ok(entries@) {
            Ok(spec_tx_view(entries@))
        } else {
            Err(spec_tx_first_err(entries@))
        },
        _ => Err((Seq::empty(), FieldError::UnexpectedType)),
    }
}

pub(crate) fn record_err(name: &str, e: FieldError) -> (r: RecordParseError)
    ensures
        r.field@ == name@,
        r.error == e,
{
    RecordParseError { field: name.to_owned(), error: e }
}

/// Parses one transfer object. The whole record fails atomically on its
/// first bad field; no partial records are produced.
#[verifier::rlimit(100)]
pub fn parse_token_tx(v: &JsonValue) -> (r: Result<EtherscanTokenTx, RecordParseError>)
    ensures
        match r {
            Ok(tx) => spec_parse_tx(*v) == Ok::<TxView, (Seq<char>, FieldError)>(tx@),
            Err(e) => spec_parse_tx(*v) matches Err(p) && p.0 == e.field@ && p.1 == e.error,
        },
{
    let entries = match v {
        JsonValue::Object(es) => es,
        _ => {
            return Err(RecordParseError { field: String::new(), error: FieldError::UnexpectedType });
        },
    };
    let block_number = match get_u64_field(entries, "blockNumber", Some("block_number")) {
        Ok(x) => x,
        Err(e) => {
            proof {
                assert(!spec_tx_ok(entries@)) by {
                    reveal(spec_tx_ok);
                }
                assert(spec_tx_first_err(entries@) == ("blockNumber"@, e)) by {
                    reveal(spec_tx_first_err);
                }
            }
            return Err(record_err("blockNumber", e));
        },
    };
    let timestamp = match get_u64_field(entries, "timeStamp", Some("timestamp")) {
        Ok(x) => x,
        Err(e) => {
            proof {
                assert(!spec_tx_ok(entries@)) by {
                    reveal(spec_tx_ok);
                }
                assert(spec_tx_first_err(entries@) == ("timeStamp"@, e)) by {
                    reveal(spec_tx_first_err);
                }
            }
            return Err(record_err("timeStamp", e));
        },
    };
    let hash = match get_h256_field(entries, "hash", None) {
        Ok(x) => x,
        Err(e) => {
            proof {
                assert(!spec_tx_ok(entries@)) by {
                    reveal(spec_tx_ok);
                }
                assert(spec_tx_first_err(entries@) == ("hash"@, e)) by {
                    reveal(spec_tx_first_err);
                }
            }
            return Err(record_err("hash", e));
        },
    };
    let nonce = match get_u64_field(entries, "nonce", None) {
        Ok(x) => x,
        Err(e) => {
            proof {
                assert(!spec_tx_ok(entries@)) by {
                    reveal(spec_tx_ok);
                }
                assert(spec_tx_first_err(entries@) == ("nonce"@, e)) by {
                    reveal(spec_tx_first_err);
                }
            }
            return Err(record_err("nonce", e));
        },
    };
    let block_hash = match get_h256_field(entries, "blockHash", Some("block_hash")) {
        Ok(x) => x,
        Err(e) => {
            proof {
                assert(!spec_tx_ok(entries@)) by {
                    reveal(spec_tx_ok);
                }
                assert(spec_tx_first_err(entries@) == ("blockHash"@, e)) by {
                    reveal(spec_tx_first_err);
                }
            }
            return Err(record_err("blockHash", e));
        },
    };
    let from = match get_address_field(entries, "from", None) {
        Ok(x) => x,
        Err(e) => {
            proof {
                assert(!spec_tx_ok(entries@)) by {
                    reveal(spec_tx_ok);
                }
                assert(spec_tx_first_err(entries@) == ("from"@, e)) by {
                    reveal(spec_tx_first_err);
                }
            }
            return Err(record_err("from", e));
        },
    };
    let contract_address = match get_address_field(
        entries,
        "contractAddress",
        Some("contract_address"),
    ) {
        Ok(x) => x,
        Err(e) => {
            proof {
                assert(!spec_tx_ok(entries@)) by {
                    reveal(spec_tx_ok);
                }
                assert(spec_tx_first_err(entries@) == ("contractAddress"@, e)) by {
                    reveal(spec_tx_first_err);
                }
            }
            return Err(record_err("contractAddress", e));
        },
    };
    let to = match get_address_field(entries, "to", None) {
        Ok(x) => x,
        Err(e) => {
            proof {
                assert(!spec_tx_ok(entries@)) by {
                    reveal(spec_tx_ok);
                }
                assert(spec_tx_first_err(entries@) == ("to"@, e)) by {
                    reveal(spec_tx_first_err);
                }
            }
            return Err(record_err("to", e));
        },
    };
    let value = match get_u256_field(entries, "value", None) {
        Ok(x) => x,
        Err(e) => {
            proof {
                assert(!spec_tx_ok(entries@)) by {
                    reveal(spec_tx_ok);
                }
                assert(spec_tx_first_err(entries@) == ("value"@, e)) by {
                    reveal(spec_tx_first_err);
                }
            }
            return Err(record_err("value", e));
        },
    };
    let token_name = match get_text_field(entries, "tokenName", Some("token_name")) {
        Ok(x) => x,
        Err(e) => {
            proof {
                assert(!spec_tx_ok(entries@)) by {
                    reveal(spec_tx_ok);
                }
                assert(spec_tx_first_err(entries@) == ("tokenName"@, e)) by {
                    reveal(spec_tx_first_err);
                }
            }
            return Err(record_err("tokenName", e));
        },
    };
    let token_symbol = match get_text_field(entries, "tokenSymbol", Some("token_symbol")) {
        Ok(x) => x,
        Err(e) => {
            proof {
                assert(!spec_tx_ok(entries@)) by {
                    reveal(spec_tx_ok);
                }
                assert(spec_tx_first_err(entries@) == ("tokenSymbol"@, e)) by {
                    reveal(spec_tx_first_err);
                }
            }
            return Err(record_err("tokenSymbol", e));
        },
    };
    let token_decimal = match get_u64_field(entries, "tokenDecimal", Some("token_decimal")) {
        Ok(x) => x,
        Err(e) => {
            proof {
                assert(!spec_tx_ok(entries@)) by {
                    reveal(spec_tx_ok);
                }
                assert(spec_tx_first_err(entries@) == ("tokenDecimal"@, e)) by {
                    reveal(spec_tx_first_err);
                }
            }
            return Err(record_err("tokenDecimal", e));
        },
    };
    let transaction_index = match get_u64_field(
        entries,
        "transactionIndex",
        Some("transaction_index"),
    ) {
        Ok(x) => x,
        Err(e) => {
            proof {
                assert(!spec_tx_ok(entries@)) by {
                    reveal(spec_tx_ok);
                }
                assert(spec_tx_first_err(entries@) == ("transactionIndex"@, e)) by {
                    reveal(spec_tx_first_err);
                }
            }
            return Err(record_err("transactionIndex", e));
        },
    };
    let gas = match get_u256_field(entries, "gas", None) {
        Ok(x) => x,
        Err(e) => {
            proof {
                assert(!spec_tx_ok(entries@)) by {
                    reveal(spec_tx_ok);
                }
                assert(spec_tx_first_err(entries@) == ("gas"@, e)) by {
                    reveal(spec_tx_first_err);
                }
            }
            return Err(record_err("gas", e));
        },
    };
    let gas_price = match get_u256_field(entries, "gasPrice", Some("gas_price")) {
        Ok(x) => x,
        Err(e) => {
            proof {
                assert(!spec_tx_ok(entries@)) by {
                    reveal(spec_tx_ok);
                }
                assert(spec_tx_first_err(entries@) == ("gasPrice"@, e)) by {
                    reveal(spec_tx_first_err);
                }
            }
            return Err(record_err("gasPrice", e));
        },
    };
    let gas_used = match get_u256_field(entries, "gasUsed", Some("gas_used")) {
        Ok(x) => x,
        Err(e) => {
            proof {
                assert(!spec_tx_ok(entries@)) by {
                    reveal(spec_tx_ok);
                }
                assert(spec_tx_first_err(entries@) == ("gasUsed"@, e)) by {
                    reveal(spec_tx_first_err);
                }
            }
            return Err(record_err("gasUsed", e));
        },
    };
    let cumulative_gas_used = match get_u256_field(
        entries,
        "cumulativeGasUsed",
        Some("cumulative_gas_used"),
    ) {
        Ok(x) => x,
        Err(e) => {
            proof {
                assert(!spec_tx_ok(entries@)) by {
                    reveal(spec_tx_ok);
                }
                assert(spec_tx_first_err(entries@) == ("cumulativeGasUsed"@, e)) by {
                    reveal(spec_tx_first_err);
                }
            }
            return Err(record_err("cumulativeGasUsed", e));
        },
    };
    let input = match get_text_field(entries, "input", None) {
        Ok(x) => x,
        Err(e) => {
            proof {
                assert(!spec_tx_ok(entries@)) by {
                    reveal(spec_tx_ok);
                }
                assert(spec_tx_first_err(entries@) == ("input"@, e)) by {
                    reveal(spec_tx_first_err);
                }
            }
            return Err(record_err("input", e));
        },
    };
    let confirmations = match get_u64_field(entries, "confirmations", None) {
        Ok(x) => x,
        Err(e) => {
            proof {
                assert(!spec_tx_ok(entries@)) by {
                    reveal(spec_tx_ok);
                }
                assert(spec_tx_first_err(entries@) == ("confirmations"@, e)) by {
                    reveal(spec_tx_first_err);
                }
            }
            return Err(record_err("confirmations", e));
        },
    };
    let tx = EtherscanTokenTx {
        block_number,
        timestamp,
        hash,
        nonce,
        block_hash,
        from,
        contract_address,
        to,
        value,
        token_name,
        token_symbol,
        token_decimal,
        transaction_index,
        gas,
        gas_price,
        gas_used,
        cumulative_gas_used,
        input,
        confirmations,
    };
    proof {
        assert(spec_tx_ok(entries@)) by {
            reveal(spec_tx_ok);
        }
        assert(spec_tx_view(entries@) == tx@) by {
            reveal(spec_tx_view);
        }
    }
    Ok(tx)
}

} // verus!
