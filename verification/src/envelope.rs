use vstd::prelude::*;

use crate::errors::{EnvelopeError, FieldError, RecordParseError};
use crate::json::{
    get_text_field, get_u64_field, lookup_field, spec_array_field, spec_text_field,
    spec_u64_field, JsonValue,
};
use crate::record::{
    ok_text, ok_u64, parse_token_tx, record_err, spec_parse_tx, the_err, EtherscanTokenTx, TxView,
};

verus! {

use vstd::arithmetic::div_mod::{lemma_add_mod_noop, lemma_small_mod};

// ---------------------------------------------------------------------------
// The response envelope
// ---------------------------------------------------------------------------

pub open spec fn f_status(es: Seq<(String, JsonValue)>) -> Result<u64, FieldError> {
    spec_u64_field(es, seq!["status"@])
}

pub open spec fn f_message(es: Seq<(String, JsonValue)>) -> Result<Seq<char>, FieldError> {
    spec_text_field(es, seq!["message"@])
}

pub open spec fn f_result(es: Seq<(String, JsonValue)>) -> Result<Seq<JsonValue>, FieldError> {
    spec_array_field(es, seq!["result"@])
}

pub open spec fn ok_arr(r: Result<Seq<JsonValue>, FieldError>) -> Seq<JsonValue> {
    match r {
        Ok(v) => v,
        Err(_) => Seq::empty(),
    }
}

/// Element-wise parsing of `result`: every record, or the first failure
/// together with its index. There is no partial list.
pub open spec fn spec_parse_records(elems: Seq<JsonValue>) -> Result<
    Seq<TxView>,
    (int, Seq<char>, FieldError),
>
    decreases elems.len(),
{
    if elems.len() == 0 {
        Ok(Seq::empty())
    } else {
        match spec_parse_tx(elems.first()) {
            Err(p) => Err((0, p.0, p.1)),
            Ok(tv) => match spec_parse_records(elems.drop_first()) {
                Err(q) => Err((q.0 + 1, q.1, q.2)),
                Ok(rest) => Ok(seq![tv] + rest),
            },
        }
    }
}

/// The mathematical content of a parsed envelope.
pub ghost struct EnvelopeView {
    pub status: u64,
    pub message: Seq<char>,
    pub result: Seq<TxView>,
}

/// Why an envelope fails to parse.
pub ghost enum EnvelopeFailure {
    NotObject,
    EnvelopeField { field: Seq<char>, error: FieldError },
    RecordField { index: int, field: Seq<char>, error: FieldError },
}

/// What parsing a whole response document yields. The `status` content is
/// not judged against any success value; that policy belongs to callers.
pub open spec fn spec_parse_envelope(v: JsonValue) -> Result<EnvelopeView, EnvelopeFailure> {
    match v {
        JsonValue::Object(entries) => {
            let es = entries@;
            if f_status(es) is Err {
                Err(EnvelopeFailure::EnvelopeField { field: "status"@, error: the_err(f_status(es)) })
            } else if f_message(es) is Err {
                Err(
                    EnvelopeFailure::EnvelopeField {
                        field: "message"@,
                        error: the_err(f_message(es)),
                    },
                )
            } else if f_result(es) is Err {
                Err(
                    EnvelopeFailure::EnvelopeField {
                        field: "result"@,
                        error: the_err(f_result(es)),
                    },
                )
            } else {
                match spec_parse_records(ok_arr(f_result(es))) {
                    Err(q) => Err(
                        EnvelopeFailure::RecordField { index: q.0, field: q.1, error: q.2 },
                    ),
                    Ok(tvs) => Ok(
                        EnvelopeView {
                            status: ok_u64(f_status(es)),
                            message: ok_text(f_message(es)),
                            result: tvs,
                        },
                    ),
                }
            }
        },
        _ => Err(EnvelopeFailure::NotObject),
    }
}

/// Does an executable envelope error report exactly the failure the
/// specification names?
pub open spec fn matches_failure(e: EnvelopeError, f: EnvelopeFailure) -> bool {
    match (e, f) {
        (EnvelopeError::UnexpectedShape, EnvelopeFailure::NotObject) => true,
        (
            EnvelopeError::Envelope(rpe),
            EnvelopeFailure::EnvelopeField { field, error },
        ) => rpe.field@ == field && rpe.error == error,
        (
            EnvelopeError::Record(i, rpe),
            EnvelopeFailure::RecordField { index, field, error },
        ) => i == index && rpe.field@ == field && rpe.error == error,
        _ => false,
    }
}

/// The transient top-level response shape: status, message, record list.
#[derive(Debug)]
pub struct EtherscanTokenResponse {
    pub status: u64,
    pub message: String,
    pub result: Vec<EtherscanTokenTx>,
}

pub open spec fn views_of(s: Seq<EtherscanTokenTx>) -> Seq<TxView> {
    s.map_values(|t: EtherscanTokenTx| t@)
}

impl View for EtherscanTokenResponse {
    type V = EnvelopeView;

    open spec fn view(&self) -> EnvelopeView {
        EnvelopeView {
            status: self.status,
            message: self.message@,
            result: views_of(self.result@),
        }
    }
}

/// Parses a response document into the envelope, all-or-nothing: one bad
/// record, or one bad envelope field, fails the whole parse.
#[verifier::loop_isolation(false)]
pub fn parse_envelope(v: &JsonValue) -> (r: Result<EtherscanTokenResponse, EnvelopeError>)
    ensures
        match r {
            Ok(env) => spec_parse_envelope(*v) == Ok::<EnvelopeView, EnvelopeFailure>(env@),
            Err(e) => spec_parse_envelope(*v) matches Err(f) && matches_failure(e, f),
        },
{
    let entries = match v {
        JsonValue::Object(es) => es,
        _ => {
            return Err(EnvelopeError::UnexpectedShape);
        },
    };
    let status = match get_u64_field(entries, "status", None) {
        Ok(x) => x,
        Err(e) => {
            return Err(EnvelopeError::Envelope(record_err("status", e)));
        },
    };
    let message = match get_text_field(entries, "message", None) {
        Ok(x) => x,
        Err(e) => {
            return Err(EnvelopeError::Envelope(record_err("message", e)));
        },
    };
    let arr = match lookup_field(entries, "result", None) {
        None => {
            return Err(
                EnvelopeError::Envelope(record_err("result", FieldError::MissingField)),
            );
        },
        Some(jv) => match jv {
            JsonValue::Array(a) => a,
            _ => {
                return Err(
                    EnvelopeError::Envelope(record_err("result", FieldError::UnexpectedType)),
                );
            },
        },
    };
    let mut result: Vec<EtherscanTokenTx> = Vec::new();
    let mut i: usize = 0;
    proof {
        assert(arr@.skip(0) =~= arr@);
        assert(views_of(result@) =~= Seq::<TxView>::empty());
    }
    while i < arr.len()
        invariant
            i <= arr@.len(),
            result@.len() == i,
            spec_parse_records(arr@) == (match spec_parse_records(arr@.skip(i as int)) {
                Ok(rest) => Ok::<Seq<TxView>, (int, Seq<char>, FieldError)>(
                    views_of(result@) + rest,
                ),
                Err(q) => Err::<Seq<TxView>, (int, Seq<char>, FieldError)>((q.0 + i, q.1, q.2)),
            }),
        decreases arr@.len() - i,
    {
        proof {
            assert(arr@.skip(i as int).first() == arr@[i as int]);
            assert(arr@.skip(i as int).drop_first() =~= arr@.skip(i + 1));
        }
        let ghost prev = result@;
        match parse_token_tx(&arr[i]) {
            Ok(tx) => {
                result.push(tx);
                proof {
                    assert(views_of(result@) =~= views_of(prev).push(tx@));
                    let ghost later = spec_parse_records(arr@.skip(i + 1));
                    match later {
                        Ok(rest) => {
                            assert(views_of(prev) + (seq![tx@] + rest) =~= views_of(result@)
                                + rest);
                        },
                        Err(q) => {},
                    }
                }
            },
            Err(e) => {
                return Err(EnvelopeError::Record(i, e));
            },
        }
        i = i + 1;
    }
    proof {
        assert(arr@.skip(arr@.len() as int) =~= Seq::<JsonValue>::empty());
        assert(spec_parse_records(Seq::<JsonValue>::empty()) == Ok::<
            Seq<TxView>,
            (int, Seq<char>, FieldError),
        >(Seq::empty()));
        assert(views_of(result@) + Seq::<TxView>::empty() =~= views_of(result@));
    }
    Ok(EtherscanTokenResponse { status, message, result })
}

// ---------------------------------------------------------------------------
// The record list and its gas aggregate
// ---------------------------------------------------------------------------

/// The truncating gas total of a record sequence: each record contributes
/// the low 64 bits of its `gas_used`.
pub open spec fn gas_sum(s: Seq<TxView>) -> nat
    decreases s.len(),
{
    if s.len() == 0 {
        0
    } else {
        gas_sum(s.drop_last()) + s.last().gas_used % 0x10000000000000000
    }
}

/// An ordered list of transfer records, exactly as one fetch returned it.
#[derive(Debug)]
pub struct EtherscanTokenTxList(pub Vec<EtherscanTokenTx>);

impl View for EtherscanTokenTxList {
    type V = Seq<TxView>;

    open spec fn view(&self) -> Seq<TxView> {
        views_of(self.0@)
    }
}

impl EtherscanTokenTxList {
    /// Sums `gas_used` over all records. Each value is truncated to its
    /// low 64 bits first and the running total wraps: a documented,
    /// deliberately lossy simplification for realistic gas magnitudes.
    /// An empty list sums to zero.
    pub fn total_gas_cost(&self) -> (r: u64)
        ensures
            r == gas_sum(self@) % 0x10000000000000000,
            self.0@.len() == 0 ==> r == 0,
    {
        let mut acc: u64 = 0;
        let mut i: usize = 0;
        proof {
            assert(self@.subrange(0, 0) =~= Seq::<TxView>::empty());
        }
        while i < self.0.len()
            invariant
                i <= self.0@.len(),
                acc == gas_sum(self@.subrange(0, i as int)) % 0x10000000000000000,
            decreases self.0@.len() - i,
        {
            let g = self.0[i].gas_used.as_u64();
            let sum: u128 = acc as u128 + g as u128;
            let next: u64 = (sum % 0x10000000000000000) as u64;
            proof {
                let ghost pre = self@.subrange(0, i as int);
                assert(self@.subrange(0, i + 1).drop_last() =~= pre);
                assert(self@.subrange(0, i + 1).last() == self@[i as int]);
                assert(self@[i as int] == self.0@[i as int]@);
                lemma_small_mod(
                    (self@[i as int].gas_used % 0x10000000000000000) as nat,
                    0x10000000000000000,
                );
                lemma_add_mod_noop(
                    gas_sum(pre) as int,
                    (self@[i as int].gas_used % 0x10000000000000000) as int,
                    0x10000000000000000,
                );
                assert(next == gas_sum(self@.subrange(0, i + 1)) % 0x10000000000000000);
            }
            acc = next;
            i = i + 1;
        }
        proof {
            assert(self@.subrange(0, self@.len() as int) =~= self@);
        }
        acc
    }
}

proof fn lemma_gas_sum_remove(s: Seq<TxView>, i: int)
    requires
        0 <= i < s.len(),
    ensures
        gas_sum(s) == gas_sum(s.remove(i)) + s[i].gas_used % 0x10000000000000000,
    decreases s.len(),
{
    if i == s.len() - 1 {
        assert(s.remove(i) =~= s.drop_last());
    } else {
        lemma_gas_sum_remove(s.drop_last(), i);
        assert(s.remove(i).drop_last() =~= s.drop_last().remove(i));
        assert(s.remove(i).last() == s.last());
    }
}

/// The gas total does not depend on the order of the records: two lists
/// holding the same records in any order have the same `gas_sum`, so
/// `total_gas_cost` is invariant under reordering.
pub proof fn lemma_gas_sum_permutation(a: Seq<TxView>, b: Seq<TxView>)
    requires
        a.to_multiset() == b.to_multiset(),
    ensures
        gas_sum(a) == gas_sum(b),
    decreases a.len(),
{
    broadcast use vstd::seq_lib::group_to_multiset_ensures;

    if a.len() == 0 {
        assert(a.len() == a.to_multiset().len());
        assert(b.len() == b.to_multiset().len());
    } else {
        let x = a.last();
        let i = a.len() - 1;
        assert(a.contains(x));
        assert(b.to_multiset().count(x) > 0);
        assert(b.contains(x));
        let j = choose|j: int| 0 <= j < b.len() && b[j] == x;
        assert(a.remove(i).to_multiset() == a.to_multiset().remove(x));
        assert(b.remove(j).to_multiset() == b.to_multiset().remove(x));
        lemma_gas_sum_permutation(a.remove(i), b.remove(j));
        lemma_gas_sum_remove(a, i);
        lemma_gas_sum_remove(b, j);
    }
}

} // verus!
