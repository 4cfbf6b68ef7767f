//! Typed ingestion of a block-explorer's token-transfer API: decimal and hex
//! text parsing into fixed-width integers, the transfer-record model with its
//! aliased field keys, all-or-nothing envelope parsing, gas-cost aggregation,
//! price-reference enrichment, and the steps of the fetch state machine.

pub mod envelope;
pub mod errors;
pub mod fetch;
pub mod json;
pub mod numeric;
pub mod record;
pub mod swap;
mod text;

pub use errors::{EnvelopeError, FetchError, FieldError, RecordParseError};
pub use json::JsonValue;
pub use numeric::{parse_u64_from_text, u64_to_dec_text, U256};
pub use record::{Address, EtherscanTokenTx, H256};
pub use envelope::{EtherscanTokenResponse, EtherscanTokenTxList};
pub use swap::{scale_token_amount, PriceLookupFailure, TokenQuantity, TokenSwap};
pub use fetch::{accept_transport, begin_fetch, etherscan_request_url, parse_transactions, TransportFailure};
