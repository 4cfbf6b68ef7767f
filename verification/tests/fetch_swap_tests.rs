use defitax::{
    accept_transport, begin_fetch, scale_token_amount, Address, EtherscanTokenTx,
    EtherscanTokenTxList, FetchError, PriceLookupFailure, TokenQuantity, TokenSwap,
    TransportFailure, H256, U256,
};

fn u256(v: u64) -> U256 {
    U256 { w0: v, w1: 0, w2: 0, w3: 0 }
}

fn sample_tx(gas_used: u64) -> EtherscanTokenTx {
    EtherscanTokenTx {
        block_number: 1,
        timestamp: 1_600_000_000,
        hash: H256 { bytes: vec![0x11; 32] },
        nonce: 0,
        block_hash: H256 { bytes: vec![0x22; 32] },
        from: Address { bytes: vec![0x33; 20] },
        contract_address: Address { bytes: vec![0x44; 20] },
        to: Address { bytes: vec![0x55; 20] },
        value: u256(10),
        token_name: "Test".to_string(),
        token_symbol: "TST".to_string(),
        token_decimal: 18,
        transaction_index: 0,
        gas: u256(30000),
        gas_price: u256(1_000_000_000),
        gas_used: u256(gas_used),
        cumulative_gas_used: u256(gas_used),
        input: "deprecated".to_string(),
        confirmations: 10,
    }
}

#[test]
fn total_gas_cost_of_empty_list_is_zero() {
    let list = EtherscanTokenTxList(Vec::new());
    assert_eq!(list.total_gas_cost(), 0);
}

#[test]
fn total_gas_cost_sums_records() {
    let list = EtherscanTokenTxList(vec![sample_tx(21000), sample_tx(42000)]);
    assert_eq!(list.total_gas_cost(), 63000);
}

#[test]
fn total_gas_cost_is_order_independent() {
    let forward = EtherscanTokenTxList(vec![sample_tx(1), sample_tx(20), sample_tx(300)]);
    let backward = EtherscanTokenTxList(vec![sample_tx(300), sample_tx(1), sample_tx(20)]);
    assert_eq!(forward.total_gas_cost(), backward.total_gas_cost());
    assert_eq!(forward.total_gas_cost(), 321);
}

#[test]
fn total_gas_cost_truncates_large_values() {
    // A gas value above 64 bits contributes only its low 64 bits.
    let mut tx = sample_tx(7);
    tx.gas_used = U256 { w0: 7, w1: 5, w2: 0, w3: 0 };
    let list = EtherscanTokenTxList(vec![tx]);
    assert_eq!(list.total_gas_cost(), 7);
}

#[test]
fn enrichment_failure_leaves_reference_unset() {
    let mut q = TokenQuantity {
        ticker: "ETH".to_string(),
        amount: u256(5),
        reference_amount: None,
    };
    q.assign_reference_price(Err(PriceLookupFailure));
    assert_eq!(q.reference_amount, None);
    assert_eq!(q.ticker, "ETH");
}

#[test]
fn enrichment_success_sets_reference() {
    let mut q = TokenQuantity {
        ticker: "ETH".to_string(),
        amount: u256(5),
        reference_amount: None,
    };
    q.assign_reference_price(Ok(4200));
    assert_eq!(q.reference_amount, Some(4200));
}

#[test]
fn enrichment_failure_clears_nothing_else_on_swap_sides() {
    let mut swap = TokenSwap {
        from: TokenQuantity {
            ticker: "AAA".to_string(),
            amount: u256(1),
            reference_amount: Some(9),
        },
        to: TokenQuantity {
            ticker: "BBB".to_string(),
            amount: u256(2),
            reference_amount: None,
        },
    };
    swap.from.assign_reference_price(Err(PriceLookupFailure));
    swap.to.assign_reference_price(Ok(3));
    assert_eq!(swap.from.reference_amount, None);
    assert_eq!(swap.to.reference_amount, Some(3));
    assert_eq!(swap.from.amount, u256(1));
    assert_eq!(swap.to.amount, u256(2));
}

#[test]
fn missing_credential_fails_before_any_request() {
    let addr = Address { bytes: vec![0x33; 20] };
    assert_eq!(begin_fetch(None, &addr), Err(FetchError::ConfigMissing));
}

#[test]
fn request_url_is_bit_exact() {
    let addr = Address { bytes: vec![0xab; 20] };
    let url = begin_fetch(Some("SECRETKEY"), &addr).unwrap();
    let expected = format!(
        "https://api.etherscan.io/api?module=account&action=tokentx&address=0x{}\
         &startBlock=0&endBlock=999999999&sort=asc&apiKey=SECRETKEY",
        "ab".repeat(20)
    );
    assert_eq!(url, expected);
}

#[test]
fn transport_errors_collapse() {
    assert_eq!(
        accept_transport(Err(TransportFailure)),
        Err(FetchError::TransportError)
    );
    assert_eq!(
        accept_transport(Ok("body".to_string())),
        Ok("body".to_string())
    );
}

#[test]
fn scale_token_amount_matches_floor_division() {
    let s = scale_token_amount(u256(123_456_789), 4).unwrap();
    assert_eq!(s, u256(12_345));
}
