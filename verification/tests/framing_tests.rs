use serde_json::Value;
use sothis::rpc::block_number_request;
use sothis::rpc::chain_id_request;
use sothis::rpc::evm_mine_request;
use sothis::rpc::evm_set_automine_request;
use sothis::rpc::evm_set_interval_mining_request;
use sothis::rpc::evm_set_next_block_timestamp_request;
use sothis::rpc::get_block_by_number_request;
use sothis::rpc::get_storage_at_request;
use sothis::rpc::get_transaction_by_hash_request;
use sothis::rpc::send_transaction_request;
use sothis::rpc::TransactionParams;
use sothis::scan::StorageSlot;

// Every request must be a JSON-RPC 2.0 envelope with the fixed id.
fn parse_envelope(body: &str, method: &str) -> Value {
    let v: Value = serde_json::from_str(body).expect("request body must be valid JSON");
    assert_eq!(v["method"].as_str(), Some(method));
    assert_eq!(v["id"].as_u64(), Some(1));
    assert_eq!(v["jsonrpc"].as_str(), Some("2.0"));
    assert!(v["params"].is_array(), "params must always be an array");
    v["params"].clone()
}

#[test]
fn frames_block_number() {
    let params = parse_envelope(&block_number_request(), "eth_blockNumber");
    assert_eq!(params.as_array().unwrap().len(), 0);
}

#[test]
fn frames_chain_id() {
    let params = parse_envelope(&chain_id_request(), "eth_chainId");
    assert_eq!(params.as_array().unwrap().len(), 0);
}

#[test]
fn frames_get_block_by_number() {
    let body = get_block_by_number_request("0x10");
    let params = parse_envelope(&body, "eth_getBlockByNumber");
    assert_eq!(params.as_array().unwrap().len(), 2);
    assert_eq!(params[0].as_str(), Some("0x10"));
    assert_eq!(params[1].as_bool(), Some(true));
}

#[test]
fn frames_get_transaction_by_hash() {
    let body = get_transaction_by_hash_request("0xabc123");
    let params = parse_envelope(&body, "eth_getTransactionByHash");
    assert_eq!(params.as_array().unwrap().len(), 1);
    assert_eq!(params[0].as_str(), Some("0xabc123"));
}

#[test]
fn frames_get_storage_at() {
    let slot = StorageSlot::from_hex("0x1").unwrap();
    let body = get_storage_at_request("0xdeadbeef", &slot, "0x64");
    let params = parse_envelope(&body, "eth_getStorageAt");
    assert_eq!(params.as_array().unwrap().len(), 3);
    assert_eq!(params[0].as_str(), Some("0xdeadbeef"));
    assert_eq!(params[1].as_str(), Some("0x1"));
    assert_eq!(params[2].as_str(), Some("0x64"));
}

#[test]
fn escapes_string_parameters() {
    // A JSON parser must give back exactly what went in.
    let tricky = "a\"b\\c\nd\re\tf\u{8}g\u{c}h\u{1}i";
    let body = get_transaction_by_hash_request(tricky);
    let params = parse_envelope(&body, "eth_getTransactionByHash");
    assert_eq!(params[0].as_str(), Some(tricky));
}

#[test]
fn frames_send_transaction() {
    let tx = TransactionParams {
        from: String::from("0x1111"),
        to: String::from("0x2222"),
        value: String::from("0x0"),
        gas: String::from("0x5208"),
        gasPrice: String::from("0x3b9aca00"),
        data: String::from("0x"),
        nonce: String::from("0x0"),
        chainId: Some(String::from("0x1")),
    };
    let body = send_transaction_request(&tx);
    let params = parse_envelope(&body, "eth_sendUnsignedTransaction");
    assert_eq!(params.as_array().unwrap().len(), 1);
    let obj = &params[0];
    assert_eq!(obj["from"].as_str(), Some("0x1111"));
    assert_eq!(obj["to"].as_str(), Some("0x2222"));
    assert_eq!(obj["value"].as_str(), Some("0x0"));
    assert_eq!(obj["gas"].as_str(), Some("0x5208"));
    assert_eq!(obj["gasPrice"].as_str(), Some("0x3b9aca00"));
    assert_eq!(obj["data"].as_str(), Some("0x"));
    assert_eq!(obj["nonce"].as_str(), Some("0x0"));
    assert_eq!(obj["chainId"].as_str(), Some("0x1"));
}

#[test]
fn frames_send_transaction_without_chain_id() {
    let tx = TransactionParams {
        from: String::from("0x1111"),
        to: String::from("0x2222"),
        value: String::from("0x0"),
        gas: String::from("0x5208"),
        gasPrice: String::from("0x3b9aca00"),
        data: String::from("0x"),
        nonce: String::from("0x0"),
        chainId: None,
    };
    let body = send_transaction_request(&tx);
    let params = parse_envelope(&body, "eth_sendUnsignedTransaction");
    assert!(params[0]["chainId"].is_null());
}

#[test]
fn frames_dev_node_controls() {
    let params = parse_envelope(&evm_set_automine_request(true), "evm_setAutomine");
    assert_eq!(params[0].as_bool(), Some(true));
    let params = parse_envelope(&evm_set_automine_request(false), "evm_setAutomine");
    assert_eq!(params[0].as_bool(), Some(false));

    let params = parse_envelope(&evm_mine_request(), "evm_mine");
    assert_eq!(params.as_array().unwrap().len(), 0);

    let params = parse_envelope(&evm_set_interval_mining_request(500), "evm_setIntervalMining");
    assert_eq!(params[0].as_u64(), Some(500));

    let params = parse_envelope(
        &evm_set_next_block_timestamp_request(1_700_000_000),
        "evm_setNextBlockTimestamp",
    );
    assert_eq!(params[0].as_u64(), Some(1_700_000_000));
}
