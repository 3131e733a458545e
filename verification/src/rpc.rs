//! The typed method facade over the JSON-RPC transport.
//!
//! Each operation the scanner relies on has a builder here that produces the
//! exact request body to post, with the method name and parameter shape the
//! remote node expects. The transport itself — the HTTP POST and the response
//! envelope decode — lives outside the library and is handed these bodies as
//! plain text; quantity-valued responses come back through
//! [`crate::codec::decode_quantity`].

use vstd::prelude::*;
use vstd::string::StringExecFns;
use crate::codec::dec_seq;
use crate::codec::decimal_string;
use crate::json::envelope;
use crate::json::json_string;
use crate::json::append_json_string;
use crate::json::build_request;
use crate::scan::StorageSlot;

verus! {

/// A block record as the node reports it, every quantity in its hex string
/// form.
#[allow(non_snake_case)]
pub struct BlockResult {
    pub difficulty: String,
    pub extraData: String,
    pub gasLimit: String,
    pub gasUsed: String,
    pub hash: String,
    pub logsBloom: String,
    pub miner: String,
    pub mixHash: String,
    pub nonce: String,
    pub number: String,
    pub parentHash: String,
    pub receiptsRoot: String,
    pub sha3Uncles: String,
    pub size: String,
    pub stateRoot: String,
    pub timestamp: String,
    pub totalDifficulty: String,
    pub transactions: Vec<Transaction>,
    pub transactionsRoot: String,
    pub uncles: Vec<String>,
}

/// A transaction record as the node reports it.
#[allow(non_snake_case)]
pub struct Transaction {
    pub blockHash: String,
    pub blockNumber: String,
    pub from: String,
    pub gas: String,
    pub gasPrice: String,
    pub hash: String,
    pub input: String,
    pub nonce: String,
    pub r: String,
    pub s: String,
    pub to: String,
    pub transactionIndex: String,
    pub txType: String,
    pub v: String,
    pub value: String,
}

/// The parameters of an unsigned transaction submission.
#[allow(non_snake_case)]
pub struct TransactionParams {
    pub from: String,
    pub to: String,
    pub value: String,
    pub gas: String,
    pub gasPrice: String,
    pub data: String,
    pub nonce: String,
    pub chainId: Option<String>,
}

/// The `eth_blockNumber` request: the chain head height.
pub fn block_number_request() -> (r: String)
    ensures
        r@ == envelope("eth_blockNumber"@, "[]"@),
{
    build_request("eth_blockNumber", None)
}

/// The `eth_chainId` request: the chain identifier.
pub fn chain_id_request() -> (r: String)
    ensures
        r@ == envelope("eth_chainId"@, "[]"@),
{
    build_request("eth_chainId", None)
}

/// The parameter list of `eth_getBlockByNumber`: the block, and `true` for
/// the nested transaction records.
pub open spec fn block_by_number_params(block_number: Seq<char>) -> Seq<char> {
    "["@ + json_string(block_number) + ",true]"@
}

/// The `eth_getBlockByNumber` request: a block record, transactions included.
pub fn get_block_by_number_request(block_number: &str) -> (r: String)
    ensures
        r@ == envelope("eth_getBlockByNumber"@, block_by_number_params(block_number@)),
{
    let mut p = String::from_str("[");
    proof {
        reveal_strlit("[");
        reveal_strlit(",true]");
    }
    append_json_string(&mut p, block_number);
    p.append(",true]");
    proof {
        assert(p@ =~= block_by_number_params(block_number@));
    }
    build_request("eth_getBlockByNumber", Some(p.as_str()))
}

/// A parameter list of one string.
pub open spec fn single_string_params(s: Seq<char>) -> Seq<char> {
    "["@ + json_string(s) + "]"@
}

/// The `eth_getTransactionByHash` request: a transaction record.
pub fn get_transaction_by_hash_request(tx_hash: &str) -> (r: String)
    ensures
        r@ == envelope("eth_getTransactionByHash"@, single_string_params(tx_hash@)),
{
    let mut p = String::from_str("[");
    proof {
        reveal_strlit("[");
        reveal_strlit("]");
    }
    append_json_string(&mut p, tx_hash);
    p.append("]");
    proof {
        assert(p@ =~= single_string_params(tx_hash@));
    }
    build_request("eth_getTransactionByHash", Some(p.as_str()))
}

/// The parameter list of `eth_getStorageAt`: contract address, slot, and the
/// historical block to read at.
pub open spec fn storage_at_params(address: Seq<char>, slot: Seq<char>, block: Seq<char>) -> Seq<
    char,
> {
    "["@ + json_string(address) + ","@ + json_string(slot) + ","@ + json_string(block) + "]"@
}

/// The `eth_getStorageAt` request: the slot's 256-bit value at a historical
/// block. This is the one operation the scan engine depends on.
pub fn get_storage_at_request(address: &str, slot: &StorageSlot, block: &str) -> (r: String)
    ensures
        r@ == envelope("eth_getStorageAt"@, storage_at_params(address@, slot@, block@)),
{
    let mut p = String::from_str("[");
    proof {
        reveal_strlit("[");
        reveal_strlit(",");
        reveal_strlit("]");
    }
    append_json_string(&mut p, address);
    p.append(",");
    append_json_string(&mut p, slot.as_hex());
    p.append(",");
    append_json_string(&mut p, block);
    p.append("]");
    proof {
        assert(p@ =~= storage_at_params(address@, slot@, block@));
    }
    build_request("eth_getStorageAt", Some(p.as_str()))
}

/// The parameter object of `eth_sendUnsignedTransaction`, `chainId` written
/// as `null` where the caller set none.
pub open spec fn transaction_params_json(tx: TransactionParams) -> Seq<char> {
    "{\"from\":"@ + json_string(tx.from@) + ",\"to\":"@ + json_string(tx.to@) + ",\"value\":"@
        + json_string(tx.value@) + ",\"gas\":"@ + json_string(tx.gas@) + ",\"gasPrice\":"@
        + json_string(tx.gasPrice@) + ",\"data\":"@ + json_string(tx.data@) + ",\"nonce\":"@
        + json_string(tx.nonce@) + ",\"chainId\":"@ + (match tx.chainId {
        Option::Some(c) => json_string(c@),
        Option::None => "null"@,
    }) + "}"@
}

/// The `eth_sendUnsignedTransaction` request.
pub fn send_transaction_request(tx: &TransactionParams) -> (r: String)
    ensures
        r@ == envelope("eth_sendUnsignedTransaction"@, "["@ + transaction_params_json(*tx) + "]"@),
{
    proof {
        reveal_strlit("[");
        reveal_strlit("]");
        reveal_strlit("}");
        reveal_strlit("null");
        reveal_strlit("{\"from\":");
        reveal_strlit(",\"to\":");
        reveal_strlit(",\"value\":");
        reveal_strlit(",\"gas\":");
        reveal_strlit(",\"gasPrice\":");
        reveal_strlit(",\"data\":");
        reveal_strlit(",\"nonce\":");
        reveal_strlit(",\"chainId\":");
    }
    let mut p = String::from_str("[");
    p.append("{\"from\":");
    append_json_string(&mut p, tx.from.as_str());
    p.append(",\"to\":");
    append_json_string(&mut p, tx.to.as_str());
    p.append(",\"value\":");
    append_json_string(&mut p, tx.value.as_str());
    p.append(",\"gas\":");
    append_json_string(&mut p, tx.gas.as_str());
    p.append(",\"gasPrice\":");
    append_json_string(&mut p, tx.gasPrice.as_str());
    p.append(",\"data\":");
    append_json_string(&mut p, tx.data.as_str());
    p.append(",\"nonce\":");
    append_json_string(&mut p, tx.nonce.as_str());
    p.append(",\"chainId\":");
    match &tx.chainId {
        Some(c) => {
            append_json_string(&mut p, c.as_str());
        },
        None => {
            p.append("null");
        },
    }
    p.append("}");
    p.append("]");
    proof {
        assert(p@ =~= "["@ + transaction_params_json(*tx) + "]"@);
    }
    build_request("eth_sendUnsignedTransaction", Some(p.as_str()))
}

/// The parameter list of the automine switch.
pub open spec fn bool_params(mode: bool) -> Seq<char> {
    if mode { "[true]"@ } else { "[false]"@ }
}

/// The `evm_setAutomine` dev-node request: mine on every transaction, or not.
pub fn evm_set_automine_request(mode: bool) -> (r: String)
    ensures
        r@ == envelope("evm_setAutomine"@, bool_params(mode)),
{
    if mode {
        proof {
            reveal_strlit("[true]");
        }
        build_request("evm_setAutomine", Some("[true]"))
    } else {
        proof {
            reveal_strlit("[false]");
        }
        build_request("evm_setAutomine", Some("[false]"))
    }
}

/// The `evm_mine` dev-node request: force one block.
pub fn evm_mine_request() -> (r: String)
    ensures
        r@ == envelope("evm_mine"@, "[]"@),
{
    build_request("evm_mine", None)
}

/// A parameter list of one number, written in decimal.
pub open spec fn u64_params(n: nat) -> Seq<char> {
    "["@ + dec_seq(n) + "]"@
}

/// The `evm_setIntervalMining` dev-node request: the block-mining interval in
/// milliseconds.
pub fn evm_set_interval_mining_request(interval: u64) -> (r: String)
    ensures
        r@ == envelope("evm_setIntervalMining"@, u64_params(interval as nat)),
{
    let mut p = String::from_str("[");
    proof {
        reveal_strlit("[");
        reveal_strlit("]");
    }
    let d = decimal_string(interval);
    p.append(d.as_str());
    p.append("]");
    proof {
        assert(p@ =~= u64_params(interval as nat));
    }
    build_request("evm_setIntervalMining", Some(p.as_str()))
}

/// The `evm_setNextBlockTimestamp` dev-node request.
pub fn evm_set_next_block_timestamp_request(timestamp: u64) -> (r: String)
    ensures
        r@ == envelope("evm_setNextBlockTimestamp"@, u64_params(timestamp as nat)),
{
    let mut p = String::from_str("[");
    proof {
        reveal_strlit("[");
        reveal_strlit("]");
    }
    let d = decimal_string(timestamp);
    p.append(d.as_str());
    p.append("]");
    proof {
        assert(p@ =~= u64_params(timestamp as nat));
    }
    build_request("evm_setNextBlockTimestamp", Some(p.as_str()))
}

} // verus!
