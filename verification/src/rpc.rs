//! The JSON-RPC calls the monitor makes to a Zcash node.

use vstd::prelude::*;

verus! {

/// One positional parameter of a call.
#[derive(Debug, Clone, PartialEq, Eq)]
pub enum RpcParam {
    Text(String),
    Number(u64),
    Flag(bool),
}

pub enum RpcParamView {
    Text(Seq<char>),
    Number(u64),
    Flag(bool),
}

impl View for RpcParam {
    type V = RpcParamView;

    open spec fn view(&self) -> RpcParamView {
        match self {
            RpcParam::Text(s) => RpcParamView::Text(s@),
            RpcParam::Number(n) => RpcParamView::Number(*n),
            RpcParam::Flag(b) => RpcParamView::Flag(*b),
        }
    }
}

/// A JSON-RPC request: `{"jsonrpc": .., "method": .., "params": [..], "id": ..}`.
#[derive(Debug, Clone, PartialEq, Eq)]
pub struct RpcRequest {
    pub jsonrpc: String,
    pub method: String,
    pub params: Vec<RpcParam>,
    pub id: u64,
}

pub struct RpcRequestView {
    pub jsonrpc: Seq<char>,
    pub method: Seq<char>,
    pub params: Seq<RpcParamView>,
    pub id: u64,
}

impl View for RpcRequest {
    type V = RpcRequestView;

    open spec fn view(&self) -> RpcRequestView {
        RpcRequestView {
            jsonrpc: self.jsonrpc@,
            method: self.method@,
            params: self.params@.map_values(|p: RpcParam| p@),
            id: self.id,
        }
    }
}

/// Number of `getrawtransaction` calls sent in one batch.
pub const RAW_TX_BATCH_SIZE: usize = 50;

pub open spec fn rpc_call(method: Seq<char>, params: Seq<RpcParamView>, id: u64) -> RpcRequestView {
    RpcRequestView { jsonrpc: "2.0"@, method, params, id }
}

pub open spec fn block_height_call() -> RpcRequestView {
    rpc_call("getblockchaininfo"@, Seq::empty(), 99)
}

pub open spec fn mempool_info_call() -> RpcRequestView {
    rpc_call("getmempoolinfo"@, Seq::empty(), 1)
}

pub open spec fn raw_mempool_call() -> RpcRequestView {
    rpc_call("getrawmempool"@, seq![RpcParamView::Flag(true)], 2)
}

/// Verbose `getrawtransaction` of `txid`.
pub open spec fn raw_transaction_call(txid: Seq<char>, id: u64) -> RpcRequestView {
    rpc_call("getrawtransaction"@, seq![RpcParamView::Text(txid), RpcParamView::Number(1)], id)
}

fn make_call(method: &str, params: Vec<RpcParam>, id: u64) -> (req: RpcRequest)
    ensures
        req@ == rpc_call(method@, params@.map_values(|p: RpcParam| p@), id),
{
    RpcRequest { jsonrpc: String::from_str("2.0"), method: String::from_str(method), params, id }
}

/// The call that asks for the chain height.
pub fn block_height_request() -> (req: RpcRequest)
    ensures
        req@ == block_height_call(),
{
    let req = make_call("getblockchaininfo", Vec::new(), 99);
    assert(req@.params =~= Seq::<RpcParamView>::empty());
    req
}

/// The call that asks for the mempool size.
pub fn mempool_info_request() -> (req: RpcRequest)
    ensures
        req@ == mempool_info_call(),
{
    let req = make_call("getmempoolinfo", Vec::new(), 1);
    assert(req@.params =~= Seq::<RpcParamView>::empty());
    req
}

/// The call that asks for the verbose mempool listing.
pub fn raw_mempool_request() -> (req: RpcRequest)
    ensures
        req@ == raw_mempool_call(),
{
    let mut params: Vec<RpcParam> = Vec::new();
    params.push(RpcParam::Flag(true));
    let req = make_call("getrawmempool", params, 2);
    assert(req@.params =~= seq![RpcParamView::Flag(true)]);
    req
}

fn raw_transaction_request(txid: &String, id: u64) -> (req: RpcRequest)
    ensures
        req@ == raw_transaction_call(txid@, id),
{
    let mut params: Vec<RpcParam> = Vec::new();
    params.push(RpcParam::Text(txid.clone()));
    params.push(RpcParam::Number(1));
    let req = make_call("getrawtransaction", params, id);
    assert(req@.params =~= seq![RpcParamView::Text(txid@), RpcParamView::Number(1)]);
    req
}

/// The `getrawtransaction` calls for `txids`, cut into batches of
/// `RAW_TX_BATCH_SIZE` in order; within a batch the ids count from 0.
pub fn raw_transaction_batches(txids: &Vec<String>) -> (batches: Vec<Vec<RpcRequest>>)
    ensures
        txids@.len() == 0 <==> batches@.len() == 0,
        batches@.len() > 0 ==> RAW_TX_BATCH_SIZE * (batches@.len() - 1) < txids@.len()
            <= RAW_TX_BATCH_SIZE * batches@.len(),
        forall|b: int|
            0 <= b < batches@.len() ==> {
                let start = RAW_TX_BATCH_SIZE * b;
                &&& (#[trigger] batches@[b])@.len() == (if txids@.len() - start < RAW_TX_BATCH_SIZE {
                    txids@.len() - start
                } else {
                    RAW_TX_BATCH_SIZE as int
                })
                &&& forall|i: int|
                    0 <= i < batches@[b]@.len() ==> (#[trigger] batches@[b]@[i])@ == raw_transaction_call(
                        txids@[start + i]@,
                        i as u64,
                    )
            },
{
    let n = txids.len();
    let mut batches: Vec<Vec<RpcRequest>> = Vec::new();
    let mut start: usize = 0;
    while start < n
        invariant
            n == txids@.len(),
            start <= n,
            start == (if RAW_TX_BATCH_SIZE * batches@.len() < n { RAW_TX_BATCH_SIZE * batches@.len() } else { n as int }),
            batches@.len() > 0 ==> RAW_TX_BATCH_SIZE * (batches@.len() - 1) < n,
            forall|b: int|
                0 <= b < batches@.len() ==> {
                    let first = RAW_TX_BATCH_SIZE * b;
                    &&& (#[trigger] batches@[b])@.len() == (if n - first < RAW_TX_BATCH_SIZE {
                        n - first
                    } else {
                        RAW_TX_BATCH_SIZE as int
                    })
                    &&& forall|i: int|
                        0 <= i < batches@[b]@.len() ==> (#[trigger] batches@[b]@[i])@
                            == raw_transaction_call(txids@[first + i]@, i as u64)
                },
        decreases n - start,
    {
        let end = if n - start < RAW_TX_BATCH_SIZE {
            n
        } else {
            start + RAW_TX_BATCH_SIZE
        };
        let mut batch: Vec<RpcRequest> = Vec::new();
        let mut i: usize = start;
        while i < end
            invariant
                n == txids@.len(),
                start <= i <= end <= n,
                batch@.len() == i - start,
                forall|k: int|
                    0 <= k < batch@.len() ==> (#[trigger] batch@[k])@ == raw_transaction_call(
                        txids@[start + k]@,
                        k as u64,
                    ),
            decreases end - i,
        {
            let req = raw_transaction_request(&txids[i], (i - start) as u64);
            batch.push(req);
            i = i + 1;
        }
        let ghost old_batches = batches@;
        batches.push(batch);
        assert forall|b: int| 0 <= b < batches@.len() implies {
            let first = RAW_TX_BATCH_SIZE * b;
            &&& (#[trigger] batches@[b])@.len() == (if n - first < RAW_TX_BATCH_SIZE {
                n - first
            } else {
                RAW_TX_BATCH_SIZE as int
            })
            &&& forall|i: int|
                0 <= i < batches@[b]@.len() ==> (#[trigger] batches@[b]@[i])@
                    == raw_transaction_call(txids@[first + i]@, i as u64)
        } by {
            if b < old_batches.len() {
                assert(batches@[b] == old_batches[b]);
            }
        }
        start = end;
    }
    batches
}

} // verus!
