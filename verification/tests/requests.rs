use zcash_mempool_visualizer::rpc::{
    block_height_request, mempool_info_request, raw_mempool_request, raw_transaction_batches, RpcParam,
    RAW_TX_BATCH_SIZE,
};

#[test]
fn fixed_requests() {
    let r = block_height_request();
    assert_eq!(r.jsonrpc, "2.0");
    assert_eq!(r.method, "getblockchaininfo");
    assert!(r.params.is_empty());
    assert_eq!(r.id, 99);
    let r = mempool_info_request();
    assert_eq!(r.method, "getmempoolinfo");
    assert!(r.params.is_empty());
    assert_eq!(r.id, 1);
    let r = raw_mempool_request();
    assert_eq!(r.method, "getrawmempool");
    assert_eq!(r.params, vec![RpcParam::Flag(true)]);
    assert_eq!(r.id, 2);
}

fn txids(n: usize) -> Vec<String> {
    (0..n).map(|i| format!("tx{:03}", i)).collect()
}

#[test]
fn no_txids_no_batches() {
    assert!(raw_transaction_batches(&Vec::new()).is_empty());
}

#[test]
fn batches_of_fifty() {
    assert_eq!(RAW_TX_BATCH_SIZE, 50);
    for (n, sizes) in [(1, vec![1]), (50, vec![50]), (51, vec![50, 1]), (120, vec![50, 50, 20])] {
        let ids = txids(n);
        let batches = raw_transaction_batches(&ids);
        let got: Vec<usize> = batches.iter().map(|b| b.len()).collect();
        assert_eq!(got, sizes);
        for (b, batch) in batches.iter().enumerate() {
            for (i, req) in batch.iter().enumerate() {
                assert_eq!(req.jsonrpc, "2.0");
                assert_eq!(req.method, "getrawtransaction");
                assert_eq!(req.id, i as u64);
                assert_eq!(req.params, vec![RpcParam::Text(ids[50 * b + i].clone()), RpcParam::Number(1)]);
            }
        }
    }
}
