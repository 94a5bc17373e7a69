use zcash_mempool_visualizer::flow::{FlowType, TxClass};
use zcash_mempool_visualizer::history::{batch_rows, batch_rows_fit, GroupTotals, History, Monitor};

fn class(txid: &str, flow: FlowType) -> TxClass {
    TxClass { txid: txid.to_string(), flow, transparent_zat: 0, sapling_zat: 0, orchard_zat: 0 }
}

fn sample() -> Vec<TxClass> {
    vec![
        class("a", FlowType::Transparent),
        class("b", FlowType::ShieldingSapling),
        class("c", FlowType::Transparent),
        class("a", FlowType::Transparent),
        class("d", FlowType::PrivateOrchard),
        class("e", FlowType::DeshieldingBoth),
    ]
}

#[test]
fn each_txid_counted_once() {
    let mut h = History::new();
    assert_eq!(h.total(), 0);
    let batch = sample();
    assert!(h.can_record(&batch));
    h.record(&batch);
    assert_eq!(h.total(), 5);
    assert_eq!(h.count(FlowType::Transparent), 2);
    assert_eq!(h.count(FlowType::ShieldingSapling), 1);
    assert_eq!(h.count(FlowType::ZeroNet), 0);
}

#[test]
fn recording_again_changes_nothing() {
    let mut h = History::new();
    let batch = sample();
    h.record(&batch);
    let rows = h.rows(true);
    h.record(&batch);
    assert_eq!(h.total(), 5);
    assert_eq!(h.rows(true), rows);
}

#[test]
fn two_batches_as_one() {
    let batch = sample();
    let (first, second) = batch.split_at(3);
    let mut split = History::new();
    split.record(&first.to_vec());
    split.record(&second.to_vec());
    let mut whole = History::new();
    whole.record(&batch);
    assert_eq!(split.total(), whole.total());
    assert_eq!(split.rows(true), whole.rows(true));
}

#[test]
fn rows_in_label_order() {
    let mut h = History::new();
    h.record(&sample());
    assert_eq!(
        h.rows(true),
        vec![
            (FlowType::DeshieldingBoth, 1),
            (FlowType::PrivateOrchard, 1),
            (FlowType::ShieldingSapling, 1),
            (FlowType::Transparent, 2),
        ]
    );
    assert_eq!(
        h.rows(false),
        vec![(FlowType::DeshieldingBoth, 1), (FlowType::PrivateOrchard, 1), (FlowType::ShieldingSapling, 1)]
    );
    let labels: Vec<String> = h.rows(true).iter().map(|(f, _)| f.label()).collect();
    let mut sorted = labels.clone();
    sorted.sort();
    assert_eq!(labels, sorted);
}

#[test]
fn group_totals_partition() {
    let mut h = History::new();
    h.record(&sample());
    h.record(&vec![
        class("f", FlowType::DeshieldingOrchard),
        class("g", FlowType::ZeroNet),
        class("h", FlowType::PrivateBoth),
    ]);
    let g = h.group_totals();
    assert_eq!(g, GroupTotals { deshielding: 2, shielding: 1, private: 2 });
    let rest = h.count(FlowType::Transparent) + h.count(FlowType::ZeroNet) + h.count(FlowType::ComplexMixed);
    assert_eq!(g.deshielding + g.shielding + g.private + rest, h.total());
}

#[test]
fn current_batch_rows_count_duplicates() {
    let rows = batch_rows(&sample());
    assert_eq!(
        rows,
        vec![
            (FlowType::DeshieldingBoth, 1),
            (FlowType::PrivateOrchard, 1),
            (FlowType::ShieldingSapling, 1),
            (FlowType::Transparent, 3),
        ]
    );
    assert!(batch_rows(&Vec::new()).is_empty());
    assert!(batch_rows_fit(&sample()));
    assert!(batch_rows_fit(&Vec::new()));
}

#[test]
fn blocks_mined_since_start() {
    let m = Monitor::start(Some(2_500_000));
    assert_eq!(m.initial_blocks, 2_500_000);
    assert_eq!(m.blocks_mined(Some(2_500_007)), 7);
    assert_eq!(m.blocks_mined(Some(2_499_000)), 0);
    assert_eq!(m.blocks_mined(None), 0);
    let m = Monitor::start(None);
    assert_eq!(m.initial_blocks, 0);
    assert_eq!(m.blocks_mined(Some(12)), 12);
    assert_eq!(m.history.total(), 0);
}
