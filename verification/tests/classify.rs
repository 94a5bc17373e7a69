use zcash_mempool_visualizer::flow::{classify_flow, classify_transaction, classify_transactions, FlowType};
use zcash_mempool_visualizer::pools::{detect_pools, OrchardBundle, Pools, RawTx};

fn pools(transparent: bool, sprout: bool, sapling: bool, orchard: bool) -> Pools {
    Pools { transparent, sprout, sapling, orchard }
}

fn empty_tx(txid: &str) -> RawTx {
    RawTx {
        txid: txid.to_string(),
        vin_count: 0,
        vout_zat: Vec::new(),
        joinsplit_count: None,
        shielded_spend_count: None,
        shielded_output_count: None,
        orchard: None,
        value_balance_zat: None,
    }
}

/// The label rule as written against the pool label string.
fn flow_by_label(pool_type: &str, s: i64, o: i64) -> &'static str {
    if pool_type == "Transparent" {
        "Transparent"
    } else if !pool_type.contains("Transparent") {
        if pool_type == "Orchard" {
            "Private          : O → O"
        } else if pool_type == "Sapling" {
            "Private          : S → S"
        } else {
            "Private          : S+O → S+O"
        }
    } else {
        match (s.signum(), o.signum()) {
            (-1, 0) => "Shielding        : T → S",
            (0, -1) => "Shielding        : T → O",
            (-1, -1) => "Shielding        : T → S+O",
            (1, 0) => "Deshielding      : S → T",
            (0, 1) => "Deshielding      : O → T",
            (1, 1) => "Deshielding      : S+O → T",
            (1, -1) => "Deshielding      : S → T + T → O",
            (-1, 1) => "Deshielding      : O → T + T → S",
            _ => {
                if s == 0 && o == 0 {
                    "Zero-net Shielded (Z→Z)"
                } else {
                    "Complex Mixed"
                }
            }
        }
    }
}

#[test]
fn pool_labels() {
    assert_eq!(pools(false, false, false, false).label(), "Unknown");
    assert_eq!(pools(true, false, false, false).label(), "Transparent");
    assert_eq!(pools(true, false, true, false).label(), "Transparent,Sapling");
    assert_eq!(pools(false, true, false, true).label(), "Sprout,Orchard");
    assert_eq!(pools(true, true, true, true).label(), "Transparent,Sprout,Sapling,Orchard");
}

#[test]
fn detect_pools_of_transparent_tx() {
    let mut tx = empty_tx("aa");
    tx.vin_count = 1;
    tx.vout_zat = vec![150_000_000, 25_000, -5];
    let summary = detect_pools(&tx);
    assert_eq!(summary.pools, pools(true, false, false, false));
    assert_eq!(summary.transparent_zat, 150_024_995);
    assert_eq!(summary.sapling_zat, 0);
    assert_eq!(summary.orchard_zat, 0);
}

#[test]
fn detect_pools_of_shielded_lists() {
    let mut tx = empty_tx("bb");
    tx.joinsplit_count = Some(0);
    tx.shielded_spend_count = Some(0);
    tx.shielded_output_count = Some(2);
    tx.orchard = Some(OrchardBundle { actions: Some(0), value_balance_zat: Some(-7) });
    tx.value_balance_zat = Some(42);
    let summary = detect_pools(&tx);
    // Empty lists do not count as touching a pool.
    assert_eq!(summary.pools, pools(false, false, true, false));
    assert_eq!(summary.transparent_zat, 0);
    assert_eq!(summary.sapling_zat, 42);
    assert_eq!(summary.orchard_zat, -7);
    tx.orchard = Some(OrchardBundle { actions: None, value_balance_zat: None });
    tx.joinsplit_count = Some(1);
    let summary = detect_pools(&tx);
    assert_eq!(summary.pools, pools(false, true, true, false));
    assert_eq!(summary.orchard_zat, 0);
    assert_eq!(summary.pools.label(), "Sprout,Sapling");
}

#[test]
fn mixed_flows_by_sign() {
    let p = pools(true, false, true, true);
    let cases = [
        (-3, 0, FlowType::ShieldingSapling, "Shielding        : T → S"),
        (0, -3, FlowType::ShieldingOrchard, "Shielding        : T → O"),
        (-1, -9, FlowType::ShieldingBoth, "Shielding        : T → S+O"),
        (5, 0, FlowType::DeshieldingSapling, "Deshielding      : S → T"),
        (0, 5, FlowType::DeshieldingOrchard, "Deshielding      : O → T"),
        (5, 5, FlowType::DeshieldingBoth, "Deshielding      : S+O → T"),
        (5, -5, FlowType::DeshieldingSaplingShieldingOrchard, "Deshielding      : S → T + T → O"),
        (-5, 5, FlowType::DeshieldingOrchardShieldingSapling, "Deshielding      : O → T + T → S"),
        (0, 0, FlowType::ZeroNet, "Zero-net Shielded (Z→Z)"),
    ];
    for (s, o, flow, label) in cases {
        let f = classify_flow(&p, s, o);
        assert_eq!(f, flow);
        assert_eq!(f.label(), label);
    }
}

#[test]
fn private_and_transparent_flows() {
    assert_eq!(classify_flow(&pools(true, false, false, false), 9, 9), FlowType::Transparent);
    assert_eq!(classify_flow(&pools(false, false, false, true), 9, 9), FlowType::PrivateOrchard);
    assert_eq!(classify_flow(&pools(false, false, true, false), -9, 9), FlowType::PrivateSapling);
    assert_eq!(classify_flow(&pools(false, false, true, true), 0, 0), FlowType::PrivateBoth);
    assert_eq!(classify_flow(&pools(false, false, false, false), 0, 0), FlowType::PrivateBoth);
    assert_eq!(classify_flow(&pools(false, true, false, false), 1, 1), FlowType::PrivateBoth);
    assert_eq!(FlowType::PrivateBoth.label(), "Private          : S+O → S+O");
}

#[test]
fn flow_agrees_with_pool_label_rule() {
    let amounts = [i64::MIN, -1, 0, 1, i64::MAX];
    for bits in 0..16u8 {
        let p = pools(bits & 1 != 0, bits & 2 != 0, bits & 4 != 0, bits & 8 != 0);
        let label = p.label();
        for &s in &amounts {
            for &o in &amounts {
                let f = classify_flow(&p, s, o);
                assert_eq!(f.label(), flow_by_label(&label, s, o));
                assert_ne!(f, FlowType::ComplexMixed);
            }
        }
    }
}

#[test]
fn ranks_list_labels_in_order() {
    let labels: Vec<String> = (0..14).map(|r| FlowType::at_rank(r).label()).collect();
    for r in 0..14 {
        assert_eq!(FlowType::at_rank(r).rank(), r);
    }
    for w in labels.windows(2) {
        assert!(w[0] < w[1], "{:?} should come before {:?}", w[0], w[1]);
    }
}

#[test]
fn groups_follow_label_prefixes() {
    for r in 0..14 {
        let label = FlowType::at_rank(r).label();
        assert_eq!(label.starts_with("Deshielding"), (1..=5).contains(&r));
        assert_eq!(label.starts_with("Private"), (6..=8).contains(&r));
        assert_eq!(label.starts_with("Shielding"), (9..=11).contains(&r));
    }
}

#[test]
fn classify_whole_transactions() {
    let mut shielding = empty_tx("t1");
    shielding.vin_count = 2;
    shielding.vout_zat = vec![1_000];
    shielding.shielded_output_count = Some(1);
    shielding.value_balance_zat = Some(-100_000);
    let mut private = empty_tx("t2");
    private.orchard = Some(OrchardBundle { actions: Some(2), value_balance_zat: Some(10_000) });
    let classes = classify_transactions(&vec![shielding.clone(), private]);
    assert_eq!(classes.len(), 2);
    assert_eq!(classes[0].txid, "t1");
    assert_eq!(classes[0].flow, FlowType::ShieldingSapling);
    assert_eq!(classes[0].transparent_zat, 1_000);
    assert_eq!(classes[0].sapling_zat, -100_000);
    assert_eq!(classes[1].txid, "t2");
    assert_eq!(classes[1].flow, FlowType::PrivateOrchard);
    assert_eq!(classes[1].orchard_zat, 10_000);
    let one = classify_transaction(&shielding);
    assert_eq!(one.flow, FlowType::ShieldingSapling);
}

#[test]
fn empty_list_counts_as_absent() {
    let mut tx = empty_tx("cc");
    tx.vin_count = 1;
    tx.vout_zat = vec![7];
    tx.value_balance_zat = Some(-3);
    tx.orchard = Some(OrchardBundle { actions: None, value_balance_zat: Some(4) });
    let base = detect_pools(&tx);
    let mut tx2 = tx.clone();
    tx2.joinsplit_count = Some(0);
    tx2.shielded_spend_count = Some(0);
    tx2.shielded_output_count = Some(0);
    tx2.orchard = Some(OrchardBundle { actions: Some(0), value_balance_zat: Some(4) });
    assert_eq!(detect_pools(&tx2), base);
}
