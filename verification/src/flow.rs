//! The flow type of a transaction: which way value moves between the
//! transparent and the shielded pools.

use vstd::prelude::*;
use crate::pools::{Pools, RawTx, PoolSummary, detect_pools, pools_of, zat_sum, sum_fits_i64,
    sapling_balance, orchard_balance};

verus! {

/// The flow types, declared in the order of their labels.
#[derive(Clone, Copy, Debug, PartialEq, Eq, Structural)]
pub enum FlowType {
    ComplexMixed,
    DeshieldingOrchard,
    DeshieldingOrchardShieldingSapling,
    DeshieldingSapling,
    DeshieldingSaplingShieldingOrchard,
    DeshieldingBoth,
    PrivateOrchard,
    PrivateSapling,
    PrivateBoth,
    ShieldingOrchard,
    ShieldingSapling,
    ShieldingBoth,
    Transparent,
    ZeroNet,
}

/// Number of flow types.
pub const FLOW_TYPE_COUNT: usize = 14;

pub open spec fn flow_label(f: FlowType) -> Seq<char> {
    match f {
        FlowType::ComplexMixed => "Complex Mixed"@,
        FlowType::DeshieldingOrchard => "Deshielding      : O → T"@,
        FlowType::DeshieldingOrchardShieldingSapling => "Deshielding      : O → T + T → S"@,
        FlowType::DeshieldingSapling => "Deshielding      : S → T"@,
        FlowType::DeshieldingSaplingShieldingOrchard => "Deshielding      : S → T + T → O"@,
        FlowType::DeshieldingBoth => "Deshielding      : S+O → T"@,
        FlowType::PrivateOrchard => "Private          : O → O"@,
        FlowType::PrivateSapling => "Private          : S → S"@,
        FlowType::PrivateBoth => "Private          : S+O → S+O"@,
        FlowType::ShieldingOrchard => "Shielding        : T → O"@,
        FlowType::ShieldingSapling => "Shielding        : T → S"@,
        FlowType::ShieldingBoth => "Shielding        : T → S+O"@,
        FlowType::Transparent => "Transparent"@,
        FlowType::ZeroNet => "Zero-net Shielded (Z→Z)"@,
    }
}

/// Position of a flow type in the order of the labels.
pub open spec fn flow_rank(f: FlowType) -> nat {
    match f {
        FlowType::ComplexMixed => 0,
        FlowType::DeshieldingOrchard => 1,
        FlowType::DeshieldingOrchardShieldingSapling => 2,
        FlowType::DeshieldingSapling => 3,
        FlowType::DeshieldingSaplingShieldingOrchard => 4,
        FlowType::DeshieldingBoth => 5,
        FlowType::PrivateOrchard => 6,
        FlowType::PrivateSapling => 7,
        FlowType::PrivateBoth => 8,
        FlowType::ShieldingOrchard => 9,
        FlowType::ShieldingSapling => 10,
        FlowType::ShieldingBoth => 11,
        FlowType::Transparent => 12,
        FlowType::ZeroNet => 13,
    }
}

/// The flow type at a given position in label order.
pub open spec fn flow_at_rank(r: int) -> FlowType {
    if r == 0 {
        FlowType::ComplexMixed
    } else if r == 1 {
        FlowType::DeshieldingOrchard
    } else if r == 2 {
        FlowType::DeshieldingOrchardShieldingSapling
    } else if r == 3 {
        FlowType::DeshieldingSapling
    } else if r == 4 {
        FlowType::DeshieldingSaplingShieldingOrchard
    } else if r == 5 {
        FlowType::DeshieldingBoth
    } else if r == 6 {
        FlowType::PrivateOrchard
    } else if r == 7 {
        FlowType::PrivateSapling
    } else if r == 8 {
        FlowType::PrivateBoth
    } else if r == 9 {
        FlowType::ShieldingOrchard
    } else if r == 10 {
        FlowType::ShieldingSapling
    } else if r == 11 {
        FlowType::ShieldingBoth
    } else if r == 12 {
        FlowType::Transparent
    } else {
        FlowType::ZeroNet
    }
}

pub open spec fn is_deshielding(f: FlowType) -> bool {
    1 <= flow_rank(f) <= 5
}

pub open spec fn is_private(f: FlowType) -> bool {
    6 <= flow_rank(f) <= 8
}

pub open spec fn is_shielding(f: FlowType) -> bool {
    9 <= flow_rank(f) <= 11
}

pub open spec fn signum(x: int) -> int {
    if x > 0 {
        1
    } else if x < 0 {
        -1
    } else {
        0
    }
}

pub open spec fn only(p: Pools, transparent: bool, sprout: bool, sapling: bool, orchard: bool) -> bool {
    p == Pools { transparent, sprout, sapling, orchard }
}

/// Flow type of a transaction that touches the pools `p`, with net Sapling
/// balance `s` and net Orchard balance `o` (a positive balance leaves the
/// shielded pool, a negative one enters it).
pub open spec fn flow_type_spec(p: Pools, s: int, o: int) -> FlowType {
    if only(p, true, false, false, false) {
        FlowType::Transparent
    } else if !p.transparent {
        if only(p, false, false, false, true) {
            FlowType::PrivateOrchard
        } else if only(p, false, false, true, false) {
            FlowType::PrivateSapling
        } else {
            FlowType::PrivateBoth
        }
    } else {
        mixed_flow(s, o)
    }
}

/// Flow type of a transaction that touches the transparent pool and at least
/// one other, by the signs of its net Sapling and Orchard balances.
pub open spec fn mixed_flow(s: int, o: int) -> FlowType {
    if signum(s) == -1 && signum(o) == 0 {
        FlowType::ShieldingSapling
    } else if signum(s) == 0 && signum(o) == -1 {
        FlowType::ShieldingOrchard
    } else if signum(s) == -1 && signum(o) == -1 {
        FlowType::ShieldingBoth
    } else if signum(s) == 1 && signum(o) == 0 {
        FlowType::DeshieldingSapling
    } else if signum(s) == 0 && signum(o) == 1 {
        FlowType::DeshieldingOrchard
    } else if signum(s) == 1 && signum(o) == 1 {
        FlowType::DeshieldingBoth
    } else if signum(s) == 1 && signum(o) == -1 {
        FlowType::DeshieldingSaplingShieldingOrchard
    } else if signum(s) == -1 && signum(o) == 1 {
        FlowType::DeshieldingOrchardShieldingSapling
    } else if s == 0 && o == 0 {
        FlowType::ZeroNet
    } else {
        FlowType::ComplexMixed
    }
}

/// No transaction is classified Complex Mixed: each pair of balance signs
/// other than (0, 0) has its own flow type, and (0, 0) is zero-net.
pub proof fn lemma_never_complex_mixed(p: Pools, s: int, o: int)
    ensures
        flow_type_spec(p, s, o) != FlowType::ComplexMixed,
{
}

/// Only the signs of the balances matter to the classification.
pub proof fn lemma_flow_depends_on_signs(p: Pools, s: int, o: int)
    ensures
        flow_type_spec(p, s, o) == flow_type_spec(p, signum(s), signum(o)),
{
}

/// Ranks and flow types correspond one to one.
pub proof fn lemma_rank_roundtrip(f: FlowType, r: int)
    ensures
        flow_at_rank(flow_rank(f) as int) == f,
        0 <= r < 14 ==> flow_rank(flow_at_rank(r)) == r,
{
}

/// What each flow type of a transaction that touches the transparent pool
/// and another one means for its net Sapling balance `s` and Orchard balance
/// `o` (positive leaves the shielded pool, negative enters it).
pub proof fn lemma_mixed_flow_by_balances(s: int, o: int)
    ensures
        (mixed_flow(s, o) == FlowType::ShieldingSapling) == (s < 0 && o == 0),
        (mixed_flow(s, o) == FlowType::ShieldingOrchard) == (s == 0 && o < 0),
        (mixed_flow(s, o) == FlowType::ShieldingBoth) == (s < 0 && o < 0),
        (mixed_flow(s, o) == FlowType::DeshieldingSapling) == (s > 0 && o == 0),
        (mixed_flow(s, o) == FlowType::DeshieldingOrchard) == (s == 0 && o > 0),
        (mixed_flow(s, o) == FlowType::DeshieldingBoth) == (s > 0 && o > 0),
        (mixed_flow(s, o) == FlowType::DeshieldingSaplingShieldingOrchard) == (s > 0 && o < 0),
        (mixed_flow(s, o) == FlowType::DeshieldingOrchardShieldingSapling) == (s < 0 && o > 0),
        (mixed_flow(s, o) == FlowType::ZeroNet) == (s == 0 && o == 0),
{
}

/// A transaction is Transparent exactly when it touches the transparent pool
/// and no other; it is private exactly when it does not touch the
/// transparent pool, Orchard-only when Orchard is the only pool it touches
/// and Sapling-only when Sapling is.
pub proof fn lemma_flow_by_pools(p: Pools, s: int, o: int)
    ensures
        (flow_type_spec(p, s, o) == FlowType::Transparent) == (p.transparent && !p.sprout && !p.sapling
            && !p.orchard),
        is_private(flow_type_spec(p, s, o)) == !p.transparent,
        (flow_type_spec(p, s, o) == FlowType::PrivateOrchard) == (!p.transparent && !p.sprout
            && !p.sapling && p.orchard),
        (flow_type_spec(p, s, o) == FlowType::PrivateSapling) == (!p.transparent && !p.sprout
            && p.sapling && !p.orchard),
        p.transparent && (p.sprout || p.sapling || p.orchard) ==> flow_type_spec(p, s, o)
            == mixed_flow(s, o),
{
}

impl FlowType {
    /// The label under which this flow type is shown and counted.
    pub fn label(&self) -> (label: String)
        ensures
            label@ == flow_label(*self),
    {
        match self {
            FlowType::ComplexMixed => String::from_str("Complex Mixed"),
            FlowType::DeshieldingOrchard => String::from_str("Deshielding      : O → T"),
            FlowType::DeshieldingOrchardShieldingSapling => String::from_str(
                "Deshielding      : O → T + T → S",
            ),
            FlowType::DeshieldingSapling => String::from_str("Deshielding      : S → T"),
            FlowType::DeshieldingSaplingShieldingOrchard => String::from_str(
                "Deshielding      : S → T + T → O",
            ),
            FlowType::DeshieldingBoth => String::from_str("Deshielding      : S+O → T"),
            FlowType::PrivateOrchard => String::from_str("Private          : O → O"),
            FlowType::PrivateSapling => String::from_str("Private          : S → S"),
            FlowType::PrivateBoth => String::from_str("Private          : S+O → S+O"),
            FlowType::ShieldingOrchard => String::from_str("Shielding        : T → O"),
            FlowType::ShieldingSapling => String::from_str("Shielding        : T → S"),
            FlowType::ShieldingBoth => String::from_str("Shielding        : T → S+O"),
            FlowType::Transparent => String::from_str("Transparent"),
            FlowType::ZeroNet => String::from_str("Zero-net Shielded (Z→Z)"),
        }
    }

    /// Position of this flow type in label order.
    pub fn rank(&self) -> (r: usize)
        ensures
            r == flow_rank(*self),
            r < FLOW_TYPE_COUNT,
    {
        match self {
            FlowType::ComplexMixed => 0,
            FlowType::DeshieldingOrchard => 1,
            FlowType::DeshieldingOrchardShieldingSapling => 2,
            FlowType::DeshieldingSapling => 3,
            FlowType::DeshieldingSaplingShieldingOrchard => 4,
            FlowType::DeshieldingBoth => 5,
            FlowType::PrivateOrchard => 6,
            FlowType::PrivateSapling => 7,
            FlowType::PrivateBoth => 8,
            FlowType::ShieldingOrchard => 9,
            FlowType::ShieldingSapling => 10,
            FlowType::ShieldingBoth => 11,
            FlowType::Transparent => 12,
            FlowType::ZeroNet => 13,
        }
    }

    /// The flow type at position `r` in label order.
    pub fn at_rank(r: usize) -> (f: FlowType)
        requires
            r < FLOW_TYPE_COUNT,
        ensures
            f == flow_at_rank(r as int),
            flow_rank(f) == r,
    {
        if r == 0 {
            FlowType::ComplexMixed
        } else if r == 1 {
            FlowType::DeshieldingOrchard
        } else if r == 2 {
            FlowType::DeshieldingOrchardShieldingSapling
        } else if r == 3 {
            FlowType::DeshieldingSapling
        } else if r == 4 {
            FlowType::DeshieldingSaplingShieldingOrchard
        } else if r == 5 {
            FlowType::DeshieldingBoth
        } else if r == 6 {
            FlowType::PrivateOrchard
        } else if r == 7 {
            FlowType::PrivateSapling
        } else if r == 8 {
            FlowType::PrivateBoth
        } else if r == 9 {
            FlowType::ShieldingOrchard
        } else if r == 10 {
            FlowType::ShieldingSapling
        } else if r == 11 {
            FlowType::ShieldingBoth
        } else if r == 12 {
            FlowType::Transparent
        } else {
            FlowType::ZeroNet
        }
    }
}

fn signum_i64(x: i64) -> (s: i8)
    ensures
        s == signum(x as int),
{
    if x > 0 {
        1
    } else if x < 0 {
        -1
    } else {
        0
    }
}

/// The flow type of a transaction that touches `pools`, with net Sapling
/// balance `sapling_zat` and net Orchard balance `orchard_zat`.
pub fn classify_flow(pools: &Pools, sapling_zat: i64, orchard_zat: i64) -> (f: FlowType)
    ensures
        f == flow_type_spec(*pools, sapling_zat as int, orchard_zat as int),
{
    if pools.transparent && !pools.sprout && !pools.sapling && !pools.orchard {
        FlowType::Transparent
    } else if !pools.transparent {
        if !pools.sprout && !pools.sapling && pools.orchard {
            FlowType::PrivateOrchard
        } else if !pools.sprout && pools.sapling && !pools.orchard {
            FlowType::PrivateSapling
        } else {
            FlowType::PrivateBoth
        }
    } else {
        let s = signum_i64(sapling_zat);
        let o = signum_i64(orchard_zat);
        if s == -1 && o == 0 {
            FlowType::ShieldingSapling
        } else if s == 0 && o == -1 {
            FlowType::ShieldingOrchard
        } else if s == -1 && o == -1 {
            FlowType::ShieldingBoth
        } else if s == 1 && o == 0 {
            FlowType::DeshieldingSapling
        } else if s == 0 && o == 1 {
            FlowType::DeshieldingOrchard
        } else if s == 1 && o == 1 {
            FlowType::DeshieldingBoth
        } else if s == 1 && o == -1 {
            FlowType::DeshieldingSaplingShieldingOrchard
        } else if s == -1 && o == 1 {
            FlowType::DeshieldingOrchardShieldingSapling
        } else if sapling_zat == 0 && orchard_zat == 0 {
            FlowType::ZeroNet
        } else {
            FlowType::ComplexMixed
        }
    }
}

/// A classified mempool transaction; amounts are in zatoshis.
#[derive(Debug, Clone)]
pub struct TxClass {
    pub txid: String,
    pub flow: FlowType,
    pub transparent_zat: i64,
    pub sapling_zat: i64,
    pub orchard_zat: i64,
}

/// Classifies one transaction.
pub fn classify_transaction(tx: &RawTx) -> (class: TxClass)
    requires
        sum_fits_i64(tx.vout_zat@),
    ensures
        class.txid@ == tx.txid@,
        class.flow == flow_type_spec(pools_of(*tx), sapling_balance(*tx) as int,
            orchard_balance(*tx) as int),
        class.transparent_zat == zat_sum(tx.vout_zat@),
        class.sapling_zat == sapling_balance(*tx),
        class.orchard_zat == orchard_balance(*tx),
{
    let summary: PoolSummary = detect_pools(tx);
    let flow = classify_flow(&summary.pools, summary.sapling_zat, summary.orchard_zat);
    TxClass {
        txid: tx.txid.clone(),
        flow,
        transparent_zat: summary.transparent_zat,
        sapling_zat: summary.sapling_zat,
        orchard_zat: summary.orchard_zat,
    }
}

/// Classifies each transaction, keeping their order.
pub fn classify_transactions(txs: &Vec<RawTx>) -> (classes: Vec<TxClass>)
    requires
        forall|i: int| 0 <= i < txs@.len() ==> sum_fits_i64(#[trigger] txs@[i].vout_zat@),
    ensures
        classes@.len() == txs@.len(),
        forall|i: int|
            0 <= i < txs@.len() ==> {
                let tx = #[trigger] txs@[i];
                let class = classes@[i];
                &&& class.txid@ == tx.txid@
                &&& class.flow == flow_type_spec(pools_of(tx), sapling_balance(tx) as int,
                    orchard_balance(tx) as int)
                &&& class.transparent_zat == zat_sum(tx.vout_zat@)
                &&& class.sapling_zat == sapling_balance(tx)
                &&& class.orchard_zat == orchard_balance(tx)
            },
{
    let mut classes: Vec<TxClass> = Vec::new();
    let mut i: usize = 0;
    while i < txs.len()
        invariant
            i <= txs@.len(),
            classes@.len() == i,
            forall|i: int| 0 <= i < txs@.len() ==> sum_fits_i64(#[trigger] txs@[i].vout_zat@),
            forall|j: int|
                0 <= j < i ==> {
                    let tx = #[trigger] txs@[j];
                    let class = classes@[j];
                    &&& class.txid@ == tx.txid@
                    &&& class.flow == flow_type_spec(pools_of(tx), sapling_balance(tx) as int,
                        orchard_balance(tx) as int)
                    &&& class.transparent_zat == zat_sum(tx.vout_zat@)
                    &&& class.sapling_zat == sapling_balance(tx)
                    &&& class.orchard_zat == orchard_balance(tx)
                },
        decreases txs@.len() - i,
    {
        let class = classify_transaction(&txs[i]);
        classes.push(class);
        i = i + 1;
    }
    classes
}

} // verus!
