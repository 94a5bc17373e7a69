//! Which value pools a transaction touches, and its net pool balances.

use vstd::prelude::*;

verus! {

/// The Orchard bundle of a transaction, as far as pool detection reads it.
#[derive(Debug, Clone)]
pub struct OrchardBundle {
    /// Number of entries in the bundle's `actions` list, when the node reports one.
    pub actions: Option<usize>,
    /// Net Orchard value balance in zatoshis, when the node reports one.
    pub value_balance_zat: Option<i64>,
}

/// A raw mempool transaction as reported by the node, reduced to what the
/// classification reads: list lengths and zatoshi amounts.
#[derive(Debug, Clone)]
pub struct RawTx {
    pub txid: String,
    /// Number of transparent inputs.
    pub vin_count: usize,
    /// The `valueZat` of each transparent output, in order.
    pub vout_zat: Vec<i64>,
    /// Length of the `vjoinsplit` list (Sprout), when present.
    pub joinsplit_count: Option<usize>,
    /// Length of the `vShieldedSpend` list (Sapling), when present.
    pub shielded_spend_count: Option<usize>,
    /// Length of the `vShieldedOutput` list (Sapling), when present.
    pub shielded_output_count: Option<usize>,
    pub orchard: Option<OrchardBundle>,
    /// Net Sapling value balance in zatoshis, when present.
    pub value_balance_zat: Option<i64>,
}

/// The set of value pools that a transaction touches.
#[derive(Clone, Copy, Debug, PartialEq, Eq, Structural)]
pub struct Pools {
    pub transparent: bool,
    pub sprout: bool,
    pub sapling: bool,
    pub orchard: bool,
}

/// What `detect_pools` finds out about one transaction.
#[derive(Debug, Clone, Copy, PartialEq, Eq, Structural)]
pub struct PoolSummary {
    pub pools: Pools,
    /// Sum of the transparent outputs, in zatoshis.
    pub transparent_zat: i64,
    /// Net Sapling value balance (0 when absent).
    pub sapling_zat: i64,
    /// Net Orchard value balance (0 when absent).
    pub orchard_zat: i64,
}

/// A list whose length is known and positive.
pub open spec fn non_empty(list: Option<usize>) -> bool {
    list matches Some(n) && n > 0
}

pub open spec fn pools_of(tx: RawTx) -> Pools {
    Pools {
        transparent: tx.vin_count > 0 || tx.vout_zat@.len() > 0,
        sprout: non_empty(tx.joinsplit_count),
        sapling: non_empty(tx.shielded_spend_count) || non_empty(tx.shielded_output_count),
        orchard: tx.orchard matches Some(bundle) && non_empty(bundle.actions),
    }
}

/// Mathematical sum of a list of zatoshi amounts.
pub open spec fn zat_sum(values: Seq<i64>) -> int
    decreases values.len(),
{
    if values.len() == 0 {
        0
    } else {
        zat_sum(values.drop_last()) + values.last()
    }
}

/// Every running total of `values`, summed from the front, fits in an `i64`.
pub open spec fn sum_fits_i64(values: Seq<i64>) -> bool {
    forall|k: int| 0 <= k <= values.len() ==> i64::MIN <= #[trigger] zat_sum(values.take(k)) <= i64::MAX
}

pub open spec fn sapling_balance(tx: RawTx) -> i64 {
    match tx.value_balance_zat {
        Some(v) => v,
        None => 0,
    }
}

pub open spec fn orchard_balance(tx: RawTx) -> i64 {
    match tx.orchard {
        Some(bundle) => match bundle.value_balance_zat {
            Some(v) => v,
            None => 0,
        },
        None => 0,
    }
}

/// The names of the pools in `p`, in the fixed order Transparent, Sprout,
/// Sapling, Orchard.
pub open spec fn pool_names(p: Pools) -> Seq<Seq<char>> {
    (if p.transparent { seq!["Transparent"@] } else { Seq::empty() })
        + (if p.sprout { seq!["Sprout"@] } else { Seq::empty() })
        + (if p.sapling { seq!["Sapling"@] } else { Seq::empty() })
        + (if p.orchard { seq!["Orchard"@] } else { Seq::empty() })
}

/// The names joined with commas.
pub open spec fn join_names(names: Seq<Seq<char>>) -> Seq<char>
    decreases names.len(),
{
    if names.len() == 0 {
        Seq::empty()
    } else if names.len() == 1 {
        names[0]
    } else {
        join_names(names.drop_last()) + ","@ + names.last()
    }
}

/// The pool label: the comma-joined pool names, or `Unknown` when the
/// transaction touches no pool.
pub open spec fn pool_label(p: Pools) -> Seq<char> {
    if pool_names(p).len() == 0 {
        "Unknown"@
    } else {
        join_names(pool_names(p))
    }
}

fn has_items(list: Option<usize>) -> (b: bool)
    ensures
        b == non_empty(list),
{
    match list {
        Some(n) => n > 0,
        None => false,
    }
}

/// Appends `name` to a comma-separated list held in `out`.
fn append_name(out: &mut String, first: bool, name: &str)
    ensures
        final(out)@ == (if first { name@ } else { old(out)@ + ","@ + name@ }),
{
    if first {
        *out = String::from_str(name);
    } else {
        out.append(",");
        out.append(name);
    }
}

proof fn lemma_join_push(names: Seq<Seq<char>>, name: Seq<char>)
    ensures
        join_names(names.push(name)) == (if names.len() == 0 { name } else {
            join_names(names) + ","@ + name
        }),
{
    assert(names.push(name).drop_last() =~= names);
}

impl Pools {
    /// The comma-joined names of the pools, `Unknown` when there are none.
    pub fn label(&self) -> (label: String)
        ensures
            label@ == pool_label(*self),
    {
        let ghost mut names: Seq<Seq<char>> = Seq::empty();
        let mut out = String::new();
        let mut first = true;
        if self.transparent {
            append_name(&mut out, first, "Transparent");
            proof {
                lemma_join_push(names, "Transparent"@);
                names = names.push("Transparent"@);
            }
            first = false;
        }
        assert(out@ == join_names(names) && first == (names.len() == 0));
        if self.sprout {
            append_name(&mut out, first, "Sprout");
            proof {
                lemma_join_push(names, "Sprout"@);
                names = names.push("Sprout"@);
            }
            first = false;
        }
        assert(out@ == join_names(names) && first == (names.len() == 0));
        if self.sapling {
            append_name(&mut out, first, "Sapling");
            proof {
                lemma_join_push(names, "Sapling"@);
                names = names.push("Sapling"@);
            }
            first = false;
        }
        assert(out@ == join_names(names) && first == (names.len() == 0));
        if self.orchard {
            append_name(&mut out, first, "Orchard");
            proof {
                lemma_join_push(names, "Orchard"@);
                names = names.push("Orchard"@);
            }
            first = false;
        }
        assert(names =~= pool_names(*self));
        if first {
            String::from_str("Unknown")
        } else {
            out
        }
    }
}

/// Finds the pools that `tx` touches and its net transparent, Sapling and
/// Orchard amounts in zatoshis.
pub fn detect_pools(tx: &RawTx) -> (summary: PoolSummary)
    requires
        sum_fits_i64(tx.vout_zat@),
    ensures
        summary.pools == pools_of(*tx),
        summary.transparent_zat == zat_sum(tx.vout_zat@),
        summary.sapling_zat == sapling_balance(*tx),
        summary.orchard_zat == orchard_balance(*tx),
        summary.pools.transparent == (tx.vin_count > 0 || tx.vout_zat@.len() > 0),
        summary.pools.sprout == (tx.joinsplit_count matches Some(n) && n > 0),
        summary.pools.sapling == ((tx.shielded_spend_count matches Some(n) && n > 0)
            || (tx.shielded_output_count matches Some(n) && n > 0)),
        summary.pools.orchard == (tx.orchard matches Some(b) && (b.actions matches Some(n) && n > 0)),
        tx.value_balance_zat matches Some(v) ==> summary.sapling_zat == v,
        tx.value_balance_zat is None ==> summary.sapling_zat == 0,
        tx.orchard matches Some(b) ==> (b.value_balance_zat matches Some(v) ==> summary.orchard_zat == v),
        !(tx.orchard matches Some(b) && b.value_balance_zat is Some) ==> summary.orchard_zat == 0,
{
    let transparent = tx.vin_count > 0 || tx.vout_zat.len() > 0;
    let sprout = has_items(tx.joinsplit_count);
    let sapling = has_items(tx.shielded_spend_count) || has_items(tx.shielded_output_count);
    let orchard = match &tx.orchard {
        Some(bundle) => has_items(bundle.actions),
        None => false,
    };
    let mut transparent_zat: i64 = 0;
    let mut i: usize = 0;
    while i < tx.vout_zat.len()
        invariant
            i <= tx.vout_zat@.len(),
            transparent_zat == zat_sum(tx.vout_zat@.take(i as int)),
            sum_fits_i64(tx.vout_zat@),
        decreases tx.vout_zat@.len() - i,
    {
        assert(tx.vout_zat@.take(i + 1).drop_last() =~= tx.vout_zat@.take(i as int));
        assert(i64::MIN <= zat_sum(tx.vout_zat@.take(i + 1)) <= i64::MAX);
        transparent_zat = transparent_zat + tx.vout_zat[i];
        i = i + 1;
    }
    assert(tx.vout_zat@.take(tx.vout_zat@.len() as int) =~= tx.vout_zat@);
    let sapling_zat = match tx.value_balance_zat {
        Some(v) => v,
        None => 0,
    };
    let orchard_zat = match &tx.orchard {
        Some(bundle) => match bundle.value_balance_zat {
            Some(v) => v,
            None => 0,
        },
        None => 0,
    };
    PoolSummary {
        pools: Pools { transparent, sprout, sapling, orchard },
        transparent_zat,
        sapling_zat,
        orchard_zat,
    }
}

/// Two list lengths that say the same about the pool: equal, or one list
/// absent and the other present but empty.
pub open spec fn same_up_to_empty(a: Option<usize>, b: Option<usize>) -> bool {
    a == b || (a is None && b == Some(0usize)) || (a == Some(0usize) && b is None)
}

/// An empty list counts as no list: switching any of the Sprout, Sapling or
/// Orchard lists between absent and present-but-empty changes neither the
/// pools found nor the amounts.
pub proof fn lemma_empty_list_is_absent(tx: RawTx, tx2: RawTx)
    requires
        tx2.txid@ == tx.txid@,
        tx2.vin_count == tx.vin_count,
        tx2.vout_zat@ == tx.vout_zat@,
        same_up_to_empty(tx.joinsplit_count, tx2.joinsplit_count),
        same_up_to_empty(tx.shielded_spend_count, tx2.shielded_spend_count),
        same_up_to_empty(tx.shielded_output_count, tx2.shielded_output_count),
        match (tx.orchard, tx2.orchard) {
            (Some(a), Some(b)) => same_up_to_empty(a.actions, b.actions) && a.value_balance_zat
                == b.value_balance_zat,
            (None, None) => true,
            _ => false,
        },
        tx2.value_balance_zat == tx.value_balance_zat,
    ensures
        pools_of(tx2) == pools_of(tx),
        zat_sum(tx2.vout_zat@) == zat_sum(tx.vout_zat@),
        sapling_balance(tx2) == sapling_balance(tx),
        orchard_balance(tx2) == orchard_balance(tx),
{
}

/// A transaction touches the transparent pool exactly when it has a
/// transparent input or output; Sprout when its joinsplit list is non-empty;
/// Sapling when its spend list or its output list is non-empty; Orchard when
/// its Orchard bundle has a non-empty action list.
pub proof fn lemma_pools_read_the_lists(tx: RawTx)
    ensures
        pools_of(tx).transparent == (tx.vin_count > 0 || tx.vout_zat@.len() > 0),
        pools_of(tx).sprout == (tx.joinsplit_count matches Some(n) && n > 0),
        pools_of(tx).sapling == ((tx.shielded_spend_count matches Some(n) && n > 0)
            || (tx.shielded_output_count matches Some(n) && n > 0)),
        pools_of(tx).orchard == (tx.orchard matches Some(b) && (b.actions matches Some(n) && n > 0)),
{
}

/// The sum of no amounts is 0, of one amount is that amount, and the sum of
/// two lists joined is the sum of their sums.
pub proof fn lemma_zat_sum_adds(a: Seq<i64>, b: Seq<i64>, x: i64)
    ensures
        zat_sum(Seq::empty()) == 0,
        zat_sum(seq![x]) == x,
        zat_sum(a + b) == zat_sum(a) + zat_sum(b),
    decreases b.len(),
{
    assert(seq![x].drop_last() =~= Seq::<i64>::empty());
    if b.len() > 0 {
        assert((a + b).drop_last() =~= a + b.drop_last());
        lemma_zat_sum_adds(a, b.drop_last(), x);
    } else {
        assert(a + b =~= a);
    }
}

} // verus!
