//! Laws that tie the flow types to their labels and to the pool labels.

use vstd::prelude::*;
use crate::pools::{Pools, pool_label, pool_names, join_names};
use crate::flow::{FlowType, flow_label, flow_rank, flow_at_rank, flow_type_spec, mixed_flow,
    is_deshielding, is_private, is_shielding};

verus! {

/// `t` occurs in `s` as a contiguous run.
pub open spec fn contains_seq(s: Seq<char>, t: Seq<char>) -> bool {
    exists|i: int| 0 <= i && i + t.len() <= s.len() && #[trigger] s.subrange(i, i + t.len()) == t
}

pub open spec fn starts_with(s: Seq<char>, prefix: Seq<char>) -> bool {
    prefix.len() <= s.len() && s.subrange(0, prefix.len() as int) == prefix
}

/// The flow type as read off a pool label: a label that is exactly
/// `Transparent` is Transparent; one that does not mention `Transparent` is
/// private (Orchard-only, Sapling-only, or else both); any other goes by the
/// signs of the balances.
pub open spec fn flow_of_pool_label(label: Seq<char>, s: int, o: int) -> FlowType {
    if label == "Transparent"@ {
        FlowType::Transparent
    } else if !contains_seq(label, "Transparent"@) {
        if label == "Orchard"@ {
            FlowType::PrivateOrchard
        } else if label == "Sapling"@ {
            FlowType::PrivateSapling
        } else {
            FlowType::PrivateBoth
        }
    } else {
        mixed_flow(s, o)
    }
}

/// The joined names begin with the first name, and are longer than it when
/// there are several.
proof fn lemma_join_prefix(names: Seq<Seq<char>>)
    requires
        names.len() >= 1,
    ensures
        join_names(names).len() >= names[0].len(),
        join_names(names).subrange(0, names[0].len() as int) =~= names[0],
        names.len() >= 2 ==> join_names(names).len() >= names[0].len() + 1 + names.last().len(),
    decreases names.len(),
{
    reveal_strlit(",");
    if names.len() >= 2 {
        let rest = names.drop_last();
        lemma_join_prefix(rest);
        assert(rest[0] == names[0]);
        let j = join_names(rest);
        assert(join_names(names) == j + ","@ + names.last());
        assert(join_names(names).subrange(0, names[0].len() as int) =~= j.subrange(0, names[0].len() as int));
    } else {
        assert(join_names(names) == names[0]);
    }
}

/// A char that is in no name and is not the comma is not in the joined names.
proof fn lemma_join_lacks(names: Seq<Seq<char>>, c: char)
    requires
        c != ',',
        forall|k: int, j: int| 0 <= k < names.len() && 0 <= j < names[k].len() ==> names[k][j] != c,
    ensures
        forall|j: int| 0 <= j < join_names(names).len() ==> join_names(names)[j] != c,
    decreases names.len(),
{
    reveal_strlit(",");
    if names.len() >= 2 {
        let rest = names.drop_last();
        assert forall|k: int, j: int| 0 <= k < rest.len() && 0 <= j < rest[k].len() implies rest[k][j] != c by {
            assert(rest[k] == names[k]);
        }
        lemma_join_lacks(rest, c);
        let j0 = join_names(rest);
        let last = names.last();
        assert forall|j: int| 0 <= j < join_names(names).len() implies join_names(names)[j] != c by {
            if j >= j0.len() + 1 {
                assert(join_names(names)[j] == last[j - j0.len() - 1]);
                assert(names[names.len() - 1] == last);
            }
        }
    } else if names.len() == 1 {
        assert forall|j: int| 0 <= j < join_names(names).len() implies join_names(names)[j] != c by {
            assert(join_names(names)[j] == names[0][j]);
        }
    }
}

proof fn lemma_not_contains_lacking_first(s: Seq<char>, t: Seq<char>)
    requires
        t.len() > 0,
        forall|j: int| 0 <= j < s.len() ==> s[j] != t[0],
    ensures
        !contains_seq(s, t),
{
    if contains_seq(s, t) {
        let i = choose|i: int| 0 <= i && i + t.len() <= s.len() && #[trigger] s.subrange(i, i + t.len()) == t;
        assert(s.subrange(i, i + t.len())[0] == s[i]);
    }
}

/// Classifying by the pools agrees with classifying by the pool label, as
/// the label-matching rule reads it.
pub proof fn lemma_flow_agrees_with_pool_label(p: Pools, s: int, o: int)
    ensures
        flow_type_spec(p, s, o) == flow_of_pool_label(pool_label(p), s, o),
{
    reveal_strlit("Transparent");
    reveal_strlit("Sprout");
    reveal_strlit("Sapling");
    reveal_strlit("Orchard");
    reveal_strlit("Unknown");
    reveal_strlit(",");
    let names = pool_names(p);
    let label = pool_label(p);
    if p.transparent {
        assert(names[0] == "Transparent"@);
        lemma_join_prefix(names);
        assert(contains_seq(label, "Transparent"@)) by {
            assert(label.subrange(0, 0int + "Transparent"@.len()) == "Transparent"@);
        }
        if !(p == (Pools { transparent: true, sprout: false, sapling: false, orchard: false })) {
            assert(names.len() >= 2);
            assert(label.len() > 11);
        } else {
            assert(names =~= seq!["Transparent"@]);
        }
    } else {
        assert forall|k: int, j: int| 0 <= k < names.len() && 0 <= j < names[k].len() implies names[k][j] != 'T' by {
            assert(names[k] == "Sprout"@ || names[k] == "Sapling"@ || names[k] == "Orchard"@);
        }
        lemma_join_lacks(names, 'T');
        assert forall|j: int| 0 <= j < label.len() implies label[j] != "Transparent"@[0] by {
            if names.len() == 0 {
                assert(label == "Unknown"@);
            }
        }
        lemma_not_contains_lacking_first(label, "Transparent"@);
        assert(label != "Transparent"@) by {
            if label.len() > 0 {
                assert(label[0] != 'T');
            }
        }
        if names.len() >= 2 {
            lemma_join_prefix(names);
            assert(names[0].len() >= 6);
            assert(names.last().len() >= 6);
            assert(label.len() > 7);
        } else if names.len() == 1 {
            assert(label == names[0]);
            if p.sprout {
                assert(names =~= seq!["Sprout"@]);
            } else if p.sapling {
                assert(names =~= seq!["Sapling"@]);
                assert(label[0] != "Orchard"@[0]);
            } else {
                assert(names =~= seq!["Orchard"@]);
            }
        } else {
            assert(label == "Unknown"@);
            assert(label[0] != "Orchard"@[0]);
            assert(label[0] != "Sapling"@[0]);
        }
    }
}

proof fn lemma_differs_at_start(s: Seq<char>, prefix: Seq<char>)
    requires
        s.len() > 0,
        prefix.len() > 0,
        s[0] != prefix[0],
    ensures
        !starts_with(s, prefix),
{
    if prefix.len() <= s.len() {
        assert(s.subrange(0, prefix.len() as int)[0] == s[0]);
    }
}

/// The deshielding, shielding and private groups are the flow types whose
/// labels begin with `Deshielding`, `Shielding` and `Private`.
pub proof fn lemma_groups_by_label_prefix(f: FlowType)
    ensures
        is_deshielding(f) <==> starts_with(flow_label(f), "Deshielding"@),
        is_shielding(f) <==> starts_with(flow_label(f), "Shielding"@),
        is_private(f) <==> starts_with(flow_label(f), "Private"@),
{
    reveal_strlit("Deshielding");
    reveal_strlit("Shielding");
    reveal_strlit("Private");
    reveal_strlit("Complex Mixed");
    reveal_strlit("Deshielding      : O → T");
    reveal_strlit("Deshielding      : O → T + T → S");
    reveal_strlit("Deshielding      : S → T");
    reveal_strlit("Deshielding      : S → T + T → O");
    reveal_strlit("Deshielding      : S+O → T");
    reveal_strlit("Private          : O → O");
    reveal_strlit("Private          : S → S");
    reveal_strlit("Private          : S+O → S+O");
    reveal_strlit("Shielding        : T → O");
    reveal_strlit("Shielding        : T → S");
    reveal_strlit("Shielding        : T → S+O");
    reveal_strlit("Transparent");
    reveal_strlit("Zero-net Shielded (Z→Z)");
    let l = flow_label(f);
    let d = "Deshielding"@;
    let sh = "Shielding"@;
    let pr = "Private"@;
    if is_deshielding(f) {
        assert(l.subrange(0, d.len() as int) =~= d);
    } else {
        lemma_differs_at_start(l, d);
    }
    if is_shielding(f) {
        assert(l.subrange(0, sh.len() as int) =~= sh);
    } else {
        lemma_differs_at_start(l, sh);
    }
    if is_private(f) {
        assert(l.subrange(0, pr.len() as int) =~= pr);
    } else {
        lemma_differs_at_start(l, pr);
    }
}

/// `a` comes before `b` when compared char by char (by code point), a proper
/// prefix first: the order of `str`, since UTF-8 keeps code point order.
pub open spec fn lex_lt(a: Seq<char>, b: Seq<char>) -> bool {
    exists|k: int| #[trigger] lex_lt_at(a, b, k)
}

/// `a` and `b` agree before `k`, and `k` is where `a` ends while `b` goes on
/// or where `a` has the smaller char.
pub open spec fn lex_lt_at(a: Seq<char>, b: Seq<char>, k: int) -> bool {
    &&& 0 <= k <= a.len()
    &&& k <= b.len()
    &&& a.subrange(0, k) == b.subrange(0, k)
    &&& ((k == a.len() && k < b.len()) || (k < a.len() && k < b.len() && (a[k] as u32) < (b[k] as u32)))
}

proof fn lemma_lex_lt_transitive(a: Seq<char>, b: Seq<char>, c: Seq<char>)
    requires
        lex_lt(a, b),
        lex_lt(b, c),
    ensures
        lex_lt(a, c),
{
    let k1 = choose|k: int| #[trigger] lex_lt_at(a, b, k);
    let k2 = choose|k: int| #[trigger] lex_lt_at(b, c, k);
    if k1 < k2 {
        assert(b.subrange(0, k1) =~= b.subrange(0, k2).subrange(0, k1));
        assert(c.subrange(0, k1) =~= c.subrange(0, k2).subrange(0, k1));
        assert(b[k1] == b.subrange(0, k2)[k1]);
        assert(c[k1] == c.subrange(0, k2)[k1]);
        assert(lex_lt_at(a, c, k1));
    } else if k2 < k1 {
        assert(a.subrange(0, k2) =~= a.subrange(0, k1).subrange(0, k2));
        assert(b.subrange(0, k2) =~= b.subrange(0, k1).subrange(0, k2));
        assert(a[k2] == a.subrange(0, k1)[k2]);
        assert(b[k2] == b.subrange(0, k1)[k2]);
        assert(lex_lt_at(a, c, k2));
    } else {
        assert(lex_lt_at(a, c, k1));
    }
}

proof fn lemma_adjacent_labels(r: int)
    requires
        0 <= r < 13,
    ensures
        lex_lt(flow_label(flow_at_rank(r)), flow_label(flow_at_rank(r + 1))),
{
    reveal_strlit("Complex Mixed");
    reveal_strlit("Deshielding      : O → T");
    reveal_strlit("Deshielding      : O → T + T → S");
    reveal_strlit("Deshielding      : S → T");
    reveal_strlit("Deshielding      : S → T + T → O");
    reveal_strlit("Deshielding      : S+O → T");
    reveal_strlit("Private          : O → O");
    reveal_strlit("Private          : S → S");
    reveal_strlit("Private          : S+O → S+O");
    reveal_strlit("Shielding        : T → O");
    reveal_strlit("Shielding        : T → S");
    reveal_strlit("Shielding        : T → S+O");
    reveal_strlit("Transparent");
    reveal_strlit("Zero-net Shielded (Z→Z)");
    let a = flow_label(flow_at_rank(r));
    let b = flow_label(flow_at_rank(r + 1));
    let k: int = if r == 1 || r == 3 || r == 10 {
        a.len() as int
    } else if r == 2 || r == 6 {
        19
    } else if r == 4 || r == 7 {
        20
    } else if r == 9 {
        23
    } else {
        0
    };
    assert(a.subrange(0, k) =~= b.subrange(0, k));
    assert(lex_lt_at(a, b, k));
}

proof fn lemma_rank_chain(i: int, j: int)
    requires
        0 <= i < j < 14,
    ensures
        lex_lt(flow_label(flow_at_rank(i)), flow_label(flow_at_rank(j))),
    decreases j - i,
{
    lemma_adjacent_labels(j - 1);
    if i < j - 1 {
        lemma_rank_chain(i, j - 1);
        lemma_lex_lt_transitive(
            flow_label(flow_at_rank(i)),
            flow_label(flow_at_rank(j - 1)),
            flow_label(flow_at_rank(j)),
        );
    }
}

/// Rank order is label order: listing flow types by rank lists their labels
/// in ascending string order.
pub proof fn lemma_rank_order_is_label_order(f: FlowType, g: FlowType)
    requires
        flow_rank(f) < flow_rank(g),
    ensures
        lex_lt(flow_label(f), flow_label(g)),
{
    assert(flow_at_rank(flow_rank(f) as int) == f);
    assert(flow_at_rank(flow_rank(g) as int) == g);
    lemma_rank_chain(flow_rank(f) as int, flow_rank(g) as int);
}

} // verus!
