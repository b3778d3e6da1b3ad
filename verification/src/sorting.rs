use vstd::prelude::*;
use crate::text::{lex_le, lemma_lex_total, lemma_lex_trans, text_le};

verus! {

/// The names of `s` are in non-decreasing lexicographic order.
pub open spec fn sorted_by_name<T>(s: Seq<(String, T)>) -> bool {
    forall|i: int, j: int| 0 <= i < j < s.len() ==> lex_le(#[trigger] s[i].0@, #[trigger] s[j].0@)
}

/// Orders `items` by name, ascending; ties keep no particular order.  The
/// result holds exactly the items that were given.
pub fn sort_by_name<T>(items: Vec<(String, T)>) -> (out: Vec<(String, T)>)
    ensures
        sorted_by_name(out@),
        out@.to_multiset() == items@.to_multiset(),
        out@.len() == items@.len(),
{
    broadcast use vstd::seq_lib::group_to_multiset_ensures, vstd::multiset::group_multiset_axioms;
    let ghost original = items@;
    let mut rest = items;
    let mut out: Vec<(String, T)> = Vec::new();
    while rest.len() > 0
        invariant
            sorted_by_name(out@),
            rest@.to_multiset().add(out@.to_multiset()) == original.to_multiset(),
        decreases rest.len(),
    {
        let ghost before = rest@;
        let item = rest.pop().unwrap();
        proof {
            assert(before =~= rest@.push(item));
        }
        let mut p: usize = 0;
        while p < out.len() && text_le(out[p].0.as_str(), item.0.as_str())
            invariant
                p <= out.len(),
                forall|k: int| 0 <= k < p ==> lex_le(#[trigger] out@[k].0@, item.0@),
            decreases out.len() - p,
        {
            p = p + 1;
        }
        let ghost old_out = out@;
        proof {
            if p < out.len() {
                lemma_lex_total(out@[p as int].0@, item.0@);
            }
        }
        out.insert(p, item);
        proof {
            vstd::seq_lib::to_multiset_insert(old_out, p as int, item);
            assert forall|i: int, j: int| 0 <= i < j < out@.len() implies lex_le(
                #[trigger] out@[i].0@,
                #[trigger] out@[j].0@,
            ) by {
                if j < p {
                    assert(out@[i] == old_out[i] && out@[j] == old_out[j]);
                } else if j == p {
                    assert(out@[i] == old_out[i]);
                } else if i == p {
                    assert(out@[j] == old_out[j - 1]);
                    if j - 1 > p {
                        lemma_lex_trans(item.0@, old_out[p as int].0@, old_out[j - 1].0@);
                    }
                } else if i < p {
                    assert(out@[i] == old_out[i] && out@[j] == old_out[j - 1]);
                } else {
                    assert(out@[i] == old_out[i - 1] && out@[j] == old_out[j - 1]);
                }
            }
            vstd::seq_lib::to_multiset_build(rest@, item);
            assert(before.to_multiset() == rest@.to_multiset().insert(item));
            assert(out@.to_multiset() == old_out.to_multiset().insert(item));
            assert(rest@.to_multiset().add(out@.to_multiset()) =~= before.to_multiset().add(
                old_out.to_multiset(),
            ));
        }
    }
    proof {
        assert(rest@ =~= Seq::<(String, T)>::empty());
        assert(out@.to_multiset() =~= original.to_multiset());
        vstd::seq_lib::to_multiset_len(out@);
        vstd::seq_lib::to_multiset_len(original);
    }
    out
}

/// Mapping both sides keeps two sequences with the same elements equal as
/// multisets.
pub proof fn lemma_multiset_map<A, B>(a: Seq<A>, b: Seq<A>, f: spec_fn(A) -> B)
    requires
        a.to_multiset() == b.to_multiset(),
    ensures
        a.map_values(f).to_multiset() == b.map_values(f).to_multiset(),
    decreases a.len(),
{
    broadcast use vstd::seq_lib::group_to_multiset_ensures, vstd::multiset::group_multiset_axioms;
    if a.len() == 0 {
        vstd::seq_lib::to_multiset_len(b);
        assert(b.len() == 0);
        assert(a.map_values(f) =~= Seq::<B>::empty());
        assert(b.map_values(f) =~= Seq::<B>::empty());
    } else {
        let x = a.last();
        let a1 = a.drop_last();
        assert(a =~= a1.push(x));
        vstd::seq_lib::to_multiset_build(a1, x);
        assert(b.to_multiset().count(x) > 0);
        vstd::seq_lib::to_multiset_contains(b, x);
        let j = choose|j: int| 0 <= j < b.len() && b[j] == x;
        let b1 = b.remove(j);
        vstd::seq_lib::to_multiset_remove(b, j);
        assert(a1.to_multiset() =~= b1.to_multiset());
        lemma_multiset_map(a1, b1, f);
        assert(a.map_values(f) =~= a1.map_values(f).push(f(x)));
        vstd::seq_lib::to_multiset_build(a1.map_values(f), f(x));
        assert(b.map_values(f).remove(j) =~= b1.map_values(f));
        vstd::seq_lib::to_multiset_remove(b.map_values(f), j);
        assert(b.map_values(f).to_multiset() =~= b1.map_values(f).to_multiset().insert(f(x)));
    }
}

/// Every element of a sequence with the same elements as `b` occurs in `b`.
pub proof fn lemma_multiset_member<A>(a: Seq<A>, b: Seq<A>, i: int)
    requires
        a.to_multiset() == b.to_multiset(),
        0 <= i < a.len(),
    ensures
        b.contains(a[i]),
{
    broadcast use vstd::seq_lib::group_to_multiset_ensures, vstd::multiset::group_multiset_axioms;
    vstd::seq_lib::to_multiset_contains(a, a[i]);
    vstd::seq_lib::to_multiset_contains(b, a[i]);
}

} // verus!
