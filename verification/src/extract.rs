use vstd::prelude::*;
use vstd::relations::sorted_by;
use vstd::seq_lib::to_multiset_contains;

use crate::order::{le_rel, sort_records, views};
use crate::text::{
    lemma_seq_char_le_antisymmetric, lemma_seq_char_le_reflexive, lemma_seq_char_le_transitive,
    seq_char_le,
};
use crate::types::{EntityColumn, EntityRelationship};

verus! {

/// A pushed sequence contains exactly the old values and the new one.
proof fn lemma_push_contains<A>(s: Seq<A>, x: A, y: A)
    ensures
        s.push(x).contains(y) <==> (s.contains(y) || y == x),
{
    if s.push(x).contains(y) {
        let k = choose|k: int| 0 <= k < s.push(x).len() && s.push(x)[k] == y;
        if k < s.len() {
            assert(s[k] == y);
        }
    }
    if s.contains(y) {
        let k = choose|k: int| 0 <= k < s.len() && s[k] == y;
        assert(s.push(x)[k] == y);
    }
    if y == x {
        assert(s.push(x)[s.len() as int] == y);
    }
}

/// Removes neighbouring duplicates from a sorted list of strings, leaving
/// each value exactly once.
fn dedup_sorted_strings(v: Vec<String>) -> (r: Vec<String>)
    requires
        sorted_by(views(v@), le_rel::<String>()),
    ensures
        sorted_by(views(r@), le_rel::<String>()),
        forall|p: int, q: int| 0 <= p < q < r@.len() ==> views(r@)[p] != views(r@)[q],
        forall|x: Seq<char>| views(r@).contains(x) <==> views(v@).contains(x),
{
    broadcast use vstd::seq_lib::group_seq_properties;

    let ghost vs = views(v@);
    let mut out: Vec<String> = Vec::new();
    let mut i: usize = 0;
    proof {
        assert(vs.take(0) =~= Seq::<Seq<char>>::empty());
    }
    while i < v.len()
        invariant
            i <= vs.len(),
            vs == views(v@),
            v@.len() == vs.len(),
            sorted_by(vs, le_rel::<String>()),
            sorted_by(views(out@), le_rel::<String>()),
            forall|p: int, q: int| 0 <= p < q < out@.len() ==> views(out@)[p] != views(out@)[q],
            forall|x: Seq<char>| views(out@).contains(x) <==> vs.take(i as int).contains(x),
            out@.len() > 0 ==> i > 0 && views(out@).last() == vs[i - 1],
        decreases vs.len() - i,
    {
        let push_it: bool = if out.len() == 0 {
            true
        } else {
            !(out[out.len() - 1] == v[i])
        };
        let ghost x = vs[i as int];
        let ghost out_pre = views(out@);
        if push_it {
            proof {
                if out@.len() > 0 {
                    let lastv = out_pre.last();
                    assert(lastv == vs[i - 1]);
                    assert(le_rel::<String>()(vs[i - 1], vs[i as int]));
                    assert(seq_char_le(lastv, x));
                    assert(lastv != x);
                    assert forall|p: int| 0 <= p < out_pre.len() implies seq_char_le(
                        out_pre[p],
                        x,
                    ) && out_pre[p] != x by {
                        if p < out_pre.len() - 1 {
                            assert(le_rel::<String>()(out_pre[p], lastv));
                        } else {
                            lemma_seq_char_le_reflexive(out_pre[p]);
                        }
                        assert(seq_char_le(out_pre[p], lastv));
                        lemma_seq_char_le_transitive(out_pre[p], lastv, x);
                        lemma_seq_char_le_antisymmetric(lastv, out_pre[p]);
                        lemma_seq_char_le_antisymmetric(lastv, x);
                    }
                }
            }
            let item = v[i].clone();
            out.push(item);
            proof {
                assert(views(out@) =~= out_pre.push(x));
                assert forall|p: int, q: int| 0 <= p < q < out@.len() implies le_rel::<String>()(
                    views(out@)[p],
                    views(out@)[q],
                ) by {
                    if q < out@.len() - 1 {
                        assert(le_rel::<String>()(out_pre[p], out_pre[q]));
                    }
                }
                assert(vs.take(i + 1) =~= vs.take(i as int).push(x));
                assert forall|y: Seq<char>|
                    views(out@).contains(y) <==> vs.take(i + 1).contains(y) by {
                    lemma_push_contains(out_pre, x, y);
                    lemma_push_contains(vs.take(i as int), x, y);
                }
            }
        } else {
            proof {
                assert(out_pre.last() == x);
                assert(out_pre.contains(x));
                assert(vs.take(i + 1) =~= vs.take(i as int).push(x));
                assert forall|y: Seq<char>|
                    views(out@).contains(y) <==> vs.take(i + 1).contains(y) by {
                    lemma_push_contains(vs.take(i as int), x, y);
                }
            }
        }
        i = i + 1;
    }
    proof {
        assert(vs.take(vs.len() as int) =~= vs);
    }
    out
}

/// Sorts a batch of strings and removes duplicates: the result lists each
/// distinct value exactly once, in order.
fn sorted_unique_strings(items: Vec<String>) -> (r: Vec<String>)
    ensures
        sorted_by(views(r@), le_rel::<String>()),
        forall|p: int, q: int| 0 <= p < q < r@.len() ==> views(r@)[p] != views(r@)[q],
        forall|x: Seq<char>| views(r@).contains(x) <==> views(items@).contains(x),
{
    let sorted = sort_records(items);
    proof {
        assert forall|x: Seq<char>|
            views(sorted@).contains(x) <==> views(items@).contains(x) by {
            to_multiset_contains(views(sorted@), x);
            to_multiset_contains(views(items@), x);
        }
    }
    dedup_sorted_strings(sorted)
}

/// Whether some column of the batch carries the given label.
pub open spec fn batch_has_label(cols: Seq<EntityColumn>, x: Seq<char>) -> bool {
    exists|k: int| 0 <= k < cols.len() && (#[trigger] cols[k])@.label == x
}

/// The labels occurring in a batch of columns, each once, in order.
pub fn extract_labels(cols: &Vec<EntityColumn>) -> (r: Vec<String>)
    ensures
        sorted_by(views(r@), le_rel::<String>()),
        forall|p: int, q: int| 0 <= p < q < r@.len() ==> views(r@)[p] != views(r@)[q],
        forall|x: Seq<char>| views(r@).contains(x) <==> batch_has_label(cols@, x),
{
    let mut labels: Vec<String> = Vec::new();
    let mut i: usize = 0;
    while i < cols.len()
        invariant
            i <= cols@.len(),
            labels@.len() == i,
            forall|k: int| 0 <= k < i ==> views(labels@)[k] == (#[trigger] cols@[k])@.label,
        decreases cols@.len() - i,
    {
        labels.push(cols[i].label.clone());
        i = i + 1;
    }
    let ghost collected = views(labels@);
    let r = sorted_unique_strings(labels);
    proof {
        assert forall|x: Seq<char>| views(r@).contains(x) <==> batch_has_label(cols@, x) by {
            if batch_has_label(cols@, x) {
                let k = choose|k: int| 0 <= k < cols@.len() && (#[trigger] cols@[k])@.label == x;
                assert(collected[k] == x);
            }
            if collected.contains(x) {
                let j = choose|j: int| 0 <= j < collected.len() && collected[j] == x;
                assert(cols@[j]@.label == x);
            }
        }
    }
    r
}

/// Whether some column of the batch carries the given descriptor.
pub open spec fn batch_has_descriptor(cols: Seq<EntityColumn>, x: Seq<char>) -> bool {
    exists|k: int| 0 <= k < cols.len() && (#[trigger] cols[k])@.descriptor == x
}

/// The descriptors occurring in a batch of columns, each once, in order.
pub fn extract_descriptors(cols: &Vec<EntityColumn>) -> (r: Vec<String>)
    ensures
        sorted_by(views(r@), le_rel::<String>()),
        forall|p: int, q: int| 0 <= p < q < r@.len() ==> views(r@)[p] != views(r@)[q],
        forall|x: Seq<char>| views(r@).contains(x) <==> batch_has_descriptor(cols@, x),
{
    let mut descriptors: Vec<String> = Vec::new();
    let mut i: usize = 0;
    while i < cols.len()
        invariant
            i <= cols@.len(),
            descriptors@.len() == i,
            forall|k: int| 0 <= k < i ==> views(descriptors@)[k] == (#[trigger] cols@[k])@.descriptor,
        decreases cols@.len() - i,
    {
        descriptors.push(cols[i].descriptor.clone());
        i = i + 1;
    }
    let ghost collected = views(descriptors@);
    let r = sorted_unique_strings(descriptors);
    proof {
        assert forall|x: Seq<char>| views(r@).contains(x) <==> batch_has_descriptor(cols@, x) by {
            if batch_has_descriptor(cols@, x) {
                let k = choose|k: int|
                    0 <= k < cols@.len() && (#[trigger] cols@[k])@.descriptor == x;
                assert(collected[k] == x);
            }
            if collected.contains(x) {
                let j = choose|j: int| 0 <= j < collected.len() && collected[j] == x;
                assert(cols@[j]@.descriptor == x);
            }
        }
    }
    r
}

/// Whether some relationship of the batch has the given parent.
pub open spec fn batch_has_parent(rels: Seq<EntityRelationship>, x: Seq<char>) -> bool {
    exists|k: int| 0 <= k < rels.len() && (#[trigger] rels[k])@.parent == x
}

/// The parents occurring in a batch of relationships, each once, in order.
pub fn extract_parents(rels: &Vec<EntityRelationship>) -> (r: Vec<String>)
    ensures
        sorted_by(views(r@), le_rel::<String>()),
        forall|p: int, q: int| 0 <= p < q < r@.len() ==> views(r@)[p] != views(r@)[q],
        forall|x: Seq<char>| views(r@).contains(x) <==> batch_has_parent(rels@, x),
{
    let mut parents: Vec<String> = Vec::new();
    let mut i: usize = 0;
    while i < rels.len()
        invariant
            i <= rels@.len(),
            parents@.len() == i,
            forall|k: int| 0 <= k < i ==> views(parents@)[k] == (#[trigger] rels@[k])@.parent,
        decreases rels@.len() - i,
    {
        parents.push(rels[i].parent.clone());
        i = i + 1;
    }
    let ghost collected = views(parents@);
    let r = sorted_unique_strings(parents);
    proof {
        assert forall|x: Seq<char>| views(r@).contains(x) <==> batch_has_parent(rels@, x) by {
            if batch_has_parent(rels@, x) {
                let k = choose|k: int| 0 <= k < rels@.len() && (#[trigger] rels@[k])@.parent == x;
                assert(collected[k] == x);
            }
            if collected.contains(x) {
                let j = choose|j: int| 0 <= j < collected.len() && collected[j] == x;
                assert(rels@[j]@.parent == x);
            }
        }
    }
    r
}

/// Whether some relationship of the batch has the given child.
pub open spec fn batch_has_child(rels: Seq<EntityRelationship>, x: Seq<char>) -> bool {
    exists|k: int| 0 <= k < rels.len() && (#[trigger] rels[k])@.child == x
}

/// The children occurring in a batch of relationships, each once, in order.
pub fn extract_children(rels: &Vec<EntityRelationship>) -> (r: Vec<String>)
    ensures
        sorted_by(views(r@), le_rel::<String>()),
        forall|p: int, q: int| 0 <= p < q < r@.len() ==> views(r@)[p] != views(r@)[q],
        forall|x: Seq<char>| views(r@).contains(x) <==> batch_has_child(rels@, x),
{
    let mut children: Vec<String> = Vec::new();
    let mut i: usize = 0;
    while i < rels.len()
        invariant
            i <= rels@.len(),
            children@.len() == i,
            forall|k: int| 0 <= k < i ==> views(children@)[k] == (#[trigger] rels@[k])@.child,
        decreases rels@.len() - i,
    {
        children.push(rels[i].child.clone());
        i = i + 1;
    }
    let ghost collected = views(children@);
    let r = sorted_unique_strings(children);
    proof {
        assert forall|x: Seq<char>| views(r@).contains(x) <==> batch_has_child(rels@, x) by {
            if batch_has_child(rels@, x) {
                let k = choose|k: int| 0 <= k < rels@.len() && (#[trigger] rels@[k])@.child == x;
                assert(collected[k] == x);
            }
            if collected.contains(x) {
                let j = choose|j: int| 0 <= j < collected.len() && collected[j] == x;
                assert(rels@[j]@.child == x);
            }
        }
    }
    r
}

/// Whether some relationship of the batch carries the given role.
pub open spec fn batch_has_role(rels: Seq<EntityRelationship>, x: Seq<char>) -> bool {
    exists|k: int| 0 <= k < rels.len() && (#[trigger] rels[k])@.role == Some(x)
}

/// The roles occurring in a batch of relationships, each once, in order;
/// relationships without a role contribute nothing.
pub fn extract_roles(rels: &Vec<EntityRelationship>) -> (r: Vec<String>)
    ensures
        sorted_by(views(r@), le_rel::<String>()),
        forall|p: int, q: int| 0 <= p < q < r@.len() ==> views(r@)[p] != views(r@)[q],
        forall|x: Seq<char>| views(r@).contains(x) <==> batch_has_role(rels@, x),
{
    let mut roles: Vec<String> = Vec::new();
    let mut i: usize = 0;
    while i < rels.len()
        invariant
            i <= rels@.len(),
            forall|x: Seq<char>|
                views(roles@).contains(x) <==> exists|k: int|
                    0 <= k < i && (#[trigger] rels@[k])@.role == Some(x),
        decreases rels@.len() - i,
    {
        broadcast use vstd::seq_lib::group_seq_properties;

        let ghost roles_pre = views(roles@);
        match &rels[i].role {
            Some(role) => {
                let item = role.clone();
                roles.push(item);
                proof {
                    assert(views(roles@) =~= roles_pre.push(rels@[i as int]@.role.unwrap()));
                }
            },
            None => {},
        }
        i = i + 1;
    }
    let ghost collected = views(roles@);
    let r = sorted_unique_strings(roles);
    proof {
        assert forall|x: Seq<char>| views(r@).contains(x) <==> batch_has_role(rels@, x) by {
            assert(views(r@).contains(x) <==> collected.contains(x));
        }
    }
    r
}

} // verus!
