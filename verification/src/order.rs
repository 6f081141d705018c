use vstd::multiset::Multiset;
use vstd::prelude::*;
use vstd::relations::{sorted_by, total_ordering};
use vstd::seq_lib::{lemma_sorted_unique, to_multiset_build, to_multiset_contains, to_multiset_insert};

use crate::text::{
    lemma_seq_char_le_antisymmetric, lemma_seq_char_le_connected, lemma_seq_char_le_reflexive,
    lemma_seq_char_le_transitive, seq_char_le, string_le,
};
use crate::types::{
    EntityColumn, EntityColumnView, EntityRelationship, EntityRelationshipView, HistoryItem,
    HistoryItemView,
};

verus! {

/// The total order a record type provides for deterministic listings: every
/// read result is sorted by it, so identical queries list identical record
/// sets in identical order.
pub trait StoreOrder: View + Sized {
    /// The order, stated on mathematical values.
    spec fn le_view(a: Self::V, b: Self::V) -> bool;

    /// The order is total: reflexive, antisymmetric, transitive and
    /// connected.
    proof fn lemma_le_total(a: Self::V, b: Self::V, c: Self::V)
        ensures
            Self::le_view(a, a),
            Self::le_view(a, b) && Self::le_view(b, a) ==> a == b,
            Self::le_view(a, b) && Self::le_view(b, c) ==> Self::le_view(a, c),
            Self::le_view(a, b) || Self::le_view(b, a),
    ;

    /// Compares two records by the order.
    fn le(&self, other: &Self) -> (r: bool)
        ensures
            r == Self::le_view(self@, other@),
    ;
}

/// The mathematical values of a sequence of records.
pub open spec fn views<T: View>(s: Seq<T>) -> Seq<T::V> {
    s.map_values(|t: T| t@)
}

/// The record order as a relation value.
pub open spec fn le_rel<T: StoreOrder>() -> spec_fn(T::V, T::V) -> bool {
    |a: T::V, b: T::V| T::le_view(a, b)
}

/// The record order is a total ordering.
pub proof fn lemma_le_rel_total<T: StoreOrder>()
    ensures
        total_ordering(le_rel::<T>()),
{
    let r = le_rel::<T>();
    assert forall|a: T::V| #[trigger] r(a, a) by {
        T::lemma_le_total(a, a, a);
    }
    assert forall|a: T::V, b: T::V| #[trigger] r(a, b) && #[trigger] r(b, a) implies a == b by {
        T::lemma_le_total(a, b, a);
    }
    assert forall|a: T::V, b: T::V, c: T::V| #[trigger] r(a, b) && #[trigger] r(b, c) implies r(
        a,
        c,
    ) by {
        T::lemma_le_total(a, b, c);
    }
    assert forall|a: T::V, b: T::V| #[trigger] r(a, b) || #[trigger] r(b, a) by {
        T::lemma_le_total(a, b, a);
    }
}

/// Places one record into a sorted list, keeping it sorted.
fn insert_in_order<T: StoreOrder>(list: &mut Vec<T>, item: T)
    requires
        sorted_by(views(old(list)@), le_rel::<T>()),
    ensures
        sorted_by(views(final(list)@), le_rel::<T>()),
        views(final(list)@).to_multiset() == views(old(list)@).to_multiset().insert(item@),
{
    let mut j: usize = 0;
    loop
        invariant
            list@ == old(list)@,
            j <= list@.len(),
            forall|k: int| 0 <= k < j ==> T::le_view(#[trigger] views(list@)[k], item@),
        ensures
            list@ == old(list)@,
            j <= list@.len(),
            forall|k: int| 0 <= k < j ==> T::le_view(#[trigger] views(list@)[k], item@),
            j < list@.len() ==> T::le_view(item@, views(list@)[j as int]),
        decreases list@.len() - j,
    {
        if j == list.len() {
            break;
        }
        let keep_going = list[j].le(&item);
        if !keep_going {
            proof {
                T::lemma_le_total(views(list@)[j as int], item@, item@);
            }
            break;
        }
        j = j + 1;
    }
    let ghost pre = views(list@);
    let ghost pos = j as int;
    proof {
        assert(pre == views(old(list)@));
        // at this point either pos == pre.len(), or item precedes pre[pos]
        if pos < pre.len() {
            assert(T::le_view(item@, pre[pos]));
        }
    }
    list.insert(j, item);
    proof {
        let post = views(list@);
        pre.insert_ensures(pos, item@);
        assert(list@ == old(list)@.insert(pos, item));
        assert(post =~= pre.insert(pos, item@)) by {
            assert(post.len() == pre.len() + 1);
            assert forall|i: int| 0 <= i < post.len() implies post[i] == pre.insert(pos, item@)[i]
            by {
                if i < pos {
                    assert(list@[i] == old(list)@[i]);
                } else if i == pos {
                    assert(list@[i] == item);
                } else {
                    assert(list@[i] == old(list)@[i - 1]);
                    assert(pre.insert(pos, item@)[i] == pre[i - 1]);
                }
            }
        }
        to_multiset_insert(pre, pos, item@);
        let leq = le_rel::<T>();
        assert forall|p: int, q: int| 0 <= p < q < post.len() implies #[trigger] leq(
            post[p],
            post[q],
        ) by {
            pre.insert_ensures(pos, item@);
            if p < pos && q < pos {
                assert(leq(pre[p], pre[q]));
            } else if p < pos && q == pos {
                assert(T::le_view(pre[p], item@));
            } else if p < pos && q > pos {
                assert(leq(pre[p], pre[q - 1]));
            } else if p == pos && q > pos {
                // item precedes the record it displaced, which precedes the rest
                assert(T::le_view(item@, pre[pos]));
                if q - 1 > pos {
                    assert(leq(pre[pos], pre[q - 1]));
                }
                T::lemma_le_total(item@, pre[pos], pre[q - 1]);
            } else {
                assert(p > pos && q > pos);
                assert(leq(pre[p - 1], pre[q - 1]));
            }
        }
    }
}

/// Sorts records by their order, preserving exactly the records given.
pub fn sort_records<T: StoreOrder>(records: Vec<T>) -> (r: Vec<T>)
    ensures
        sorted_by(views(r@), le_rel::<T>()),
        views(r@).to_multiset() == views(records@).to_multiset(),
{
    broadcast use vstd::seq_lib::to_multiset_build;
    broadcast use vstd::seq_lib::group_to_multiset_ensures;
    broadcast use vstd::multiset::group_multiset_axioms;

    let mut rest = records;
    let mut out: Vec<T> = Vec::new();
    proof {
        assert(views(out@) =~= Seq::<T::V>::empty());
        assert(views(out@).to_multiset().add(views(rest@).to_multiset()) =~= views(
            rest@,
        ).to_multiset());
    }
    loop
        invariant
            sorted_by(views(out@), le_rel::<T>()),
            views(out@).to_multiset().add(views(rest@).to_multiset()) == views(
                records@,
            ).to_multiset(),
        decreases rest@.len(),
    {
        let ghost rest_pre = views(rest@);
        let popped = rest.pop();
        match popped {
            None => {
                proof {
                    assert(rest_pre.len() == 0);
                    assert forall|a: T::V| rest_pre.to_multiset().count(a) == Multiset::<
                        T::V,
                    >::empty().count(a) by {
                        to_multiset_contains(rest_pre, a);
                    }
                    assert(rest_pre.to_multiset() =~= Multiset::<T::V>::empty());
                    assert(views(out@).to_multiset().add(Multiset::<T::V>::empty()) =~= views(
                        out@,
                    ).to_multiset());
                }
                return out;
            },
            Some(x) => {
                proof {
                    assert(views(rest@) =~= rest_pre.drop_last());
                    assert(views(rest@).push(x@) =~= rest_pre);
                    to_multiset_build(views(rest@), x@);
                    assert(rest_pre.to_multiset() == views(rest@).to_multiset().insert(x@));
                }
                let ghost out_pre = views(out@);
                insert_in_order(&mut out, x);
                proof {
                    assert(views(out@).to_multiset() == out_pre.to_multiset().insert(x@));
                    assert(out_pre.to_multiset().insert(x@).add(views(rest@).to_multiset()) =~=
                    out_pre.to_multiset().add(views(rest@).to_multiset().insert(x@)));
                }
            },
        }
    }
}

/// Deterministic ordering: two sorted listings of the same records are the
/// same listing.  Whatever order a batch of records arrives in — duplicates
/// included — sorting pins down one unique result, so two reads with
/// identical filters return identical orderings.
pub proof fn lemma_sorted_listing_unique<T: StoreOrder>(a: Seq<T::V>, b: Seq<T::V>)
    requires
        sorted_by(a, le_rel::<T>()),
        sorted_by(b, le_rel::<T>()),
        a.to_multiset() == b.to_multiset(),
    ensures
        a == b,
{
    lemma_le_rel_total::<T>();
    lemma_sorted_unique(a, b, le_rel::<T>());
    assert(a =~= b);
}

/// How optional text sorts: absence first, then by the text itself.
pub open spec fn opt_text_le(a: Option<Seq<char>>, b: Option<Seq<char>>) -> bool {
    match (a, b) {
        (Option::None, _) => true,
        (Option::Some(_), Option::None) => false,
        (Option::Some(x), Option::Some(y)) => seq_char_le(x, y),
    }
}

/// Totality of the optional-text order.
proof fn lemma_opt_text_le_total(a: Option<Seq<char>>, b: Option<Seq<char>>, c: Option<Seq<char>>)
    ensures
        opt_text_le(a, a),
        opt_text_le(a, b) && opt_text_le(b, a) ==> a == b,
        opt_text_le(a, b) && opt_text_le(b, c) ==> opt_text_le(a, c),
        opt_text_le(a, b) || opt_text_le(b, a),
{
    match (a, b, c) {
        (Option::Some(x), Option::Some(y), Option::Some(z)) => {
            lemma_seq_char_le_reflexive(x);
            lemma_seq_char_le_antisymmetric(x, y);
            lemma_seq_char_le_transitive(x, y, z);
            lemma_seq_char_le_connected(x, y);
        },
        (Option::Some(x), Option::Some(y), Option::None) => {
            lemma_seq_char_le_reflexive(x);
            lemma_seq_char_le_antisymmetric(x, y);
            lemma_seq_char_le_connected(x, y);
        },
        (Option::Some(x), _, _) => {
            lemma_seq_char_le_reflexive(x);
        },
        _ => {},
    }
}

/// Compares two optional strings by the optional-text order.
pub fn optional_string_le(a: &Option<String>, b: &Option<String>) -> (r: bool)
    ensures
        r == opt_text_le(a.deep_view(), b.deep_view()),
{
    match (a, b) {
        (None, _) => true,
        (Some(_), None) => false,
        (Some(x), Some(y)) => string_le(x.as_str(), y.as_str()),
    }
}

/// Strict lexicographic precedence of text.
pub open spec fn text_lt(a: Seq<char>, b: Seq<char>) -> bool {
    seq_char_le(a, b) && a != b
}

impl StoreOrder for String {
    open spec fn le_view(a: Seq<char>, b: Seq<char>) -> bool {
        seq_char_le(a, b)
    }

    proof fn lemma_le_total(a: Seq<char>, b: Seq<char>, c: Seq<char>) {
        lemma_seq_char_le_reflexive(a);
        lemma_seq_char_le_antisymmetric(a, b);
        lemma_seq_char_le_transitive(a, b, c);
        lemma_seq_char_le_connected(a, b);
    }

    fn le(&self, other: &Self) -> (r: bool) {
        string_le(self.as_str(), other.as_str())
    }
}

impl EntityColumnView {
    /// Columns sort by label, then descriptor, then description.
    pub open spec fn le(a: Self, b: Self) -> bool {
        ||| text_lt(a.label, b.label)
        ||| (a.label == b.label && (text_lt(a.descriptor, b.descriptor) || (a.descriptor
            == b.descriptor && opt_text_le(a.description, b.description))))
    }
}

impl StoreOrder for EntityColumn {
    open spec fn le_view(a: EntityColumnView, b: EntityColumnView) -> bool {
        EntityColumnView::le(a, b)
    }

    proof fn lemma_le_total(a: EntityColumnView, b: EntityColumnView, c: EntityColumnView) {
        lemma_seq_char_le_reflexive(a.label);
        lemma_seq_char_le_reflexive(a.descriptor);
        lemma_seq_char_le_antisymmetric(a.label, b.label);
        lemma_seq_char_le_antisymmetric(a.descriptor, b.descriptor);
        lemma_seq_char_le_connected(a.label, b.label);
        lemma_seq_char_le_connected(a.descriptor, b.descriptor);
        lemma_seq_char_le_transitive(a.label, b.label, c.label);
        lemma_seq_char_le_transitive(a.descriptor, b.descriptor, c.descriptor);
        lemma_seq_char_le_antisymmetric(b.label, c.label);
        lemma_seq_char_le_antisymmetric(b.descriptor, c.descriptor);
        lemma_seq_char_le_antisymmetric(a.label, c.label);
        lemma_seq_char_le_antisymmetric(a.descriptor, c.descriptor);
        lemma_opt_text_le_total(a.description, b.description, c.description);
        lemma_opt_text_le_total(b.description, c.description, a.description);
    }

    fn le(&self, other: &Self) -> (r: bool) {
        if self.label != other.label {
            string_le(self.label.as_str(), other.label.as_str())
        } else if self.descriptor != other.descriptor {
            string_le(self.descriptor.as_str(), other.descriptor.as_str())
        } else {
            optional_string_le(&self.description, &other.description)
        }
    }
}

impl EntityRelationshipView {
    /// Relationships sort by parent, then child, then role, with "no role"
    /// first.
    pub open spec fn le(a: Self, b: Self) -> bool {
        ||| text_lt(a.parent, b.parent)
        ||| (a.parent == b.parent && (text_lt(a.child, b.child) || (a.child == b.child
            && opt_text_le(a.role, b.role))))
    }
}

impl StoreOrder for EntityRelationship {
    open spec fn le_view(a: EntityRelationshipView, b: EntityRelationshipView) -> bool {
        EntityRelationshipView::le(a, b)
    }

    proof fn lemma_le_total(
        a: EntityRelationshipView,
        b: EntityRelationshipView,
        c: EntityRelationshipView,
    ) {
        lemma_seq_char_le_reflexive(a.parent);
        lemma_seq_char_le_reflexive(a.child);
        lemma_seq_char_le_antisymmetric(a.parent, b.parent);
        lemma_seq_char_le_antisymmetric(a.child, b.child);
        lemma_seq_char_le_connected(a.parent, b.parent);
        lemma_seq_char_le_connected(a.child, b.child);
        lemma_seq_char_le_transitive(a.parent, b.parent, c.parent);
        lemma_seq_char_le_transitive(a.child, b.child, c.child);
        lemma_seq_char_le_antisymmetric(b.parent, c.parent);
        lemma_seq_char_le_antisymmetric(b.child, c.child);
        lemma_seq_char_le_antisymmetric(a.parent, c.parent);
        lemma_seq_char_le_antisymmetric(a.child, c.child);
        lemma_opt_text_le_total(a.role, b.role, c.role);
        lemma_opt_text_le_total(b.role, c.role, a.role);
    }

    fn le(&self, other: &Self) -> (r: bool) {
        if self.parent != other.parent {
            string_le(self.parent.as_str(), other.parent.as_str())
        } else if self.child != other.child {
            string_le(self.child.as_str(), other.child.as_str())
        } else {
            optional_string_le(&self.role, &other.role)
        }
    }
}

/// How optional days sort: absence first, then by value.
pub open spec fn opt_day_le(a: Option<int>, b: Option<int>) -> bool {
    match (a, b) {
        (Option::None, _) => true,
        (Option::Some(_), Option::None) => false,
        (Option::Some(x), Option::Some(y)) => x <= y,
    }
}

/// Compares two optional days.
pub fn optional_day_le(a: &Option<i32>, b: &Option<i32>) -> (r: bool)
    ensures
        r == opt_day_le(crate::types::day_view(*a), crate::types::day_view(*b)),
{
    match (a, b) {
        (None, _) => true,
        (Some(_), None) => false,
        (Some(x), Some(y)) => *x <= *y,
    }
}

impl HistoryItemView {
    /// History items sort by their fields in declaration order: label,
    /// content, the two flags, year, day, originator.
    pub open spec fn le(a: Self, b: Self) -> bool {
        ||| text_lt(a.label, b.label)
        ||| (a.label == b.label && (text_lt(a.content, b.content) || (a.content == b.content && (
        (a.is_concerns_others != b.is_concerns_others && !a.is_concerns_others) || (
        a.is_concerns_others == b.is_concerns_others && ((a.is_secret != b.is_secret
            && !a.is_secret) || (a.is_secret == b.is_secret && (a.year < b.year || (a.year == b.year
            && ((a.day != b.day && opt_day_le(a.day, b.day)) || (a.day == b.day && opt_text_le(
            a.originator,
            b.originator,
        ))))))))))))
    }
}

impl StoreOrder for HistoryItem {
    open spec fn le_view(a: HistoryItemView, b: HistoryItemView) -> bool {
        HistoryItemView::le(a, b)
    }

    proof fn lemma_le_total(a: HistoryItemView, b: HistoryItemView, c: HistoryItemView) {
        lemma_seq_char_le_reflexive(a.label);
        lemma_seq_char_le_reflexive(a.content);
        lemma_seq_char_le_antisymmetric(a.label, b.label);
        lemma_seq_char_le_antisymmetric(a.content, b.content);
        lemma_seq_char_le_connected(a.label, b.label);
        lemma_seq_char_le_connected(a.content, b.content);
        lemma_seq_char_le_transitive(a.label, b.label, c.label);
        lemma_seq_char_le_transitive(a.content, b.content, c.content);
        lemma_seq_char_le_antisymmetric(b.label, c.label);
        lemma_seq_char_le_antisymmetric(b.content, c.content);
        lemma_seq_char_le_antisymmetric(a.label, c.label);
        lemma_seq_char_le_antisymmetric(a.content, c.content);
        lemma_opt_text_le_total(a.originator, b.originator, c.originator);
        lemma_opt_text_le_total(b.originator, c.originator, a.originator);
    }

    fn le(&self, other: &Self) -> (r: bool) {
        if self.label != other.label {
            string_le(self.label.as_str(), other.label.as_str())
        } else if self.content != other.content {
            string_le(self.content.as_str(), other.content.as_str())
        } else if self.is_concerns_others != other.is_concerns_others {
            !self.is_concerns_others
        } else if self.is_secret != other.is_secret {
            !self.is_secret
        } else if self.year != other.year {
            self.year < other.year
        } else if !crate::types::optional_day_eq(&self.day, &other.day) {
            optional_day_le(&self.day, &other.day)
        } else {
            optional_string_le(&self.originator, &other.originator)
        }
    }
}

} // verus!
