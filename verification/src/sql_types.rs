use vstd::prelude::*;

use crate::foreign::encode_optional_text;
use crate::types::{
    day_view, normalize_optional_text, optional_text_valid, EntityRelationship,
    EntityRelationshipView, HistoryItem, HistoryItemView,
};

verus! {

/// The wire encoding of an optional day: a present day keeps its (positive)
/// value, an absent day becomes zero, which is not a valid calendar day and
/// so can double as the absence marker.
pub open spec fn encode_day(day: Option<int>) -> int {
    match day {
        Some(d) => d,
        None => 0,
    }
}

/// The wire decoding of a day column: any positive value is a present day,
/// zero and every negative value mean the day is absent.
pub open spec fn decode_day(day: int) -> Option<int> {
    if day > 0 {
        Some(day)
    } else {
        None
    }
}

/// Decoding the encoding of a normalized optional day gives it back.
pub proof fn lemma_day_round_trip(day: Option<int>)
    requires
        day matches Some(d) ==> d > 0,
    ensures
        decode_day(encode_day(day)) == day,
{
}

/// Encodes an optional day for the wire.
pub fn day_to_int(day: &Option<i32>) -> (r: i32)
    ensures
        r as int == encode_day(day_view(*day)),
{
    match day {
        Some(d) => *d,
        None => 0,
    }
}

/// Decodes a day column from the wire.
pub fn day_from_int(day: i32) -> (r: Option<i32>)
    ensures
        day_view(r) == decode_day(day as int),
{
    if day > 0 {
        Some(day)
    } else {
        None
    }
}

/// Encodes an optional text column for the wire: absence becomes the empty
/// string.
pub fn optional_string_to_sql(o: &Option<String>) -> (r: String)
    ensures
        r@ == encode_optional_text(o.deep_view()),
{
    match o {
        Some(s) => s.clone(),
        None => String::new(),
    }
}

/// Decodes an optional text column from the wire: the empty string means the
/// value is absent.
pub fn sql_to_optional_string(s: &String) -> (r: Option<String>)
    ensures
        r.deep_view() == normalize_optional_text(Some(s@)),
{
    if s.as_str().is_empty() {
        None
    } else {
        Some(s.clone())
    }
}

/// Normalizing the encoding of a valid optional text value gives it back.
pub proof fn lemma_optional_text_round_trip(o: Option<Seq<char>>)
    requires
        optional_text_valid(o),
    ensures
        normalize_optional_text(Some(encode_optional_text(o))) == o,
{
}

/// The relationship row as the storage layer sees it: the role column always
/// holds a string, with the empty string standing for "no role".  The same
/// normalization runs on write and on lookup, so a delete or update finds
/// exactly the row the write produced.
#[derive(Debug, Clone)]
pub struct SqlEntityRelationship {
    pub parent: String,
    pub child: String,
    pub role: String,
}

/// The mathematical value of a [`SqlEntityRelationship`].
pub struct SqlEntityRelationshipView {
    pub parent: Seq<char>,
    pub child: Seq<char>,
    pub role: Seq<char>,
}

impl View for SqlEntityRelationship {
    type V = SqlEntityRelationshipView;

    open spec fn view(&self) -> SqlEntityRelationshipView {
        SqlEntityRelationshipView {
            parent: self.parent@,
            child: self.child@,
            role: self.role@,
        }
    }
}

/// How a relationship is laid out as a storage row.
pub open spec fn encode_relationship(v: EntityRelationshipView) -> SqlEntityRelationshipView {
    SqlEntityRelationshipView {
        parent: v.parent,
        child: v.child,
        role: encode_optional_text(v.role),
    }
}

/// How a storage row is read back as a relationship.
pub open spec fn decode_relationship(v: SqlEntityRelationshipView) -> EntityRelationshipView {
    EntityRelationshipView {
        parent: v.parent,
        child: v.child,
        role: normalize_optional_text(Some(v.role)),
    }
}

/// Reading back the row written for a valid relationship gives the same
/// relationship.
pub proof fn lemma_relationship_row_round_trip(v: EntityRelationshipView)
    requires
        v.valid(),
    ensures
        decode_relationship(encode_relationship(v)) == v,
{
    lemma_optional_text_round_trip(v.role);
}

impl EntityRelationship {
    /// Lays the relationship out as a storage row.
    pub fn to_sql_entity_relationship(&self) -> (r: SqlEntityRelationship)
        ensures
            r@ == encode_relationship(self@),
    {
        SqlEntityRelationship {
            parent: self.parent.clone(),
            child: self.child.clone(),
            role: optional_string_to_sql(&self.role),
        }
    }
}

impl SqlEntityRelationship {
    /// Reads the storage row back as a relationship.
    pub fn to_relationship(&self) -> (r: EntityRelationship)
        ensures
            r@ == decode_relationship(self@),
    {
        EntityRelationship {
            parent: self.parent.clone(),
            child: self.child.clone(),
            role: sql_to_optional_string(&self.role),
        }
    }
}

/// The history row as the storage layer sees it: the day column holds the
/// wire encoding of the optional day, and the originator column holds the
/// empty string when no originator is recorded.
#[derive(Debug, Clone)]
pub struct SqlHistoryItem {
    pub label: String,
    pub content: String,
    pub is_concerns_others: bool,
    pub is_secret: bool,
    pub year: i32,
    pub day: i32,
    pub originator: String,
}

/// The mathematical value of a [`SqlHistoryItem`].
pub struct SqlHistoryItemView {
    pub label: Seq<char>,
    pub content: Seq<char>,
    pub is_concerns_others: bool,
    pub is_secret: bool,
    pub year: int,
    pub day: int,
    pub originator: Seq<char>,
}

impl View for SqlHistoryItem {
    type V = SqlHistoryItemView;

    open spec fn view(&self) -> SqlHistoryItemView {
        SqlHistoryItemView {
            label: self.label@,
            content: self.content@,
            is_concerns_others: self.is_concerns_others,
            is_secret: self.is_secret,
            year: self.year as int,
            day: self.day as int,
            originator: self.originator@,
        }
    }
}

/// How a history item is laid out as a storage row.
pub open spec fn encode_history_item(v: HistoryItemView) -> SqlHistoryItemView {
    SqlHistoryItemView {
        label: v.label,
        content: v.content,
        is_concerns_others: v.is_concerns_others,
        is_secret: v.is_secret,
        year: v.year,
        day: encode_day(v.day),
        originator: encode_optional_text(v.originator),
    }
}

/// How a storage row is read back as a history item.
pub open spec fn decode_history_item(v: SqlHistoryItemView) -> HistoryItemView {
    HistoryItemView {
        label: v.label,
        content: v.content,
        is_concerns_others: v.is_concerns_others,
        is_secret: v.is_secret,
        year: v.year,
        day: decode_day(v.day),
        originator: normalize_optional_text(Some(v.originator)),
    }
}

/// Reading back the row written for a valid history item gives the same
/// item; in particular an absent day comes back absent, not as day zero.
pub proof fn lemma_history_row_round_trip(v: HistoryItemView)
    requires
        v.valid(),
    ensures
        decode_history_item(encode_history_item(v)) == v,
{
    lemma_day_round_trip(v.day);
    lemma_optional_text_round_trip(v.originator);
}

impl HistoryItem {
    /// Lays the history item out as a storage row.
    pub fn to_sql_history_item(&self) -> (r: SqlHistoryItem)
        ensures
            r@ == encode_history_item(self@),
    {
        SqlHistoryItem {
            label: self.label.clone(),
            content: self.content.clone(),
            is_concerns_others: self.is_concerns_others,
            is_secret: self.is_secret,
            year: self.year,
            day: day_to_int(&self.day),
            originator: optional_string_to_sql(&self.originator),
        }
    }
}

impl SqlHistoryItem {
    /// Reads the storage row back as a history item.
    pub fn to_history_item(&self) -> (r: HistoryItem)
        ensures
            r@ == decode_history_item(self@),
    {
        HistoryItem {
            label: self.label.clone(),
            content: self.content.clone(),
            is_concerns_others: self.is_concerns_others,
            is_secret: self.is_secret,
            year: self.year,
            day: day_from_int(self.day),
            originator: sql_to_optional_string(&self.originator),
        }
    }
}

impl PartialEq for SqlHistoryItem {
    fn eq(&self, other: &Self) -> (r: bool) {
        self.label == other.label && self.content == other.content && self.is_concerns_others
            == other.is_concerns_others && self.is_secret == other.is_secret && self.year
            == other.year && self.day == other.day && self.originator == other.originator
    }
}

impl vstd::std_specs::cmp::PartialEqSpecImpl for SqlHistoryItem {
    open spec fn obeys_eq_spec() -> bool {
        true
    }

    open spec fn eq_spec(&self, other: &Self) -> bool {
        self@ == other@
    }
}

} // verus!
