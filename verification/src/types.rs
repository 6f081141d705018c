use vstd::prelude::*;

use crate::text::text_ok;

verus! {

/// A present optional text value is non-empty (absence is the only way to
/// express "nothing") and free of embedded terminators.
pub open spec fn optional_text_valid(o: Option<Seq<char>>) -> bool {
    match o {
        Some(s) => text_ok(s) && s.len() > 0,
        None => true,
    }
}

/// The normal form of an optional text value: an empty string collapses to
/// absence, so that "no value" has exactly one representation.
pub open spec fn normalize_optional_text(o: Option<Seq<char>>) -> Option<Seq<char>> {
    match o {
        Some(s) => if s.len() == 0 {
            None
        } else {
            Some(s)
        },
        None => None,
    }
}

/// Collapses an optional string to its normal form: `Some("")` becomes
/// `None`.
pub fn normalize_optional_string(o: Option<String>) -> (r: Option<String>)
    ensures
        r.deep_view() == normalize_optional_text(o.deep_view()),
{
    match o {
        Some(s) => if s.as_str().is_empty() {
            None
        } else {
            Some(s)
        },
        None => None,
    }
}

/// Compares two optional strings by value.
pub fn optional_string_eq(a: &Option<String>, b: &Option<String>) -> (r: bool)
    ensures
        r == (a.deep_view() == b.deep_view()),
{
    match (a, b) {
        (None, None) => true,
        (Some(x), Some(y)) => *x == *y,
        _ => false,
    }
}

/// A labeled attribute record describing a lore entity.  Identity is the pair
/// (label, descriptor); only the description may be absent.
#[derive(Debug, Clone)]
pub struct EntityColumn {
    pub label: String,
    pub descriptor: String,
    pub description: Option<String>,
}

/// The mathematical value of an [`EntityColumn`].
pub struct EntityColumnView {
    pub label: Seq<char>,
    pub descriptor: Seq<char>,
    pub description: Option<Seq<char>>,
}

impl View for EntityColumn {
    type V = EntityColumnView;

    open spec fn view(&self) -> EntityColumnView {
        EntityColumnView {
            label: self.label@,
            descriptor: self.descriptor@,
            description: self.description.deep_view(),
        }
    }
}

impl EntityColumnView {
    /// A column the boundary can carry: no embedded terminators, and a
    /// present description is non-empty.
    pub open spec fn valid(self) -> bool {
        text_ok(self.label) && text_ok(self.descriptor) && optional_text_valid(self.description)
    }
}

impl EntityColumn {
    /// Builds a column, collapsing an empty description to absence.
    pub fn new(label: String, descriptor: String, description: Option<String>) -> (r: Self)
        ensures
            r@.label == label@,
            r@.descriptor == descriptor@,
            r@.description == normalize_optional_text(description.deep_view()),
    {
        EntityColumn { label, descriptor, description: normalize_optional_string(description) }
    }
}

impl PartialEq for EntityColumn {
    fn eq(&self, other: &Self) -> (r: bool) {
        self.label == other.label && self.descriptor == other.descriptor && optional_string_eq(
            &self.description,
            &other.description,
        )
    }
}

impl vstd::std_specs::cmp::PartialEqSpecImpl for EntityColumn {
    open spec fn obeys_eq_spec() -> bool {
        true
    }

    open spec fn eq_spec(&self, other: &Self) -> bool {
        self@ == other@
    }
}

/// A directed parent/child link between two entities, optionally qualified by
/// a role.  A relationship is identified by the triple (parent, child, role);
/// an absent role and an empty role text mean the same thing and are kept in
/// the normal form "absent".
#[derive(Debug, Clone)]
pub struct EntityRelationship {
    pub parent: String,
    pub child: String,
    pub role: Option<String>,
}

/// The mathematical value of an [`EntityRelationship`].
pub struct EntityRelationshipView {
    pub parent: Seq<char>,
    pub child: Seq<char>,
    pub role: Option<Seq<char>>,
}

impl View for EntityRelationship {
    type V = EntityRelationshipView;

    open spec fn view(&self) -> EntityRelationshipView {
        EntityRelationshipView {
            parent: self.parent@,
            child: self.child@,
            role: self.role.deep_view(),
        }
    }
}

impl EntityRelationshipView {
    /// A relationship the boundary can carry: no embedded terminators, and a
    /// present role is non-empty.
    pub open spec fn valid(self) -> bool {
        text_ok(self.parent) && text_ok(self.child) && optional_text_valid(self.role)
    }
}

impl EntityRelationship {
    /// Builds a relationship, collapsing an empty role to absence.  The same
    /// normalization runs on write and on lookup, so a record written through
    /// this constructor is found again by a lookup built through it.
    pub fn new(parent: String, child: String, role: Option<String>) -> (r: Self)
        ensures
            r@.parent == parent@,
            r@.child == child@,
            r@.role == normalize_optional_text(role.deep_view()),
    {
        EntityRelationship { parent, child, role: normalize_optional_string(role) }
    }
}

impl PartialEq for EntityRelationship {
    fn eq(&self, other: &Self) -> (r: bool) {
        self.parent == other.parent && self.child == other.child && optional_string_eq(
            &self.role,
            &other.role,
        )
    }
}

impl vstd::std_specs::cmp::PartialEqSpecImpl for EntityRelationship {
    open spec fn obeys_eq_spec() -> bool {
        true
    }

    open spec fn eq_spec(&self, other: &Self) -> bool {
        self@ == other@
    }
}

/// The mathematical value of an optional day.
pub open spec fn day_view(day: Option<i32>) -> Option<int> {
    match day {
        Some(d) => Some(d as int),
        None => None,
    }
}

/// A timestamped, optionally-private event record attached to the lore
/// world's timeline.  The day within the year may be absent; a present day is
/// always positive, since day zero is not a valid calendar day.
#[derive(Debug, Clone)]
pub struct HistoryItem {
    pub label: String,
    pub content: String,
    pub is_concerns_others: bool,
    pub is_secret: bool,
    pub year: i32,
    pub day: Option<i32>,
    pub originator: Option<String>,
}

/// The mathematical value of a [`HistoryItem`].
pub struct HistoryItemView {
    pub label: Seq<char>,
    pub content: Seq<char>,
    pub is_concerns_others: bool,
    pub is_secret: bool,
    pub year: int,
    pub day: Option<int>,
    pub originator: Option<Seq<char>>,
}

impl View for HistoryItem {
    type V = HistoryItemView;

    open spec fn view(&self) -> HistoryItemView {
        HistoryItemView {
            label: self.label@,
            content: self.content@,
            is_concerns_others: self.is_concerns_others,
            is_secret: self.is_secret,
            year: self.year as int,
            day: day_view(self.day),
            originator: self.originator.deep_view(),
        }
    }
}

impl HistoryItemView {
    /// An item the boundary can carry: a present day is positive and fits the
    /// wire integer, text fields hold no embedded terminators, and a present
    /// originator is non-empty.
    pub open spec fn valid(self) -> bool {
        &&& text_ok(self.label)
        &&& text_ok(self.content)
        &&& (match self.day {
            Some(d) => 0 < d <= i32::MAX as int,
            None => true,
        })
        &&& optional_text_valid(self.originator)
    }
}

/// The normal form of an optional day: any non-positive value collapses to
/// absence, since zero and negative numbers are not calendar days.
pub open spec fn normalize_day(day: Option<int>) -> Option<int> {
    match day {
        Some(d) => if d > 0 {
            Some(d)
        } else {
            None
        },
        None => None,
    }
}

impl HistoryItem {
    /// Builds a history item, collapsing a non-positive day to absence and an
    /// empty originator to absence.
    pub fn new(
        label: String,
        content: String,
        is_concerns_others: bool,
        is_secret: bool,
        year: i32,
        day: Option<i32>,
        originator: Option<String>,
    ) -> (r: Self)
        ensures
            r@.label == label@,
            r@.content == content@,
            r@.is_concerns_others == is_concerns_others,
            r@.is_secret == is_secret,
            r@.year == year as int,
            r@.day == normalize_day(day_view(day)),
            r@.originator == normalize_optional_text(originator.deep_view()),
    {
        let day = match day {
            Some(d) => if d > 0 {
                Some(d)
            } else {
                None
            },
            None => None,
        };
        HistoryItem {
            label,
            content,
            is_concerns_others,
            is_secret,
            year,
            day,
            originator: normalize_optional_string(originator),
        }
    }
}

/// Compares two optional days by value.
pub fn optional_day_eq(a: &Option<i32>, b: &Option<i32>) -> (r: bool)
    ensures
        r == (a == b),
{
    match (a, b) {
        (None, None) => true,
        (Some(x), Some(y)) => *x == *y,
        _ => false,
    }
}

impl PartialEq for HistoryItem {
    fn eq(&self, other: &Self) -> (r: bool) {
        self.label == other.label && self.content == other.content && self.is_concerns_others
            == other.is_concerns_others && self.is_secret == other.is_secret && self.year
            == other.year && optional_day_eq(&self.day, &other.day) && optional_string_eq(
            &self.originator,
            &other.originator,
        )
    }
}

impl vstd::std_specs::cmp::PartialEqSpecImpl for HistoryItem {
    open spec fn obeys_eq_spec() -> bool {
        true
    }

    open spec fn eq_spec(&self, other: &Self) -> bool {
        self@ == other@
    }
}

} // verus!
