use vstd::prelude::*;

use crate::errors::LoreCoreError;
use crate::foreign::{
    char_pointer_to_optional_string, char_pointer_to_string, encode_optional_text,
    optional_string_to_char_pointer, read_optional_text, read_text, string_to_char_pointer,
    ForeignText, ForeignTextView,
};
use crate::sql_types::{day_from_int, day_to_int, decode_day, encode_day};
use crate::text::text_ok;
use crate::types::{
    EntityColumn, EntityColumnView, EntityRelationship, EntityRelationshipView, HistoryItem,
    HistoryItemView,
};

verus! {

/// The flat shape of an entity column at the foreign boundary: every text
/// field is a foreign buffer.
#[derive(Debug, Clone)]
pub struct CEntityColumn {
    pub label: ForeignText,
    pub descriptor: ForeignText,
    pub description: ForeignText,
}

/// The mathematical value of a [`CEntityColumn`].
pub struct CEntityColumnView {
    pub label: ForeignTextView,
    pub descriptor: ForeignTextView,
    pub description: ForeignTextView,
}

impl View for CEntityColumn {
    type V = CEntityColumnView;

    open spec fn view(&self) -> CEntityColumnView {
        CEntityColumnView {
            label: self.label@,
            descriptor: self.descriptor@,
            description: self.description@,
        }
    }
}

/// What reading a flat column yields: the domain value, or nothing if any of
/// its buffers cannot be read.
pub open spec fn column_from_foreign(c: CEntityColumnView) -> Option<EntityColumnView> {
    match (read_text(c.label), read_text(c.descriptor), read_optional_text(c.description)) {
        (Some(label), Some(descriptor), Some(description)) => Some(
            EntityColumnView { label, descriptor, description },
        ),
        _ => None,
    }
}

/// How a domain column is laid out flat: every field becomes a non-null
/// buffer, an absent description becomes the empty string.
pub open spec fn column_to_foreign(v: EntityColumnView) -> CEntityColumnView {
    CEntityColumnView {
        label: ForeignTextView::Text(v.label),
        descriptor: ForeignTextView::Text(v.descriptor),
        description: ForeignTextView::Text(encode_optional_text(v.description)),
    }
}

/// Whether a domain column can be laid out flat at all: none of its text may
/// hold an embedded terminator.
pub open spec fn column_encodable(v: EntityColumnView) -> bool {
    text_ok(v.label) && text_ok(v.descriptor) && text_ok(encode_optional_text(v.description))
}

/// Reads a flat column into the domain, validating every field; fails with
/// `InputError` on the first field that cannot be read.
pub fn to_entity_column(column: &CEntityColumn) -> (r: Result<EntityColumn, LoreCoreError>)
    ensures
        match r {
            Ok(c) => column_from_foreign(column@) == Some(c@),
            Err(e) => column_from_foreign(column@) is None && e is InputError,
        },
{
    Ok(
        EntityColumn {
            label: char_pointer_to_string(&column.label)?,
            descriptor: char_pointer_to_string(&column.descriptor)?,
            description: char_pointer_to_optional_string(&column.description)?,
        },
    )
}

/// Lays a domain column out flat; the receiver owns every buffer of the
/// result.  Fails with `EncodingError` if any field holds an embedded
/// terminator.
pub fn to_c_entity_column(column: &EntityColumn) -> (r: Result<CEntityColumn, LoreCoreError>)
    ensures
        match r {
            Ok(c) => column_encodable(column@) && c@ == column_to_foreign(column@),
            Err(e) => !column_encodable(column@) && e is EncodingError,
        },
{
    Ok(
        CEntityColumn {
            label: string_to_char_pointer(column.label.as_str())?,
            descriptor: string_to_char_pointer(column.descriptor.as_str())?,
            description: optional_string_to_char_pointer(&column.description)?,
        },
    )
}

/// Every valid domain column survives the trip out over the boundary and
/// back unchanged.
pub proof fn lemma_column_round_trip(v: EntityColumnView)
    requires
        v.valid(),
    ensures
        column_encodable(v),
        column_from_foreign(column_to_foreign(v)) == Some(v),
{
}

/// The flat shape of a relationship at the foreign boundary.
#[derive(Debug, Clone)]
pub struct CEntityRelationship {
    pub parent: ForeignText,
    pub child: ForeignText,
    pub role: ForeignText,
}

/// The mathematical value of a [`CEntityRelationship`].
pub struct CEntityRelationshipView {
    pub parent: ForeignTextView,
    pub child: ForeignTextView,
    pub role: ForeignTextView,
}

impl View for CEntityRelationship {
    type V = CEntityRelationshipView;

    open spec fn view(&self) -> CEntityRelationshipView {
        CEntityRelationshipView { parent: self.parent@, child: self.child@, role: self.role@ }
    }
}

/// What reading a flat relationship yields; an empty role buffer means the
/// relationship has no role.
pub open spec fn relationship_from_foreign(c: CEntityRelationshipView) -> Option<
    EntityRelationshipView,
> {
    match (read_text(c.parent), read_text(c.child), read_optional_text(c.role)) {
        (Some(parent), Some(child), Some(role)) => Some(
            EntityRelationshipView { parent, child, role },
        ),
        _ => None,
    }
}

/// How a domain relationship is laid out flat.
pub open spec fn relationship_to_foreign(v: EntityRelationshipView) -> CEntityRelationshipView {
    CEntityRelationshipView {
        parent: ForeignTextView::Text(v.parent),
        child: ForeignTextView::Text(v.child),
        role: ForeignTextView::Text(encode_optional_text(v.role)),
    }
}

/// Whether a domain relationship can be laid out flat.
pub open spec fn relationship_encodable(v: EntityRelationshipView) -> bool {
    text_ok(v.parent) && text_ok(v.child) && text_ok(encode_optional_text(v.role))
}

/// Reads a flat relationship into the domain; fails with `InputError` on the
/// first field that cannot be read.
pub fn to_relationship(rel: &CEntityRelationship) -> (r: Result<EntityRelationship, LoreCoreError>)
    ensures
        match r {
            Ok(c) => relationship_from_foreign(rel@) == Some(c@),
            Err(e) => relationship_from_foreign(rel@) is None && e is InputError,
        },
{
    Ok(
        EntityRelationship {
            parent: char_pointer_to_string(&rel.parent)?,
            child: char_pointer_to_string(&rel.child)?,
            role: char_pointer_to_optional_string(&rel.role)?,
        },
    )
}

/// Lays a domain relationship out flat; fails with `EncodingError` if any
/// field holds an embedded terminator.
pub fn to_c_entity_relationship(rel: &EntityRelationship) -> (r: Result<
    CEntityRelationship,
    LoreCoreError,
>)
    ensures
        match r {
            Ok(c) => relationship_encodable(rel@) && c@ == relationship_to_foreign(rel@),
            Err(e) => !relationship_encodable(rel@) && e is EncodingError,
        },
{
    Ok(
        CEntityRelationship {
            parent: string_to_char_pointer(rel.parent.as_str())?,
            child: string_to_char_pointer(rel.child.as_str())?,
            role: optional_string_to_char_pointer(&rel.role)?,
        },
    )
}

/// Every valid domain relationship survives the trip out over the boundary
/// and back unchanged; in particular an absent role comes back absent.
pub proof fn lemma_relationship_round_trip(v: EntityRelationshipView)
    requires
        v.valid(),
    ensures
        relationship_encodable(v),
        relationship_from_foreign(relationship_to_foreign(v)) == Some(v),
{
}

/// The flat shape of a history item at the foreign boundary: booleans ride
/// as bytes, the optional day rides in its wire encoding.
#[derive(Debug, Clone)]
pub struct CHistoryItem {
    pub label: ForeignText,
    pub content: ForeignText,
    pub is_concerns_others: u8,
    pub is_secret: u8,
    pub year: i32,
    pub day: i32,
    pub originator: ForeignText,
}

/// The mathematical value of a [`CHistoryItem`].
pub struct CHistoryItemView {
    pub label: ForeignTextView,
    pub content: ForeignTextView,
    pub is_concerns_others: u8,
    pub is_secret: u8,
    pub year: int,
    pub day: int,
    pub originator: ForeignTextView,
}

impl View for CHistoryItem {
    type V = CHistoryItemView;

    open spec fn view(&self) -> CHistoryItemView {
        CHistoryItemView {
            label: self.label@,
            content: self.content@,
            is_concerns_others: self.is_concerns_others,
            is_secret: self.is_secret,
            year: self.year as int,
            day: self.day as int,
            originator: self.originator@,
        }
    }
}

/// What reading a flat history item yields: any non-zero byte is a set flag,
/// any non-positive day is an absent day.
pub open spec fn history_from_foreign(c: CHistoryItemView) -> Option<HistoryItemView> {
    match (read_text(c.label), read_text(c.content), read_optional_text(c.originator)) {
        (Some(label), Some(content), Some(originator)) => Some(
            HistoryItemView {
                label,
                content,
                is_concerns_others: c.is_concerns_others != 0,
                is_secret: c.is_secret != 0,
                year: c.year,
                day: decode_day(c.day),
                originator,
            },
        ),
        _ => None,
    }
}

/// How a domain history item is laid out flat.
pub open spec fn history_to_foreign(v: HistoryItemView) -> CHistoryItemView {
    CHistoryItemView {
        label: ForeignTextView::Text(v.label),
        content: ForeignTextView::Text(v.content),
        is_concerns_others: if v.is_concerns_others {
            1u8
        } else {
            0u8
        },
        is_secret: if v.is_secret {
            1u8
        } else {
            0u8
        },
        year: v.year,
        day: encode_day(v.day),
        originator: ForeignTextView::Text(encode_optional_text(v.originator)),
    }
}

/// Whether a domain history item can be laid out flat.
pub open spec fn history_encodable(v: HistoryItemView) -> bool {
    text_ok(v.label) && text_ok(v.content) && text_ok(encode_optional_text(v.originator))
}

/// Reads a flat history item into the domain; fails with `InputError` on the
/// first field that cannot be read.
pub fn to_history_item(item: &CHistoryItem) -> (r: Result<HistoryItem, LoreCoreError>)
    ensures
        match r {
            Ok(c) => history_from_foreign(item@) == Some(c@),
            Err(e) => history_from_foreign(item@) is None && e is InputError,
        },
{
    Ok(
        HistoryItem {
            label: char_pointer_to_string(&item.label)?,
            content: char_pointer_to_string(&item.content)?,
            is_concerns_others: item.is_concerns_others != 0,
            is_secret: item.is_secret != 0,
            year: item.year,
            day: day_from_int(item.day),
            originator: char_pointer_to_optional_string(&item.originator)?,
        },
    )
}

/// Lays a domain history item out flat; fails with `EncodingError` if any
/// text field holds an embedded terminator.
pub fn to_c_history_item(item: &HistoryItem) -> (r: Result<CHistoryItem, LoreCoreError>)
    ensures
        match r {
            Ok(c) => history_encodable(item@) && c@ == history_to_foreign(item@),
            Err(e) => !history_encodable(item@) && e is EncodingError,
        },
{
    Ok(
        CHistoryItem {
            label: string_to_char_pointer(item.label.as_str())?,
            content: string_to_char_pointer(item.content.as_str())?,
            is_concerns_others: if item.is_concerns_others {
                1
            } else {
                0
            },
            is_secret: if item.is_secret {
                1
            } else {
                0
            },
            year: item.year,
            day: day_to_int(&item.day),
            originator: optional_string_to_char_pointer(&item.originator)?,
        },
    )
}

/// Every valid domain history item survives the trip out over the boundary
/// and back unchanged: flags round-trip through bytes, an absent day
/// round-trips through the zero sentinel, and an absent originator
/// round-trips through the empty buffer.
pub proof fn lemma_history_round_trip(v: HistoryItemView)
    requires
        v.valid(),
    ensures
        history_encodable(v),
        history_from_foreign(history_to_foreign(v)) == Some(v),
{
}

} // verus!
