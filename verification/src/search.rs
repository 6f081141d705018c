use vstd::prelude::*;
use vstd::string::StrSliceExecFns;

use crate::text::{chars_to_string, contains_seq, str_contains};
use crate::types::{EntityColumn, EntityRelationship, HistoryItem};

verus! {

/// A text search parameter: no filtering at all, an exact match against a
/// given value, or a partial match against records containing a given
/// substring.  "No filter" and "filter for the empty string" are distinct
/// states on purpose: searching for records with an empty field must not
/// return the whole table.
pub enum SearchText {
    Unset,
    Exact(String),
    Partial(String),
}

/// The mathematical value of a [`SearchText`].
pub enum SearchTextView {
    Unset,
    Exact(Seq<char>),
    Partial(Seq<char>),
}

impl View for SearchText {
    type V = SearchTextView;

    open spec fn view(&self) -> SearchTextView {
        match self {
            SearchText::Unset => SearchTextView::Unset,
            SearchText::Exact(s) => SearchTextView::Exact(s@),
            SearchText::Partial(s) => SearchTextView::Partial(s@),
        }
    }
}

/// Which field values a search parameter accepts: everything when unset,
/// exactly the given value for an exact search, and every value containing
/// the given substring for a partial search.
pub open spec fn search_matches(p: SearchTextView, field: Seq<char>) -> bool {
    match p {
        SearchTextView::Unset => true,
        SearchTextView::Exact(t) => field == t,
        SearchTextView::Partial(t) => contains_seq(field, t),
    }
}

/// The characters the storage layer's pattern language treats specially: its
/// two wildcards and the escape character itself.
pub open spec fn is_pattern_special(c: char) -> bool {
    c == '%' || c == '_' || c == '\\'
}

/// The canonical escaping rule: every special character is preceded by the
/// escape character, so it stands for itself inside a pattern.
pub open spec fn escape_pattern(s: Seq<char>) -> Seq<char>
    decreases s.len(),
{
    if s.len() == 0 {
        Seq::empty()
    } else if is_pattern_special(s[0]) {
        seq!['\\', s[0]] + escape_pattern(s.drop_first())
    } else {
        seq![s[0]] + escape_pattern(s.drop_first())
    }
}

/// Appending one character to the text appends its escaped form to the
/// escaped text.
pub proof fn lemma_escape_pattern_snoc(s: Seq<char>, c: char)
    ensures
        escape_pattern(s + seq![c]) == escape_pattern(s) + (if is_pattern_special(c) {
            seq!['\\', c]
        } else {
            seq![c]
        }),
    decreases s.len(),
{
    let tail: Seq<char> = seq![c];
    if s.len() == 0 {
        assert((s + tail).len() == 1);
        assert((s + tail)[0] == c);
        assert((s + tail).drop_first() =~= Seq::<char>::empty());
        assert(escape_pattern((s + tail).drop_first()) =~= Seq::<char>::empty());
        assert(escape_pattern(s) =~= Seq::<char>::empty());
        if is_pattern_special(c) {
            assert(escape_pattern(s + tail) =~= seq!['\\', c]);
            assert(escape_pattern(s) + seq!['\\', c] =~= seq!['\\', c]);
        } else {
            assert(escape_pattern(s + tail) =~= seq![c]);
            assert(escape_pattern(s) + seq![c] =~= seq![c]);
        }
    } else {
        assert((s + tail).drop_first() =~= s.drop_first() + tail);
        lemma_escape_pattern_snoc(s.drop_first(), c);
        assert((s + tail)[0] == s[0]);
        if is_pattern_special(s[0]) {
            assert(escape_pattern(s + tail) == seq!['\\', s[0]] + escape_pattern(
                s.drop_first() + tail,
            ));
            assert(seq!['\\', s[0]] + (escape_pattern(s.drop_first()) + (if is_pattern_special(c) {
                seq!['\\', c]
            } else {
                seq![c]
            })) =~= (seq!['\\', s[0]] + escape_pattern(s.drop_first())) + (if is_pattern_special(
                c,
            ) {
                seq!['\\', c]
            } else {
                seq![c]
            }));
        } else {
            assert(escape_pattern(s + tail) == seq![s[0]] + escape_pattern(s.drop_first() + tail));
            assert(seq![s[0]] + (escape_pattern(s.drop_first()) + (if is_pattern_special(c) {
                seq!['\\', c]
            } else {
                seq![c]
            })) =~= (seq![s[0]] + escape_pattern(s.drop_first())) + (if is_pattern_special(c) {
                seq!['\\', c]
            } else {
                seq![c]
            }));
        }
    }
}

/// The pattern handed to the storage layer: the literal value for an exact
/// search; for a partial search, the value with every special character
/// escaped and a wildcard on each end, so that a search term containing a
/// literal wildcard character matches only that literal character.
pub open spec fn storage_pattern(p: SearchTextView) -> Seq<char>
    recommends
        !(p is Unset),
{
    match p {
        SearchTextView::Unset => Seq::empty(),
        SearchTextView::Exact(t) => t,
        SearchTextView::Partial(t) => seq!['%'] + escape_pattern(t) + seq!['%'],
    }
}

impl SearchText {
    /// A parameter that does not filter at all.
    pub fn unset() -> (r: Self)
        ensures
            r@ == SearchTextView::Unset,
    {
        SearchText::Unset
    }

    /// A parameter matching exactly the given value; `exact("")` matches only
    /// records whose field is empty.
    pub fn exact(text: String) -> (r: Self)
        ensures
            r@ == SearchTextView::Exact(text@),
    {
        SearchText::Exact(text)
    }

    /// A parameter matching every record whose field contains the given
    /// substring literally.
    pub fn partial(text: String) -> (r: Self)
        ensures
            r@ == SearchTextView::Partial(text@),
    {
        SearchText::Partial(text)
    }

    /// Whether the parameter filters at all.
    pub fn is_set(&self) -> (r: bool)
        ensures
            r == !(self@ is Unset),
    {
        !matches!(self, SearchText::Unset)
    }

    /// Whether the parameter demands an exact match.
    pub fn is_exact_match_required(&self) -> (r: bool)
        ensures
            r == (self@ is Exact),
    {
        matches!(self, SearchText::Exact(_))
    }

    /// Whether a field value satisfies this parameter.
    pub fn matches(&self, field: &str) -> (r: bool)
        ensures
            r == search_matches(self@, field@),
    {
        match self {
            SearchText::Unset => true,
            SearchText::Exact(t) => {
                let r = t.as_str().unicode_len() == field.unicode_len() && str_contains(
                    field,
                    t.as_str(),
                );
                proof {
                    if field@ == t@ {
                        assert(field@.subrange(0, 0 + t@.len() as int) =~= t@);
                    }
                    if r {
                        let i = choose|i: int|
                            0 <= i && i + t@.len() <= field@.len() && #[trigger] field@.subrange(
                                i,
                                i + t@.len(),
                            ) == t@;
                        assert(field@.subrange(0, 0 + t@.len() as int) =~= field@);
                    }
                }
                r
            },
            SearchText::Partial(t) => str_contains(field, t.as_str()),
        }
    }

    /// The pattern the storage layer consumes for this parameter.  An unset
    /// parameter is never turned into a pattern: it expresses the absence of
    /// a filter.
    pub fn to_storage_pattern(&self) -> (r: String)
        requires
            !(self@ is Unset),
        ensures
            r@ == storage_pattern(self@),
    {
        match self {
            SearchText::Unset => String::new(),
            SearchText::Exact(t) => t.clone(),
            SearchText::Partial(t) => {
                let chars = crate::text::str_to_chars(t.as_str());
                let mut out: Vec<char> = Vec::new();
                out.push('%');
                let n = chars.len();
                let mut i: usize = 0;
                proof {
                    assert(t@.take(0) =~= Seq::<char>::empty());
                    assert(out@ =~= seq!['%'] + escape_pattern(t@.take(0)));
                }
                while i < n
                    invariant
                        n == t@.len(),
                        chars@ == t@,
                        i <= n,
                        out@ == seq!['%'] + escape_pattern(t@.take(i as int)),
                    decreases n - i,
                {
                    let c = chars[i];
                    if c == '%' || c == '_' || c == '\\' {
                        out.push('\\');
                        out.push(c);
                    } else {
                        out.push(c);
                    }
                    proof {
                        assert(t@.take(i + 1) =~= t@.take(i as int) + seq![t@[i as int]]);
                        lemma_escape_pattern_snoc(t@.take(i as int), t@[i as int]);
                        assert(out@ =~= seq!['%'] + escape_pattern(t@.take(i + 1)));
                    }
                    i = i + 1;
                }
                out.push('%');
                proof {
                    assert(t@.take(n as int) =~= t@);
                    assert(out@ =~= seq!['%'] + escape_pattern(t@) + seq!['%']);
                }
                chars_to_string(&out)
            },
        }
    }
}

/// How the storage layer reads a pattern against a text: `%` matches any run
/// of characters, `_` matches any single character, `\` makes the following
/// character stand for itself, and any other character matches itself.
pub open spec fn like_matches(p: Seq<char>, t: Seq<char>) -> bool
    decreases p.len(), t.len(),
{
    if p.len() == 0 {
        t.len() == 0
    } else if p[0] == '%' {
        like_matches(p.drop_first(), t) || (t.len() > 0 && like_matches(p, t.drop_first()))
    } else if p[0] == '_' {
        t.len() > 0 && like_matches(p.drop_first(), t.drop_first())
    } else if p[0] == '\\' {
        p.len() >= 2 && t.len() > 0 && t[0] == p[1] && like_matches(p.skip(2), t.drop_first())
    } else {
        t.len() > 0 && t[0] == p[0] && like_matches(p.drop_first(), t.drop_first())
    }
}

/// A lone trailing wildcard accepts any remaining text.
proof fn lemma_like_single_percent(t: Seq<char>)
    ensures
        like_matches(seq!['%'], t),
    decreases t.len(),
{
    let p: Seq<char> = seq!['%'];
    assert(p[0] == '%');
    if t.len() == 0 {
        assert(p.drop_first() =~= Seq::<char>::empty());
        assert(like_matches(p.drop_first(), t));
    } else {
        lemma_like_single_percent(t.drop_first());
    }
}

/// A leading wildcard accepts a text exactly when the rest of the pattern
/// accepts some suffix of it.
proof fn lemma_like_leading_percent(q: Seq<char>, t: Seq<char>)
    ensures
        like_matches(seq!['%'] + q, t) <==> exists|i: int|
            0 <= i <= t.len() && like_matches(q, #[trigger] t.skip(i)),
    decreases t.len(),
{
    let p = seq!['%'] + q;
    assert(p[0] == '%');
    assert(p.drop_first() =~= q);
    if like_matches(p, t) {
        if like_matches(q, t) {
            assert(t.skip(0) =~= t);
            assert(like_matches(q, t.skip(0)));
        } else {
            assert(t.len() > 0 && like_matches(p, t.drop_first()));
            lemma_like_leading_percent(q, t.drop_first());
            let i = choose|i: int|
                0 <= i <= t.drop_first().len() && like_matches(q, #[trigger] t.drop_first().skip(i));
            assert(t.drop_first().skip(i) =~= t.skip(i + 1));
            assert(like_matches(q, t.skip(i + 1)));
        }
    }
    if exists|i: int| 0 <= i <= t.len() && like_matches(q, #[trigger] t.skip(i)) {
        let i = choose|i: int| 0 <= i <= t.len() && like_matches(q, #[trigger] t.skip(i));
        if i == 0 {
            assert(t.skip(0) =~= t);
            assert(like_matches(p.drop_first(), t));
            assert(like_matches(p, t));
        } else {
            assert(t.len() > 0);
            assert(t.skip(i) =~= t.drop_first().skip(i - 1));
            lemma_like_leading_percent(q, t.drop_first());
            assert(0 <= i - 1 <= t.drop_first().len() && like_matches(q, t.drop_first().skip(i - 1)));
            assert(like_matches(p, t.drop_first()));
            assert(like_matches(p, t));
        }
    }
}

/// An escaped value followed by a continuation accepts a text exactly when
/// the text starts with the value literally and the continuation accepts the
/// remainder.
proof fn lemma_like_escaped_literal(s: Seq<char>, q: Seq<char>, t: Seq<char>)
    ensures
        like_matches(escape_pattern(s) + q, t) <==> (s.len() <= t.len() && t.take(s.len() as int)
            == s && like_matches(q, t.skip(s.len() as int))),
    decreases s.len(),
{
    if s.len() == 0 {
        assert(escape_pattern(s) =~= Seq::<char>::empty());
        assert(escape_pattern(s) + q =~= q);
        assert(t.take(0) =~= Seq::<char>::empty());
        assert(s =~= Seq::<char>::empty());
        assert(t.skip(0) =~= t);
    } else {
        let c = s[0];
        let s1 = s.drop_first();
        let p = escape_pattern(s) + q;
        let rhs = (s.len() <= t.len() && t.take(s.len() as int) == s && like_matches(
            q,
            t.skip(s.len() as int),
        ));
        if t.len() == 0 {
            // the pattern starts with a literal character, so an empty text fails
            if is_pattern_special(c) {
                assert(p[0] == '\\');
                assert(!like_matches(p, t));
            } else {
                assert(p[0] == c);
                assert(!like_matches(p, t));
            }
            assert(!rhs);
        } else {
            lemma_like_escaped_literal(s1, q, t.drop_first());
            let lhs1 = like_matches(escape_pattern(s1) + q, t.drop_first());
            let rhs1 = (s1.len() <= t.drop_first().len() && t.drop_first().take(s1.len() as int)
                == s1 && like_matches(q, t.drop_first().skip(s1.len() as int)));
            // the head of the pattern accepts exactly the matching head character
            if is_pattern_special(c) {
                assert(escape_pattern(s) == seq!['\\', c] + escape_pattern(s1));
                assert(p =~= seq!['\\', c] + (escape_pattern(s1) + q));
                assert(p[0] == '\\');
                assert(p[1] == c);
                assert(p.len() >= 2);
                assert(p.skip(2) =~= escape_pattern(s1) + q);
                assert(like_matches(p, t) <==> (t[0] == c && lhs1));
            } else {
                assert(escape_pattern(s) == seq![c] + escape_pattern(s1));
                assert(p =~= seq![c] + (escape_pattern(s1) + q));
                assert(p[0] == c);
                assert(p.drop_first() =~= escape_pattern(s1) + q);
                assert(like_matches(p, t) <==> (t[0] == c && lhs1));
            }
            // the literal side decomposes the same way
            if s.len() <= t.len() {
                assert(t.skip(s.len() as int) =~= t.drop_first().skip(s1.len() as int));
            }
            if t[0] == c && rhs1 {
                assert(t.take(s.len() as int) =~= s) by {
                    assert(s.len() <= t.len());
                    assert forall|j: int| 0 <= j < s.len() implies t.take(s.len() as int)[j] == s[j]
                    by {
                        if j > 0 {
                            assert(t.take(s.len() as int)[j] == t[j]);
                            assert(t[j] == t.drop_first()[j - 1]);
                            assert(t.drop_first().take(s1.len() as int)[j - 1] == t.drop_first()[j
                                - 1]);
                            assert(s[j] == s1[j - 1]);
                        }
                    }
                }
                assert(rhs);
            }
            if rhs {
                assert(t.take(s.len() as int)[0] == t[0]);
                assert(t[0] == c);
                assert(t.drop_first().take(s1.len() as int) =~= s1) by {
                    assert forall|j: int|
                        0 <= j < s1.len() implies t.drop_first().take(s1.len() as int)[j] == s1[j]
                    by {
                        assert(t.drop_first().take(s1.len() as int)[j] == t[j + 1]);
                        assert(t.take(s.len() as int)[j + 1] == t[j + 1]);
                        assert(s[j + 1] == s1[j]);
                    }
                }
                assert(rhs1);
            }
        }
    }
}

/// The pattern built for a partial search accepts exactly the texts that
/// contain the search value literally: a wildcard character inside the value
/// stands only for itself.
pub proof fn lemma_partial_pattern_matches_literally(value: Seq<char>, t: Seq<char>)
    ensures
        like_matches(storage_pattern(SearchTextView::Partial(value)), t) <==> contains_seq(
            t,
            value,
        ),
{
    let q = escape_pattern(value) + seq!['%'];
    let pat = storage_pattern(SearchTextView::Partial(value));
    assert(pat =~= seq!['%'] + q);
    lemma_like_leading_percent(q, t);
    if like_matches(pat, t) {
        let i = choose|i: int| 0 <= i <= t.len() && like_matches(q, #[trigger] t.skip(i));
        lemma_like_escaped_literal(value, seq!['%'], t.skip(i));
        assert(value.len() <= t.skip(i).len());
        assert(t.skip(i).take(value.len() as int) == value);
        assert(t.subrange(i, i + value.len() as int) =~= t.skip(i).take(value.len() as int));
        assert(contains_seq(t, value));
    }
    if contains_seq(t, value) {
        let i = choose|i: int|
            0 <= i && i + value.len() <= t.len() && #[trigger] t.subrange(i, i + value.len()) == value;
        lemma_like_escaped_literal(value, seq!['%'], t.skip(i));
        lemma_like_single_percent(t.skip(i).skip(value.len() as int));
        assert(t.skip(i).take(value.len() as int) =~= t.subrange(i, i + value.len() as int));
        assert(like_matches(q, t.skip(i)));
        assert(like_matches(pat, t));
    }
}

/// The pattern handed to the storage layer for a partial search is faithful:
/// read under the pattern language, it accepts exactly the fields the
/// parameter matches.
pub proof fn lemma_storage_pattern_faithful(p: SearchTextView, field: Seq<char>)
    requires
        p is Partial,
    ensures
        like_matches(storage_pattern(p), field) <==> search_matches(p, field),
{
    match p {
        SearchTextView::Partial(value) => {
            lemma_partial_pattern_matches_literally(value, field);
        },
        _ => {},
    }
}

/// An unset parameter matches every field value, while an exact search for
/// the empty string matches exactly the records whose field is empty: the two
/// states are never conflated.
pub proof fn lemma_unset_and_exact_empty_differ(field: Seq<char>)
    ensures
        search_matches(SearchTextView::Unset, field),
        search_matches(SearchTextView::Exact(Seq::empty()), field) <==> field.len() == 0,
{
    if field.len() == 0 {
        assert(field =~= Seq::<char>::empty());
    }
}

/// The filters a column search consists of, one per searchable field.
pub struct EntityColumnSearchParams {
    pub label: SearchText,
    pub descriptor: SearchText,
}

impl EntityColumnSearchParams {
    pub fn new(label: SearchText, descriptor: SearchText) -> (r: Self)
        ensures
            r.label@ == label@,
            r.descriptor@ == descriptor@,
    {
        EntityColumnSearchParams { label, descriptor }
    }

    /// Whether a column satisfies every filter of this search.
    pub fn matches(&self, column: &EntityColumn) -> (r: bool)
        ensures
            r == (search_matches(self.label@, column@.label) && search_matches(
                self.descriptor@,
                column@.descriptor,
            )),
    {
        self.label.matches(column.label.as_str()) && self.descriptor.matches(
            column.descriptor.as_str(),
        )
    }
}

/// The filters a relationship search consists of, one per searchable field.
pub struct RelationshipSearchParams {
    pub parent: SearchText,
    pub child: SearchText,
}

impl RelationshipSearchParams {
    pub fn new(parent: SearchText, child: SearchText) -> (r: Self)
        ensures
            r.parent@ == parent@,
            r.child@ == child@,
    {
        RelationshipSearchParams { parent, child }
    }

    /// Whether a relationship satisfies every filter of this search.
    pub fn matches(&self, relationship: &EntityRelationship) -> (r: bool)
        ensures
            r == (search_matches(self.parent@, relationship@.parent) && search_matches(
                self.child@,
                relationship@.child,
            )),
    {
        self.parent.matches(relationship.parent.as_str()) && self.child.matches(
            relationship.child.as_str(),
        )
    }
}

/// The filters a history search consists of.  The day filter compares
/// against the wire encoding of the item's day, so filtering for day zero
/// finds the items whose day is absent.
pub struct HistoryItemSearchParams {
    pub year: Option<i32>,
    pub day: Option<i32>,
    pub label: SearchText,
    pub content: SearchText,
}

impl HistoryItemSearchParams {
    pub fn new(year: Option<i32>, day: Option<i32>, label: SearchText, content: SearchText) -> (r:
        Self)
        ensures
            r.year == year,
            r.day == day,
            r.label@ == label@,
            r.content@ == content@,
    {
        HistoryItemSearchParams { year, day, label, content }
    }

    /// Whether a history item satisfies every filter of this search.
    pub fn matches(&self, item: &HistoryItem) -> (r: bool)
        ensures
            r == ({
                &&& (match self.year {
                    Some(y) => item@.year == y as int,
                    None => true,
                })
                &&& (match self.day {
                    Some(d) => crate::sql_types::encode_day(item@.day) == d as int,
                    None => true,
                })
                &&& search_matches(self.label@, item@.label)
                &&& search_matches(self.content@, item@.content)
            }),
    {
        let year_ok = match self.year {
            Some(y) => item.year == y,
            None => true,
        };
        let day_ok = match self.day {
            Some(d) => crate::sql_types::day_to_int(&item.day) == d,
            None => true,
        };
        year_ok && day_ok && self.label.matches(item.label.as_str()) && self.content.matches(
            item.content.as_str(),
        )
    }
}

} // verus!
