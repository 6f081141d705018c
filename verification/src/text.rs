use vstd::prelude::*;
use vstd::string::StrSliceExecFns;

verus! {

/// Text can be handed across the foreign boundary only if it contains no
/// embedded terminator character.
pub open spec fn text_ok(s: Seq<char>) -> bool {
    forall|i: int| 0 <= i < s.len() ==> s[i] != '\0'
}

/// Lexicographic order on character sequences, by code point; a proper prefix
/// precedes every continuation of it.
pub open spec fn seq_char_le(a: Seq<char>, b: Seq<char>) -> bool
    decreases a.len(),
{
    if a.len() == 0 {
        true
    } else if b.len() == 0 {
        false
    } else if a[0] == b[0] {
        seq_char_le(a.drop_first(), b.drop_first())
    } else {
        (a[0] as u32) < (b[0] as u32)
    }
}

pub proof fn lemma_seq_char_le_reflexive(a: Seq<char>)
    ensures
        seq_char_le(a, a),
    decreases a.len(),
{
    if a.len() > 0 {
        lemma_seq_char_le_reflexive(a.drop_first());
    }
}

pub proof fn lemma_seq_char_le_antisymmetric(a: Seq<char>, b: Seq<char>)
    ensures
        seq_char_le(a, b) && seq_char_le(b, a) ==> a == b,
    decreases a.len(),
{
    if a.len() > 0 && b.len() > 0 && a[0] == b[0] {
        lemma_seq_char_le_antisymmetric(a.drop_first(), b.drop_first());
        if seq_char_le(a, b) && seq_char_le(b, a) {
            assert(a.drop_first() == b.drop_first());
            assert(a.len() == b.len());
            assert forall|i: int| 0 <= i < a.len() implies a[i] == b[i] by {
                if i > 0 {
                    assert(a[i] == a.drop_first()[i - 1]);
                    assert(b[i] == b.drop_first()[i - 1]);
                }
            }
            assert(a =~= b);
        }
    }
}

pub proof fn lemma_seq_char_le_transitive(a: Seq<char>, b: Seq<char>, c: Seq<char>)
    ensures
        seq_char_le(a, b) && seq_char_le(b, c) ==> seq_char_le(a, c),
    decreases a.len(),
{
    if a.len() > 0 && b.len() > 0 && c.len() > 0 && a[0] == b[0] && b[0] == c[0] {
        lemma_seq_char_le_transitive(a.drop_first(), b.drop_first(), c.drop_first());
    }
}

pub proof fn lemma_seq_char_le_connected(a: Seq<char>, b: Seq<char>)
    ensures
        seq_char_le(a, b) || seq_char_le(b, a),
    decreases a.len(),
{
    if a.len() == 0 {
    } else if b.len() == 0 {
    } else if a[0] == b[0] {
        lemma_seq_char_le_connected(a.drop_first(), b.drop_first());
    } else {
        lemma_char_cast_distinct(a[0], b[0]);
    }
}

/// Distinct characters have distinct code points.
proof fn lemma_char_cast_distinct(x: char, y: char)
    ensures
        x != y ==> (x as u32) != (y as u32),
{
}

/// Stepping past a shared first character preserves the comparison.
proof fn lemma_seq_char_le_skip_one(a: Seq<char>, b: Seq<char>, i: int)
    requires
        0 <= i < a.len(),
        i < b.len(),
        a.skip(i)[0] == b.skip(i)[0],
    ensures
        seq_char_le(a.skip(i), b.skip(i)) == seq_char_le(a.skip(i + 1), b.skip(i + 1)),
{
    assert(a.skip(i).drop_first() =~= a.skip(i + 1));
    assert(b.skip(i).drop_first() =~= b.skip(i + 1));
}

/// Lexicographic comparison of two strings, character by character.
pub fn string_le(a: &str, b: &str) -> (r: bool)
    ensures
        r == seq_char_le(a@, b@),
{
    let na = a.unicode_len();
    let nb = b.unicode_len();
    let mut i: usize = 0;
    proof {
        assert(a@.skip(0) =~= a@);
        assert(b@.skip(0) =~= b@);
    }
    loop
        invariant
            na == a@.len(),
            nb == b@.len(),
            i <= na,
            i <= nb,
            seq_char_le(a@, b@) == seq_char_le(a@.skip(i as int), b@.skip(i as int)),
        decreases na - i,
    {
        if i == na {
            return true;
        }
        if i == nb {
            return false;
        }
        let ca = a.get_char(i);
        let cb = b.get_char(i);
        if ca != cb {
            return (ca as u32) < (cb as u32);
        }
        proof {
            lemma_seq_char_le_skip_one(a@, b@, i as int);
        }
        i = i + 1;
    }
}

/// The characters of a string, in order, as a vector.
pub fn str_to_chars(s: &str) -> (v: Vec<char>)
    ensures
        v@ == s@,
{
    let n = s.unicode_len();
    let mut v: Vec<char> = Vec::new();
    let mut i: usize = 0;
    while i < n
        invariant
            n == s@.len(),
            i <= n,
            v@.len() == i,
            forall|k: int| 0 <= k < i ==> v@[k] == s@[k],
        decreases n - i,
    {
        let c = s.get_char(i);
        v.push(c);
        i = i + 1;
    }
    proof {
        assert(v@ =~= s@);
    }
    v
}

/// Relies on `String`'s `FromIterator` implementation: collecting characters
/// yields the string of exactly those characters, in order.
#[verifier::external_body]
pub(crate) fn chars_to_string(v: &Vec<char>) -> (s: String)
    ensures
        s@ == v@,
{
    v.iter().collect()
}

/// Whether a string is free of embedded terminator characters, and so can be
/// laid out as a terminated foreign buffer.
pub fn text_is_clean(s: &str) -> (r: bool)
    ensures
        r == text_ok(s@),
{
    let n = s.unicode_len();
    let mut i: usize = 0;
    while i < n
        invariant
            n == s@.len(),
            i <= n,
            forall|k: int| 0 <= k < i ==> s@[k] != '\0',
        decreases n - i,
    {
        let c = s.get_char(i);
        if c == '\0' {
            return false;
        }
        i = i + 1;
    }
    true
}

/// Whether `p` occurs as a contiguous run somewhere inside `t`.
pub open spec fn contains_seq(t: Seq<char>, p: Seq<char>) -> bool {
    exists|i: int| 0 <= i && i + p.len() <= t.len() && #[trigger] t.subrange(i, i + p.len()) == p
}

/// Whether `p` occurs at position `i` of `t`.
fn matches_at(t: &str, p: &str, i: usize) -> (r: bool)
    requires
        i + p@.len() <= t@.len(),
    ensures
        r == (t@.subrange(i as int, i as int + p@.len() as int) == p@),
{
    let nt = t.unicode_len();
    let np = p.unicode_len();
    let mut j: usize = 0;
    while j < np
        invariant
            nt == t@.len(),
            np == p@.len(),
            i + np <= t@.len(),
            j <= np,
            forall|k: int| 0 <= k < j ==> t@[i + k] == p@[k],
        decreases np - j,
    {
        let tc = t.get_char(i + j);
        let pc = p.get_char(j);
        if tc != pc {
            proof {
                let off: int = i as int + j as int;
                assert(t@.subrange(i as int, i as int + p@.len() as int)[j as int] == t@[off]);
            }
            return false;
        }
        j = j + 1;
    }
    proof {
        assert(t@.subrange(i as int, i as int + p@.len() as int) =~= p@);
    }
    true
}

/// Substring search: whether `p` occurs anywhere inside `t`.
pub fn str_contains(t: &str, p: &str) -> (r: bool)
    ensures
        r == contains_seq(t@, p@),
{
    let nt = t.unicode_len();
    let np = p.unicode_len();
    if np > nt {
        return false;
    }
    if np == 0 {
        proof {
            assert(t@.subrange(0, 0 + p@.len() as int) =~= p@);
        }
        return true;
    }
    let mut i: usize = 0;
    while i <= nt - np
        invariant
            nt == t@.len(),
            np == p@.len(),
            1 <= np <= nt,
            i <= nt - np + 1,
            forall|k: int|
                0 <= k < i ==> #[trigger] t@.subrange(k, k + p@.len() as int) != p@,
        decreases nt - i,
    {
        if matches_at(t, p, i) {
            return true;
        }
        i = i + 1;
    }
    false
}

} // verus!
