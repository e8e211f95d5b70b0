//! Character-sequence order and small string helpers.
//!
//! Feature names are probed in strict lexical order; this module defines that
//! order mathematically, provides the executable comparison, and the sorted
//! deduplication that fixes the probing order of a run.

use vstd::prelude::*;

verus! {

/// Strict lexicographic order on character sequences, comparing code points.
pub open spec fn lex_lt(a: Seq<char>, b: Seq<char>) -> bool
    decreases a.len(),
{
    if b.len() == 0 {
        false
    } else if a.len() == 0 {
        true
    } else if (a[0] as u32) < (b[0] as u32) {
        true
    } else if (b[0] as u32) < (a[0] as u32) {
        false
    } else {
        lex_lt(a.skip(1), b.skip(1))
    }
}

/// The views of a sequence of strings.
pub open spec fn views(s: Seq<String>) -> Seq<Seq<char>> {
    s.map_values(|x: String| x@)
}

/// The order is irreflexive.
pub proof fn lemma_lex_lt_irrefl(a: Seq<char>)
    ensures
        !lex_lt(a, a),
    decreases a.len(),
{
    if a.len() > 0 {
        lemma_lex_lt_irrefl(a.skip(1));
    }
}

/// Two sequences that neither order relates are equal.
pub proof fn lemma_lex_lt_connex(a: Seq<char>, b: Seq<char>)
    requires
        !lex_lt(a, b),
        !lex_lt(b, a),
    ensures
        a == b,
    decreases a.len(),
{
    if a.len() == 0 || b.len() == 0 {
        assert(a =~= b);
    } else {
        vstd::utf8::char_u32_cast(a[0], a[0] as u32);
        vstd::utf8::char_u32_cast(b[0], b[0] as u32);
        lemma_lex_lt_connex(a.skip(1), b.skip(1));
        assert(a =~= seq![a[0]] + a.skip(1));
        assert(b =~= seq![b[0]] + b.skip(1));
    }
}

/// The order is transitive.
pub proof fn lemma_lex_lt_trans(a: Seq<char>, b: Seq<char>, c: Seq<char>)
    requires
        lex_lt(a, b),
        lex_lt(b, c),
    ensures
        lex_lt(a, c),
    decreases a.len(),
{
    if a.len() > 0 && b.len() > 0 && c.len() > 0 {
        if (a[0] as u32) == (b[0] as u32) && (b[0] as u32) == (c[0] as u32) {
            lemma_lex_lt_trans(a.skip(1), b.skip(1), c.skip(1));
        }
    }
}

/// Executable strict lexical comparison, matching `lex_lt` on the views.
pub fn str_lt(a: &str, b: &str) -> (r: bool)
    ensures
        r == lex_lt(a@, b@),
{
    let a_len = a.unicode_len();
    let b_len = b.unicode_len();
    let mut i: usize = 0;
    proof {
        assert(a@.skip(0) =~= a@);
        assert(b@.skip(0) =~= b@);
    }
    loop
        invariant
            i <= a_len,
            i <= b_len,
            a_len == a@.len(),
            b_len == b@.len(),
            lex_lt(a@, b@) == lex_lt(a@.skip(i as int), b@.skip(i as int)),
        decreases a_len - i,
    {
        if i >= a_len || i >= b_len {
            return i < b_len;
        }
        let ca = a.get_char(i) as u32;
        let cb = b.get_char(i) as u32;
        if ca < cb {
            return true;
        }
        if cb < ca {
            return false;
        }
        proof {
            assert(a@.skip(i as int).skip(1) =~= a@.skip(i as int + 1));
            assert(b@.skip(i as int).skip(1) =~= b@.skip(i as int + 1));
        }
        i = i + 1;
    }
}

/// Strict ascending lexical order, neighbour by neighbour.
pub open spec fn strictly_sorted(s: Seq<Seq<char>>) -> bool {
    forall|i: int| 0 <= i && i + 1 < s.len() ==> lex_lt(#[trigger] s[i], s[i + 1])
}

/// In a strictly sorted sequence every earlier element is smaller.
pub proof fn lemma_strictly_sorted_pairwise(s: Seq<Seq<char>>, i: int, j: int)
    requires
        strictly_sorted(s),
        0 <= i < j < s.len(),
    ensures
        lex_lt(s[i], s[j]),
    decreases j - i,
{
    if i + 1 < j {
        lemma_strictly_sorted_pairwise(s, i + 1, j);
        lemma_lex_lt_trans(s[i], s[i + 1], s[j]);
    }
}

/// The views of a string sequence after an insertion.
pub proof fn lemma_views_insert(s: Seq<String>, pos: int, x: String)
    requires
        0 <= pos <= s.len(),
    ensures
        views(s.insert(pos, x)) =~= views(s).insert(pos, x@),
{
    s.insert_ensures(pos, x);
    views(s).insert_ensures(pos, x@);
}

/// Inserting an element adds exactly that element to what the sequence holds.
pub proof fn lemma_insert_contains(s: Seq<Seq<char>>, pos: int, x: Seq<char>, t: Seq<char>)
    requires
        0 <= pos <= s.len(),
    ensures
        s.insert(pos, x).contains(t) <==> s.contains(t) || t == x,
{
    s.insert_ensures(pos, x);
    if s.contains(t) {
        let i = choose|i: int| 0 <= i < s.len() && s[i] == t;
        if i < pos {
            assert(s.insert(pos, x)[i] == t);
        } else {
            assert(s.insert(pos, x)[i + 1] == t);
        }
    }
    if t == x {
        assert(s.insert(pos, x)[pos] == t);
    }
    if s.insert(pos, x).contains(t) && t != x {
        let i = choose|i: int|
            0 <= i < s.insert(pos, x).len() && s.insert(pos, x)[i] == t;
        if i < pos {
            assert(s[i] == t);
        } else {
            assert(s[i - 1] == t);
        }
    }
}

/// The first position whose element does not precede `x`.
fn lower_bound(r: &Vec<String>, x: &String) -> (i: usize)
    requires
        strictly_sorted(views(r@)),
    ensures
        i <= r@.len(),
        forall|k: int| 0 <= k < i ==> lex_lt(#[trigger] views(r@)[k], x@),
        i < r@.len() ==> !lex_lt(views(r@)[i as int], x@),
{
    let mut i: usize = 0;
    loop
        invariant
            i <= r@.len(),
            forall|k: int| 0 <= k < i ==> lex_lt(#[trigger] views(r@)[k], x@),
        decreases r@.len() - i,
    {
        if i >= r.len() {
            return i;
        }
        proof {
            assert(views(r@)[i as int] == r@[i as int]@);
        }
        if !str_lt(r[i].as_str(), x.as_str()) {
            return i;
        }
        i = i + 1;
    }
}

/// Places `x` at its lexical position, keeping the order strict; a string
/// whose view is already present is dropped.
pub fn insert_sorted(r: &mut Vec<String>, x: String)
    requires
        strictly_sorted(views(old(r)@)),
    ensures
        strictly_sorted(views(final(r)@)),
        forall|t: Seq<char>|
            views(final(r)@).contains(t) <==> views(old(r)@).contains(t) || t == x@,
{
    let i = lower_bound(r, &x);
    if i < r.len() && r[i].eq(&x) {
        proof {
            assert(views(r@)[i as int] == x@);
            assert(views(r@).contains(x@));
        }
        return;
    }
    proof {
        if i < r@.len() {
            assert(views(r@)[i as int] == r@[i as int]@);
            if !lex_lt(x@, views(r@)[i as int]) {
                lemma_lex_lt_connex(views(r@)[i as int], x@);
                assert(false);
            }
        }
    }
    let ghost pre = r@;
    let ghost pos = i as int;
    r.insert(i, x);
    proof {
        lemma_views_insert(pre, pos, x);
        views(pre).insert_ensures(pos, x@);
        assert forall|k: int| 0 <= k && k + 1 < views(r@).len() implies lex_lt(
            #[trigger] views(r@)[k],
            views(r@)[k + 1],
        ) by {
            if k + 1 < pos {
                assert(views(r@)[k] == views(pre)[k]);
                assert(views(r@)[k + 1] == views(pre)[k + 1]);
            } else if k + 1 == pos {
                assert(views(r@)[k] == views(pre)[k]);
                assert(views(r@)[k + 1] == x@);
            } else if k == pos {
                assert(views(r@)[k] == x@);
                assert(views(r@)[k + 1] == views(pre)[k]);
            } else {
                assert(views(r@)[k] == views(pre)[k - 1]);
                assert(views(r@)[k + 1] == views(pre)[k]);
            }
        }
        assert forall|t: Seq<char>|
            views(r@).contains(t) <==> views(pre).contains(t) || t == x@ by {
            lemma_insert_contains(views(pre), pos, x@, t);
        }
    }
}

/// Orders the given names strictly lexically, dropping repeated views:
/// the probing order of a run.
pub fn sort_unique(v: &Vec<String>) -> (r: Vec<String>)
    ensures
        strictly_sorted(views(r@)),
        forall|t: Seq<char>| views(r@).contains(t) <==> views(v@).contains(t),
{
    let mut r: Vec<String> = Vec::new();
    let mut j: usize = 0;
    while j < v.len()
        invariant
            j <= v@.len(),
            strictly_sorted(views(r@)),
            forall|t: Seq<char>|
                views(r@).contains(t) <==> views(v@.take(j as int)).contains(t),
        decreases v@.len() - j,
    {
        let x = v[j].clone();
        let ghost pre = r@;
        insert_sorted(&mut r, x);
        proof {
            assert(v@.take(j as int + 1) =~= v@.take(j as int).push(v@[j as int]));
            assert(views(v@.take(j as int).push(v@[j as int]))
                =~= views(v@.take(j as int)).push(v@[j as int]@));
            assert forall|t: Seq<char>|
                views(r@).contains(t) <==> views(v@.take(j as int + 1)).contains(t) by {
                assert(views(r@).contains(t) <==> views(pre).contains(t) || t == v@[j as int]@);
                vstd::seq_lib::lemma_seq_contains_after_push(
                    views(v@.take(j as int)),
                    v@[j as int]@,
                    t,
                );
            }
        }
        j = j + 1;
    }
    proof {
        assert(v@.take(v@.len() as int) =~= v@);
    }
    r
}

/// Concatenation of three pieces into one fresh line.
pub fn concat3(a: &str, b: &str, c: &str) -> (r: String)
    ensures
        r@ == a@ + b@ + c@,
{
    let mut s = String::from_str(a);
    s.append(b);
    s.append(c);
    s
}

/// Concatenation of five pieces into one fresh line.
pub fn concat5(a: &str, b: &str, c: &str, d: &str, e: &str) -> (r: String)
    ensures
        r@ == a@ + b@ + c@ + d@ + e@,
{
    let mut s = String::from_str(a);
    s.append(b);
    s.append(c);
    s.append(d);
    s.append(e);
    s
}

/// The textual form of a truth value.
pub fn bool_str(b: bool) -> (r: &'static str)
    ensures
        b ==> r@ == "true"@,
        !b ==> r@ == "false"@,
{
    if b {
        "true"
    } else {
        "false"
    }
}

/// Whether some string of `v` has the view `s@`.
pub fn contains_str(v: &Vec<String>, s: &String) -> (r: bool)
    ensures
        r == views(v@).contains(s@),
{
    let mut i: usize = 0;
    while i < v.len()
        invariant
            i <= v@.len(),
            forall|k: int| 0 <= k < i ==> views(v@)[k] != s@,
        decreases v@.len() - i,
    {
        if v[i].eq(s) {
            assert(views(v@)[i as int] == s@);
            return true;
        }
        proof {
            assert(views(v@)[i as int] == v@[i as int]@);
        }
        i = i + 1;
    }
    false
}

} // verus!
