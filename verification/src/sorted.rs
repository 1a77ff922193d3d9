use vstd::prelude::*;
use vstd::seq_lib::{to_multiset_build, to_multiset_remove};
use crate::project::{distinct, holds, strs};
use crate::text::{lex_lt, str_lt};

verus! {

/// No string comes before itself.
pub proof fn lemma_lex_lt_irreflexive(a: Seq<char>)
    ensures
        !lex_lt(a, a),
    decreases a.len(),
{
    if a.len() > 0 {
        lemma_lex_lt_irreflexive(a.drop_first());
    }
}

/// The order is transitive.
pub proof fn lemma_lex_lt_transitive(a: Seq<char>, b: Seq<char>, c: Seq<char>)
    requires
        lex_lt(a, b),
        lex_lt(b, c),
    ensures
        lex_lt(a, c),
    decreases a.len(),
{
    if a.len() > 0 && a[0] == b[0] && b[0] == c[0] {
        lemma_lex_lt_transitive(a.drop_first(), b.drop_first(), c.drop_first());
    }
}

/// Of two different strings one comes before the other.
pub proof fn lemma_lex_lt_total(a: Seq<char>, b: Seq<char>)
    ensures
        a == b || lex_lt(a, b) || lex_lt(b, a),
    decreases a.len(),
{
    if a.len() == 0 || b.len() == 0 {
        if a.len() == 0 && b.len() == 0 {
            assert(a =~= b);
        }
    } else if a[0] == b[0] {
        lemma_lex_lt_total(a.drop_first(), b.drop_first());
        if a.drop_first() == b.drop_first() {
            assert(a =~= seq![a[0]] + a.drop_first());
            assert(b =~= seq![b[0]] + b.drop_first());
        }
    } else {
        assert(a[0] as int != b[0] as int);
    }
}

/// Whether the list is in ascending order: no string comes before one that
/// stands earlier.
pub open spec fn ascending(v: Seq<String>) -> bool {
    forall|i: int, j: int| 0 <= i < j < v.len() ==> !lex_lt(v[j]@, v[i]@)
}

/// Putting a string into a sequence adds it once to what the sequence
/// holds.
proof fn lemma_insert_to_multiset(s: Seq<Seq<char>>, pos: int, x: Seq<char>)
    requires
        0 <= pos <= s.len(),
    ensures
        s.insert(pos, x).to_multiset() == s.to_multiset().insert(x),
{
    let t = s.insert(pos, x);
    s.insert_ensures(pos, x);
    assert(t.remove(pos) =~= s);
    to_multiset_remove(t, pos);
    assert(t[pos] == x);
    t.to_multiset_ensures();
    assert(t.contains(x));
    assert(t.to_multiset() =~= s.to_multiset().insert(x));
}

/// The strings of a list in ascending order: the same strings, each as
/// often as in the list.
pub fn sort_strings(v: &Vec<String>) -> (out: Vec<String>)
    ensures
        ascending(out@),
        strs(out@).to_multiset() == strs(v@).to_multiset(),
        out.len() == v.len(),
        forall|s: Seq<char>| holds(out@, s) <==> holds(v@, s),
        distinct(v@) ==> distinct(out@),
{
    let mut out: Vec<String> = Vec::new();
    let mut i: usize = 0;
    proof {
        assert(strs(out@) =~= strs(v@.take(0)));
    }
    while i < v.len()
        invariant
            i <= v.len(),
            out.len() == i,
            ascending(out@),
            strs(out@).to_multiset() == strs(v@.take(i as int)).to_multiset(),
            forall|k: int| 0 <= k < out.len() ==> holds(v@.take(i as int), (#[trigger] out[k])@),
            forall|j: int| 0 <= j < i ==> holds(out@, (#[trigger] v[j])@),
            distinct(v@) ==> distinct(out@),
        decreases v.len() - i,
    {
        let mut pos: usize = 0;
        while pos < out.len() && !str_lt(v[i].as_str(), out[pos].as_str())
            invariant
                pos <= out.len(),
                i < v.len(),
                forall|k: int| 0 <= k < pos ==> !lex_lt(v[i as int]@, (#[trigger] out[k])@),
            decreases out.len() - pos,
        {
            pos = pos + 1;
        }
        let ghost before = out@;
        let item = v[i].clone();
        out.insert(pos, item);
        proof {
            let x = v[i as int]@;
            before.insert_ensures(pos as int, item);
            assert(out@ == before.insert(pos as int, item));
            strs(before).insert_ensures(pos as int, x);
            assert(strs(out@) =~= strs(before).insert(pos as int, x));
            lemma_insert_to_multiset(strs(before), pos as int, x);
            assert(strs(v@.take(i + 1)) =~= strs(v@.take(i as int)).push(x));
            to_multiset_build(strs(v@.take(i as int)), x);
            assert forall|a: int, b: int| 0 <= a < b < out.len() implies !lex_lt(
                out[b]@,
                out[a]@,
            ) by {
                if b == pos {
                    // the new item against an earlier one
                    assert(out[a] == before[a]);
                } else if a == pos {
                    // a later one against the new item
                    assert(out[b] == before[b - 1]);
                    if pos < before.len() {
                        assert(lex_lt(x, before[pos as int]@));
                        if b - 1 > pos {
                            assert(!lex_lt(before[b - 1]@, before[pos as int]@));
                        }
                        if lex_lt(before[b - 1]@, x) {
                            lemma_lex_lt_transitive(before[b - 1]@, x, before[pos as int]@);
                            lemma_lex_lt_irreflexive(before[pos as int]@);
                        }
                    }
                } else {
                    let a0 = if a < pos { a } else { a - 1 };
                    let b0 = if b < pos { b } else { b - 1 };
                    assert(out[a] == before[a0]);
                    assert(out[b] == before[b0]);
                }
            }
            assert forall|k: int| 0 <= k < out.len() implies holds(
                v@.take(i + 1),
                (#[trigger] out[k])@,
            ) by {
                if k == pos {
                    assert(v@.take(i + 1)[i as int]@ == out[k]@);
                } else {
                    let k0 = if k < pos { k } else { k - 1 };
                    assert(out[k] == before[k0]);
                    let w = choose|w: int|
                        0 <= w < v@.take(i as int).len() && (#[trigger] v@.take(i as int)[w])@
                            == before[k0]@;
                    assert(v@.take(i + 1)[w]@ == out[k]@);
                }
            }
            assert forall|j: int| 0 <= j < i + 1 implies holds(out@, (#[trigger] v[j])@) by {
                if j == i {
                    assert(out[pos as int]@ == v[j]@);
                } else {
                    let w = choose|w: int| 0 <= w < before.len() && (#[trigger] before[w])@ == v[j]@;
                    let w1 = if w < pos { w } else { w + 1 };
                    assert(out[w1] == before[w]);
                }
            }
            if distinct(v@) {
                assert forall|a: int, b: int|
                    0 <= a < out.len() && 0 <= b < out.len() && a != b implies out[a]@
                    != out[b]@ by {
                    let a0 = if a < pos { a } else { a - 1 };
                    let b0 = if b < pos { b } else { b - 1 };
                    if a == pos || b == pos {
                        let o = if a == pos { b0 } else { a0 };
                        assert(before[o] == if a == pos { out[b] } else { out[a] });
                        let w = choose|w: int|
                            0 <= w < v@.take(i as int).len() && (#[trigger] v@.take(
                                i as int,
                            )[w])@ == before[o]@;
                        assert(v[w]@ != v[i as int]@);
                    } else {
                        assert(out[a] == before[a0]);
                        assert(out[b] == before[b0]);
                    }
                }
            }
        }
        i = i + 1;
    }
    proof {
        assert(v@.take(v.len() as int) =~= v@);
    }
    out
}

} // verus!
