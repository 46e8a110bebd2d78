//! The edit distance as the least number of edits.
use vstd::prelude::*;

#[allow(unused_imports)]
use crate::patch::closest::{
    edit_distance, law_distance_is_symmetric, law_distance_tells_texts_apart, lemma_distance_bound,
};

verus! {

/// One text becomes the other by putting a character in.
pub open spec fn puts_in(a: Seq<char>, b: Seq<char>) -> bool {
    exists|i: int, c: char| 0 <= i <= a.len() && b == #[trigger] a.insert(i, c)
}

/// One text becomes the other by replacing a character.
pub open spec fn replaces(a: Seq<char>, b: Seq<char>) -> bool {
    exists|i: int, c: char| 0 <= i < a.len() && b == #[trigger] a.update(i, c)
}

/// One text becomes the other by a single edit: a character is put in, taken out
/// or replaced.
pub open spec fn one_edit(a: Seq<char>, b: Seq<char>) -> bool {
    puts_in(a, b) || puts_in(b, a) || replaces(a, b)
}

/// One text becomes the other by `n` edits.
pub open spec fn by_edits(a: Seq<char>, b: Seq<char>, n: nat) -> bool
    decreases n,
{
    if n == 0 {
        a == b
    } else {
        exists|m: Seq<char>| #[trigger] one_edit(a, m) && by_edits(m, b, (n - 1) as nat)
    }
}

proof fn lemma_edit_before(a: Seq<char>, b: Seq<char>, c: char)
    requires
        one_edit(a, b),
    ensures
        one_edit(a.push(c), b.push(c)),
{
    if puts_in(a, b) {
        let (i, x) = choose|i: int, x: char| 0 <= i <= a.len() && b == #[trigger] a.insert(i, x);
        assert(b.push(c) =~= a.push(c).insert(i, x));
    } else if puts_in(b, a) {
        let (i, x) = choose|i: int, x: char| 0 <= i <= b.len() && a == #[trigger] b.insert(i, x);
        assert(a.push(c) =~= b.push(c).insert(i, x));
    } else {
        let (i, x) = choose|i: int, x: char| 0 <= i < a.len() && b == #[trigger] a.update(i, x);
        assert(b.push(c) =~= a.push(c).update(i, x));
    }
}

proof fn lemma_edits_before(a: Seq<char>, b: Seq<char>, n: nat, c: char)
    requires
        by_edits(a, b, n),
    ensures
        by_edits(a.push(c), b.push(c), n),
    decreases n,
{
    if n > 0 {
        let m = choose|m: Seq<char>| #[trigger] one_edit(a, m) && by_edits(m, b, (n - 1) as nat);
        lemma_edit_before(a, m, c);
        lemma_edits_before(m, b, (n - 1) as nat, c);
        assert(one_edit(a.push(c), m.push(c)));
    }
}

proof fn lemma_one_more_edit(a: Seq<char>, m: Seq<char>, b: Seq<char>, n: nat)
    requires
        by_edits(a, m, n),
        one_edit(m, b),
    ensures
        by_edits(a, b, n + 1),
    decreases n,
{
    if n == 0 {
        assert(by_edits(b, b, 0));
        assert(one_edit(a, b));
    } else {
        let k = choose|k: Seq<char>| #[trigger] one_edit(a, k) && by_edits(k, m, (n - 1) as nat);
        lemma_one_more_edit(k, m, b, (n - 1) as nat);
        assert(by_edits(k, b, n));
        assert(one_edit(a, k));
    }
}

proof fn lemma_last_edit(a: Seq<char>)
    requires
        a.len() > 0,
    ensures
        one_edit(a.drop_last(), a),
        one_edit(a, a.drop_last()),
{
    let short = a.drop_last();
    assert(a =~= short.insert(short.len() as int, a.last()));
    assert(puts_in(short, a));
}

/// A text becomes another by as many edits as their distance.
pub proof fn law_distance_is_reached(a: Seq<char>, b: Seq<char>)
    ensures
        by_edits(a, b, edit_distance(a, b)),
    decreases a.len() + b.len(),
{
    let n = edit_distance(a, b);
    if a.len() == 0 && b.len() == 0 {
        assert(a =~= b);
    } else if a.len() == 0 {
        law_distance_is_reached(a, b.drop_last());
        lemma_last_edit(b);
        lemma_one_more_edit(a, b.drop_last(), b, (n - 1) as nat);
    } else if b.len() == 0 {
        law_distance_is_reached(a.drop_last(), b);
        lemma_last_edit(a);
        assert(one_edit(a, a.drop_last()));
    } else {
        let (sa, sb) = (a.drop_last(), b.drop_last());
        let step = if a.last() == b.last() { 0nat } else { 1nat };
        assert(a =~= sa.push(a.last()));
        assert(b =~= sb.push(b.last()));
        if n == edit_distance(sa, sb) + step {
            law_distance_is_reached(sa, sb);
            lemma_edits_before(sa, sb, edit_distance(sa, sb), a.last());
            if a.last() != b.last() {
                let m = sb.push(a.last());
                assert(b =~= m.update(sb.len() as int, b.last()));
                assert(replaces(m, b));
                lemma_one_more_edit(a, m, b, edit_distance(sa, sb));
            }
        } else if n == edit_distance(sa, b) + 1 {
            law_distance_is_reached(sa, b);
            lemma_last_edit(a);
            assert(one_edit(a, sa));
        } else {
            law_distance_is_reached(a, sb);
            lemma_last_edit(b);
            lemma_one_more_edit(a, sb, b, (n - 1) as nat);
        }
    }
}

proof fn lemma_distance_least(a: Seq<char>, b: Seq<char>)
    ensures
        edit_distance(a, b) + a.len() >= b.len(),
        edit_distance(a, b) + b.len() >= a.len(),
    decreases a.len() + b.len(),
{
    if a.len() > 0 && b.len() > 0 {
        lemma_distance_least(a.drop_last(), b.drop_last());
        lemma_distance_least(a.drop_last(), b);
        lemma_distance_least(a, b.drop_last());
    }
}

/// The way over a third text is not shorter.
pub proof fn law_distance_keeps_the_triangle(a: Seq<char>, b: Seq<char>, c: Seq<char>)
    ensures
        edit_distance(a, c) <= edit_distance(a, b) + edit_distance(b, c),
    decreases a.len() + b.len() + c.len(),
{
    lemma_distance_least(a, b);
    lemma_distance_least(b, c);
    lemma_distance_bound(a, c);
    if a.len() > 0 && b.len() > 0 && c.len() > 0 {
        let (sa, sb, sc) = (a.drop_last(), b.drop_last(), c.drop_last());
        law_distance_keeps_the_triangle(sa, b, c);
        law_distance_keeps_the_triangle(a, b, sc);
        law_distance_keeps_the_triangle(a, sb, c);
        law_distance_keeps_the_triangle(a, sb, sc);
        law_distance_keeps_the_triangle(sa, sb, c);
        law_distance_keeps_the_triangle(sa, sb, sc);
    }
}

proof fn lemma_put_in_is_near(a: Seq<char>, i: int, c: char)
    requires
        0 <= i <= a.len(),
    ensures
        edit_distance(a, a.insert(i, c)) <= 1,
    decreases a.len(),
{
    let b = a.insert(i, c);
    if i == a.len() {
        law_distance_tells_texts_apart(a, a);
        assert(b.drop_last() =~= a);
        if a.len() > 0 {
            assert(edit_distance(a, b) <= edit_distance(a, b.drop_last()) + 1);
        }
    } else {
        lemma_put_in_is_near(a.drop_last(), i, c);
        assert(b.drop_last() =~= a.drop_last().insert(i, c));
        assert(b.last() == a.last());
    }
}

proof fn lemma_replaced_is_near(a: Seq<char>, i: int, c: char)
    requires
        0 <= i < a.len(),
    ensures
        edit_distance(a, a.update(i, c)) <= 1,
    decreases a.len(),
{
    let b = a.update(i, c);
    if i == a.len() - 1 {
        law_distance_tells_texts_apart(a.drop_last(), a.drop_last());
        assert(b.drop_last() =~= a.drop_last());
    } else {
        lemma_replaced_is_near(a.drop_last(), i, c);
        assert(b.drop_last() =~= a.drop_last().update(i, c));
        assert(b.last() == a.last());
    }
}

proof fn lemma_one_edit_is_near(a: Seq<char>, b: Seq<char>)
    requires
        one_edit(a, b),
    ensures
        edit_distance(a, b) <= 1,
{
    if puts_in(a, b) {
        let (i, c) = choose|i: int, c: char| 0 <= i <= a.len() && b == #[trigger] a.insert(i, c);
        lemma_put_in_is_near(a, i, c);
    } else if puts_in(b, a) {
        let (i, c) = choose|i: int, c: char| 0 <= i <= b.len() && a == #[trigger] b.insert(i, c);
        lemma_put_in_is_near(b, i, c);
        law_distance_is_symmetric(a, b);
    } else {
        let (i, c) = choose|i: int, c: char| 0 <= i < a.len() && b == #[trigger] a.update(i, c);
        lemma_replaced_is_near(a, i, c);
    }
}

/// No text becomes another by fewer edits than their distance.
pub proof fn law_distance_is_least(a: Seq<char>, b: Seq<char>, n: nat)
    requires
        by_edits(a, b, n),
    ensures
        edit_distance(a, b) <= n,
    decreases n,
{
    if n == 0 {
        law_distance_tells_texts_apart(a, b);
    } else {
        let m = choose|m: Seq<char>| #[trigger] one_edit(a, m) && by_edits(m, b, (n - 1) as nat);
        lemma_one_edit_is_near(a, m);
        law_distance_is_least(m, b, (n - 1) as nat);
        law_distance_keeps_the_triangle(a, m, b);
    }
}

} // verus!
