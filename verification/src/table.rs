//! Lists used as tables: at most one entry for each key.
use vstd::prelude::*;
#[allow(unused_imports)]
use vstd::string::*;

#[allow(unused_imports)]
use crate::text::{
    is_before, lemma_text_before_asymmetric, lemma_text_before_total, lemma_text_before_transitive,
    text_before,
};

verus! {

/// A key: two texts, the second empty where one is enough.
pub type Key = (Seq<char>, Seq<char>);

/// An entry with a key.
pub trait Keyed: Sized {
    spec fn key(&self) -> Key;

    /// Whether the key of the entry is the pair.
    fn has_key(&self, a: &str, b: &str) -> (r: bool)
        ensures
            r == (self.key() == (a@, b@)),
    ;
}

/// The position of the first entry with a key.
pub open spec fn find<T: Keyed>(s: Seq<T>, k: Key) -> Option<int>
    decreases s.len(),
{
    if s.len() == 0 {
        None
    } else if s[0].key() == k {
        Some(0)
    } else {
        match find(s.drop_first(), k) {
            Some(i) => Some(i + 1),
            None => None,
        }
    }
}

/// The entry with a key.
pub open spec fn lookup<T: Keyed>(s: Seq<T>, k: Key) -> Option<T> {
    match find(s, k) {
        Some(i) => Some(s[i]),
        None => None,
    }
}

/// The table without the entry of a key.
pub open spec fn without<T: Keyed>(s: Seq<T>, k: Key) -> Seq<T> {
    match find(s, k) {
        Some(i) => s.remove(i),
        None => s,
    }
}

/// The table with an entry, in place of the one with its key.
pub open spec fn with_entry<T: Keyed>(s: Seq<T>, t: T) -> Seq<T> {
    match find(s, t.key()) {
        Some(i) => s.update(i, t),
        None => s.push(t),
    }
}

/// No two entries share a key.
pub open spec fn keys_differ<T: Keyed>(s: Seq<T>) -> bool {
    forall|i: int, j: int|
        0 <= i < j < s.len() ==> (#[trigger] s[i]).key() != (#[trigger] s[j]).key()
}

/// `find` finds the first entry with the key, if there is one.
pub proof fn lemma_find<T: Keyed>(s: Seq<T>, k: Key)
    ensures
        match find(s, k) {
            Some(i) => {
                &&& 0 <= i < s.len()
                &&& s[i].key() == k
                &&& forall|j: int| 0 <= j < i ==> (#[trigger] s[j]).key() != k
            },
            None => forall|j: int| 0 <= j < s.len() ==> (#[trigger] s[j]).key() != k,
        },
    decreases s.len(),
{
    if s.len() > 0 && s[0].key() != k {
        lemma_find(s.drop_first(), k);
        assert forall|j: int| 1 <= j < s.len() implies #[trigger] s[j] == s.drop_first()[j - 1] by {}
    }
}

/// An entry with the key is the one found, where keys differ.
pub proof fn lemma_find_at<T: Keyed>(s: Seq<T>, i: int)
    requires
        keys_differ(s),
        0 <= i < s.len(),
    ensures
        find(s, s[i].key()) == Some(i),
{
    lemma_find(s, s[i].key());
    if find(s, s[i].key()) is None {
        assert(s[i].key() != s[i].key());
    }
    let k = find(s, s[i].key())->0;
    if k < i {
        assert(s[k].key() != s[i].key());
    }
    if i < k {
        assert(s[i].key() != s[k].key());
    }
}

/// What a key gives after an entry was put in.
pub proof fn lemma_with_entry<T: Keyed>(s: Seq<T>, t: T, k: Key)
    requires
        keys_differ(s),
    ensures
        keys_differ(with_entry(s, t)),
        lookup(with_entry(s, t), k) == (if k == t.key() {
            Some(t)
        } else {
            lookup(s, k)
        }),
{
    let after = with_entry(s, t);
    lemma_find(s, t.key());
    lemma_find(s, k);
    assert forall|i: int, j: int| 0 <= i < j < after.len() implies (#[trigger] after[i]).key() != (
    #[trigger] after[j]).key() by {
        if j < s.len() {
            assert(s[i].key() != s[j].key());
        } else {
            assert(s[i].key() != t.key());
        }
    }
    lemma_find(after, k);
    if k == t.key() {
        match find(s, t.key()) {
            Some(i) => {
                lemma_find_at(after, i);
            },
            None => {
                lemma_find_at(after, s.len() as int);
            },
        }
    } else {
        match find(s, k) {
            Some(i) => {
                assert(after[i] == s[i]);
                lemma_find_at(after, i);
            },
            None => {
                if let Some(i) = find(after, k) {
                    if i < s.len() {
                        assert(s[i].key() != k);
                    }
                }
            },
        }
    }
}

/// What a key gives after the entry of another was taken out.
pub proof fn lemma_without<T: Keyed>(s: Seq<T>, gone: Key, k: Key)
    requires
        keys_differ(s),
    ensures
        keys_differ(without(s, gone)),
        lookup(without(s, gone), k) == (if k == gone {
            None
        } else {
            lookup(s, k)
        }),
{
    let after = without(s, gone);
    lemma_find(s, gone);
    lemma_find(s, k);
    lemma_find(after, k);
    if let Some(g) = find(s, gone) {
        assert forall|i: int| 0 <= i < after.len() implies #[trigger] after[i] == (if i < g {
            s[i]
        } else {
            s[i + 1]
        }) by {}
        assert forall|i: int, j: int| 0 <= i < j < after.len() implies (#[trigger] after[i]).key()
            != (#[trigger] after[j]).key() by {
            let a = if i < g { i } else { i + 1 };
            let b = if j < g { j } else { j + 1 };
            assert(s[a].key() != s[b].key());
        }
        match find(s, k) {
            Some(i) => {
                if k == gone {
                    if let Some(x) = find(after, k) {
                        let a = if x < g { x } else { x + 1 };
                        assert(s[a].key() == k);
                        if a < g {
                            assert(s[a].key() != s[g].key());
                        } else {
                            assert(s[g].key() != s[a].key());
                        }
                    }
                } else {
                    let b = if i < g { i } else { i - 1 };
                    assert(after[b] == s[i]);
                    lemma_find_at(after, b);
                }
            },
            None => {
                if let Some(x) = find(after, k) {
                    let a = if x < g { x } else { x + 1 };
                    assert(s[a].key() != k);
                }
            },
        }
    }
}

/// Keys that differ still do after entries changed but for their keys.
pub proof fn lemma_same_keys<T: Keyed>(s: Seq<T>, t: Seq<T>)
    requires
        keys_differ(s),
        s.len() == t.len(),
        forall|i: int| 0 <= i < s.len() ==> (#[trigger] t[i]).key() == s[i].key(),
    ensures
        keys_differ(t),
{
    assert forall|i: int, j: int| 0 <= i < j < t.len() implies (#[trigger] t[i]).key() != (
    #[trigger] t[j]).key() by {
        assert(s[i].key() != s[j].key());
    }
}

/// Finds the entry with a key.
pub fn position<T: Keyed>(v: &Vec<T>, a: &str, b: &str) -> (r: Option<usize>)
    ensures
        match (r, find(v@, (a@, b@))) {
            (Some(x), Some(y)) => x == y && x < v@.len() && v@[x as int].key() == (a@, b@),
            (None, None) => true,
            _ => false,
        },
{
    let ghost k = (a@, b@);
    let mut i: usize = 0;
    proof {
        assert(v@.skip(0) =~= v@);
    }
    while i < v.len()
        invariant
            i <= v@.len(),
            k == (a@, b@),
            find(v@, k) == (match find(v@.skip(i as int), k) {
                Some(x) => Some(x + i),
                None => None,
            }),
        decreases v.len() - i,
    {
        proof {
            assert(v@.skip(i as int).drop_first() =~= v@.skip(i as int + 1));
        }
        if v[i].has_key(a, b) {
            return Some(i);
        }
        i += 1;
    }
    None
}

/// Takes out the entry with a key.
pub fn take_entry<T: Keyed>(v: &mut Vec<T>, a: &str, b: &str) -> (r: Option<T>)
    ensures
        r == lookup(old(v)@, (a@, b@)),
        final(v)@ == without(old(v)@, (a@, b@)),
        r is None ==> *final(v) == *old(v),
        keys_differ(old(v)@) ==> keys_differ(final(v)@),
{
    proof {
        if keys_differ(v@) {
            lemma_without(v@, (a@, b@), (a@, b@));
        }
    }
    match position(v, a, b) {
        Some(i) => Some(v.remove(i)),
        None => None,
    }
}

/// Puts in an entry under a key, which is its own, and gives back the one that
/// it replaces.
pub fn put_entry<T: Keyed>(v: &mut Vec<T>, t: T, a: &str, b: &str) -> (r: Option<T>)
    requires
        t.key() == (a@, b@),
    ensures
        r == lookup(old(v)@, t.key()),
        final(v)@ == with_entry(old(v)@, t),
        keys_differ(old(v)@) ==> keys_differ(final(v)@),
{
    proof {
        if keys_differ(v@) {
            lemma_with_entry(v@, t, t.key());
        }
    }
    match position(v, a, b) {
        Some(i) => {
            let ghost before = v@;
            let ghost new = t;
            v.push(t);
            let old_entry: T = v.swap_remove(i);
            proof {
                assert(v@ =~= before.update(i as int, new));
            }
            Some(old_entry)
        },
        None => {
            v.push(t);
            None
        },
    }
}

// ---- sorting by name ----

/// An entry with a name to sort by.
pub trait Named: Sized {
    spec fn name(&self) -> Seq<char>;

    /// The name.
    fn name_text(&self) -> (r: &str)
        ensures
            r@ == self.name(),
    ;
}

impl Named for String {
    open spec fn name(&self) -> Seq<char> {
        self@
    }

    fn name_text(&self) -> (r: &str) {
        self.as_str()
    }
}

/// No entry stands behind one whose name comes later.
pub open spec fn sorted_by_name<T: Named>(s: Seq<T>) -> bool {
    forall|i: int, j: int|
        0 <= i < j < s.len() ==> !text_before((#[trigger] s[j]).name(), (#[trigger] s[i]).name())
}

/// Whether an entry has a name.
pub open spec fn has_name<T: Named>(name: Seq<char>) -> spec_fn(T) -> bool {
    |t: T| t.name() == name
}

/// The entries with a name, in their order.
pub open spec fn named<T: Named>(s: Seq<T>, name: Seq<char>) -> Seq<T> {
    s.filter(has_name::<T>(name))
}

/// `r` holds the entries of `s` sorted by name; entries with the same name keep
/// their order.
pub open spec fn sorted_from<T: Named>(r: Seq<T>, s: Seq<T>) -> bool {
    &&& sorted_by_name(r)
    &&& r.to_multiset() == s.to_multiset()
    &&& forall|name: Seq<char>| #[trigger] named(r, name) == named(s, name)
}

proof fn lemma_named_with<T: Named>(s: Seq<T>, t: T, name: Seq<char>)
    ensures
        named(s.push(t), name) == if t.name() == name {
            named(s, name).push(t)
        } else {
            named(s, name)
        },
{
    reveal(Seq::filter);
    assert(s.push(t).drop_last() =~= s);
}

proof fn lemma_named_inserted<T: Named>(s: Seq<T>, at: int, t: T, name: Seq<char>)
    requires
        0 <= at <= s.len(),
        forall|i: int| 0 <= i < at ==> (#[trigger] s[i]).name() != t.name(),
    ensures
        named(s.insert(at, t), name) == named(seq![t] + s, name),
{
    let is_named = has_name::<T>(name);
    let one = seq![t];
    let (a, b) = (s.take(at), s.skip(at));
    assert(s =~= a + b);
    assert(s.insert(at, t) =~= a + (one + b));
    Seq::filter_distributes_over_add(a, one + b, is_named);
    Seq::filter_distributes_over_add(one, b, is_named);
    Seq::filter_distributes_over_add(one, s, is_named);
    Seq::filter_distributes_over_add(a, b, is_named);
    lemma_named_with(Seq::<T>::empty(), t, name);
    assert(one =~= Seq::<T>::empty().push(t));
    assert(Seq::<T>::empty().filter(is_named) =~= Seq::empty()) by {
        reveal(Seq::filter);
    }
    if t.name() == name {
        assert(a.filter(is_named).len() == 0) by {
            broadcast use Seq::lemma_filter_pred;

            let f = a.filter(is_named);
            if f.len() > 0 {
                lemma_filtered_stands(a, is_named);
                assert(is_named(f[0]));
            }
        }
        assert(a.filter(is_named) =~= Seq::empty());
        assert(named(s.insert(at, t), name) =~= one.filter(is_named) + b.filter(is_named));
        assert(named(one + s, name) =~= one.filter(is_named) + b.filter(is_named));
    } else {
        assert(one.filter(is_named) =~= Seq::empty());
        assert(named(s.insert(at, t), name) =~= a.filter(is_named) + b.filter(is_named));
        assert(named(one + s, name) =~= a.filter(is_named) + b.filter(is_named));
    }
}

proof fn lemma_filtered_stands<T>(s: Seq<T>, pred: spec_fn(T) -> bool)
    requires
        s.filter(pred).len() > 0,
    ensures
        exists|i: int| 0 <= i < s.len() && pred(#[trigger] s[i]),
    decreases s.len(),
{
    reveal(Seq::filter);
    if s.len() > 0 {
        if pred(s.last()) {
            assert(pred(s[s.len() - 1]));
        } else {
            lemma_filtered_stands(s.drop_last(), pred);
            let i = choose|i: int| 0 <= i < s.drop_last().len() && pred(#[trigger] s.drop_last()[i]);
            assert(pred(s[i]));
        }
    }
}

proof fn lemma_not_before_transitive(a: Seq<char>, b: Seq<char>, c: Seq<char>)
    requires
        !text_before(b, a),
        !text_before(c, b),
    ensures
        !text_before(c, a),
{
    lemma_text_before_total(a, b);
    lemma_text_before_total(b, c);
    if text_before(c, a) {
        lemma_text_before_asymmetric(c, a);
        if text_before(a, b) && text_before(b, c) {
            lemma_text_before_transitive(a, b, c);
        }
    }
}

fn insert_by_name<T: Named>(v: &mut Vec<T>, t: T)
    requires
        sorted_by_name(old(v)@),
    ensures
        sorted_from(final(v)@, seq![t] + old(v)@),
{
    let ghost all = v@;
    let mut at: usize = 0;
    while at < v.len() && is_before(v[at].name_text(), t.name_text())
        invariant
            at <= v@.len(),
            v@ == all,
            forall|i: int| 0 <= i < at ==> text_before((#[trigger] all[i]).name(), t.name()),
        decreases v.len() - at,
    {
        at += 1;
    }
    v.insert(at, t);
    proof {
        let out = v@;
        assert(out =~= all.insert(at as int, t));
        assert forall|i: int, j: int| 0 <= i < j < out.len() implies !text_before(
            (#[trigger] out[j]).name(),
            (#[trigger] out[i]).name(),
        ) by {
            let a = if i < at { i } else { i - 1 };
            let b = if j < at { j } else { j - 1 };
            if j == at {
                assert(out[i] == all[a]);
                lemma_text_before_asymmetric(all[a].name(), t.name());
            } else if i == at {
                assert(out[j] == all[b]);
                if b > at {
                    assert(!text_before(all[b].name(), all[at as int].name()));
                    lemma_not_before_transitive(
                        t.name(),
                        all[at as int].name(),
                        all[b].name(),
                    );
                }
            } else {
                assert(out[i] == all[a] && out[j] == all[b]);
            }
        }
        vstd::seq_lib::to_multiset_insert(all, at as int, t);
        vstd::seq_lib::to_multiset_insert(all, 0, t);
        assert(seq![t] + all =~= all.insert(0, t));
        assert forall|i: int| 0 <= i < at implies (#[trigger] all[i]).name() != t.name() by {
            lemma_text_before_asymmetric(all[i].name(), t.name());
        }
        assert forall|name: Seq<char>| #[trigger] named(out, name) == named(seq![t] + all, name) by {
            lemma_named_inserted(all, at as int, t, name);
        }
    }
}

/// Sorts entries by name; those with the same name keep their order.
pub fn sort_by_name<T: Named>(v: Vec<T>) -> (r: Vec<T>)
    ensures
        sorted_from(r@, v@),
{
    let ghost all = v@;
    let mut rest: Vec<T> = v;
    let mut out: Vec<T> = Vec::new();
    proof {
        assert(all.skip(all.len() as int) =~= out@);
        assert(rest@ =~= all.take(rest@.len() as int));
    }
    while rest.len() > 0
        invariant
            rest@.len() <= all.len(),
            rest@ == all.take(rest@.len() as int),
            sorted_from(out@, all.skip(rest@.len() as int)),
        decreases rest.len(),
    {
        let ghost n = rest@.len() as int;
        let ghost held = out@;
        match rest.pop() {
            Some(t) => {
                insert_by_name(&mut out, t);
                proof {
                    assert(rest@ =~= all.take(n - 1));
                    assert(t == all[n - 1]);
                    let later = all.skip(n);
                    let one = seq![t];
                    assert(all.skip(n - 1) =~= one + later);
                    vstd::seq_lib::to_multiset_insert(later, 0, t);
                    vstd::seq_lib::to_multiset_insert(held, 0, t);
                    assert(one + later =~= later.insert(0, t));
                    assert(one + held =~= held.insert(0, t));
                    assert forall|name: Seq<char>| #[trigger]
                        named(out@, name) == named(one + later, name) by {
                        let is_named = has_name::<T>(name);
                        Seq::filter_distributes_over_add(one, later, is_named);
                        Seq::filter_distributes_over_add(one, held, is_named);
                        assert(named(held, name) == named(later, name));
                        assert(named(out@, name) == named(one + held, name));
                    }
                }
            },
            None => {},
        }
    }
    proof {
        assert(all.skip(0) =~= all);
    }
    out
}

/// There is one way to sort entries by name with those of the same name in
/// their order.
pub proof fn law_sorted_order_is_one<T: Named>(a: Seq<T>, b: Seq<T>, s: Seq<T>)
    requires
        sorted_from(a, s),
        sorted_from(b, s),
    ensures
        a == b,
{
    assert forall|name: Seq<char>| #[trigger] named(a, name) == named(b, name) by {
        assert(named(a, name) == named(s, name));
        assert(named(b, name) == named(s, name));
    }
    lemma_sorted_the_same(a, b);
}

proof fn lemma_sorted_the_same<T: Named>(a: Seq<T>, b: Seq<T>)
    requires
        sorted_by_name(a),
        sorted_by_name(b),
        forall|name: Seq<char>| #[trigger] named(a, name) == named(b, name),
    ensures
        a == b,
    decreases a.len(),
{
    if a.len() == 0 {
        if b.len() > 0 {
            lemma_named_last(b);
            assert(named(a, b.last().name()).len() == 0) by {
                reveal(Seq::filter);
            }
        }
        assert(a =~= b);
    } else {
        lemma_named_last(a);
        let x = a.last();
        assert(named(b, x.name()) == named(a, x.name()));
        assert(b.len() > 0) by {
            if b.len() == 0 {
                assert(named(b, x.name()).len() == 0) by {
                    reveal(Seq::filter);
                }
            }
        }
        lemma_named_last(b);
        let y = b.last();
        assert(named(a, y.name()) == named(b, y.name()));
        lemma_last_is_greatest(a, y.name());
        lemma_last_is_greatest(b, x.name());
        lemma_text_before_total(x.name(), y.name());
        assert(x.name() == y.name());
        assert(x == y);
        assert(a =~= a.drop_last().push(x));
        assert(b =~= b.drop_last().push(y));
        assert forall|name: Seq<char>| #[trigger]
            named(a.drop_last(), name) == named(b.drop_last(), name) by {
            lemma_named_with(a.drop_last(), x, name);
            lemma_named_with(b.drop_last(), x, name);
            assert(named(a, name) == named(b, name));
            if x.name() == name {
                assert(named(a.drop_last(), name) =~= named(a, name).drop_last());
                assert(named(b.drop_last(), name) =~= named(b, name).drop_last());
            }
        }
        lemma_sorted_the_same(a.drop_last(), b.drop_last());
    }
}

proof fn lemma_named_last<T: Named>(s: Seq<T>)
    requires
        s.len() > 0,
    ensures
        named(s, s.last().name()).len() > 0,
        named(s, s.last().name()).last() == s.last(),
{
    assert(s =~= s.drop_last().push(s.last()));
    lemma_named_with(s.drop_last(), s.last(), s.last().name());
}

proof fn lemma_last_is_greatest<T: Named>(s: Seq<T>, name: Seq<char>)
    requires
        sorted_by_name(s),
        s.len() > 0,
        named(s, name).len() > 0,
    ensures
        !text_before(s.last().name(), name),
{
    let is_named = has_name::<T>(name);
    lemma_filtered_stands(s, is_named);
    let i = choose|i: int| 0 <= i < s.len() && is_named(#[trigger] s[i]);
    if i == s.len() - 1 {
        if text_before(name, name) {
            lemma_text_before_asymmetric(name, name);
        }
    } else {
        assert(!text_before(s[s.len() - 1].name(), s[i].name()));
    }
}

} // verus!
