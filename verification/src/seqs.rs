//! Searching and filtering of identifier lists.

use vstd::prelude::*;
use vstd::set_lib::lemma_set_disjoint_lens;

verus! {

/// `s` without the members of `r`; what is left keeps its order.
pub open spec fn without(s: Seq<u64>, r: Seq<u64>) -> Seq<u64>
    decreases s.len(),
{
    if s.len() == 0 {
        s
    } else if r.contains(s.last()) {
        without(s.drop_last(), r)
    } else {
        without(s.drop_last(), r).push(s.last())
    }
}

/// Whether some member of `items` occurs in `pool`.
pub open spec fn some_in(items: Seq<u64>, pool: Seq<u64>) -> bool {
    exists|i: int| 0 <= i < items.len() && pool.contains(#[trigger] items[i])
}

/// Whether some member of `items` is missing from `pool`.
pub open spec fn some_outside(items: Seq<u64>, pool: Seq<u64>) -> bool {
    exists|i: int| 0 <= i < items.len() && !pool.contains(#[trigger] items[i])
}

/// `without(s, r)` holds exactly the members of `s` that `r` does not name.
pub proof fn lemma_without_contains(s: Seq<u64>, r: Seq<u64>, x: u64)
    ensures
        without(s, r).contains(x) <==> s.contains(x) && !r.contains(x),
    decreases s.len(),
{
    if s.len() > 0 {
        let rest = s.drop_last();
        lemma_without_contains(rest, r, x);
        let w = without(rest, r);
        if s.contains(x) {
            let i = choose|i: int| 0 <= i < s.len() && s[i] == x;
            if i < s.len() - 1 {
                assert(rest[i] == x);
            }
        }
        if rest.contains(x) {
            let i = choose|i: int| 0 <= i < rest.len() && rest[i] == x;
            assert(s[i] == x);
        }
        if !r.contains(s.last()) {
            let p = w.push(s.last());
            assert(p[w.len() as int] == s.last());
            if w.contains(x) {
                let i = choose|i: int| 0 <= i < w.len() && w[i] == x;
                assert(p[i] == x);
            }
            assert(s[s.len() - 1] == s.last());
        }
    }
}

/// Taking members away does not make a list repeat itself.
pub proof fn lemma_without_no_duplicates(s: Seq<u64>, r: Seq<u64>)
    requires
        s.no_duplicates(),
    ensures
        without(s, r).no_duplicates(),
    decreases s.len(),
{
    if s.len() > 0 {
        let rest = s.drop_last();
        lemma_without_no_duplicates(rest, r);
        lemma_without_contains(rest, r, s.last());
        if rest.contains(s.last()) {
            let i = choose|i: int| 0 <= i < rest.len() && rest[i] == s.last();
            assert(s[i] == s[s.len() - 1]);
        }
    }
}

/// Where `r` names members of `s`, each once, `without(s, r)` is shorter
/// than `s` by the length of `r`.
pub proof fn lemma_without_len(s: Seq<u64>, r: Seq<u64>)
    requires
        s.no_duplicates(),
        r.no_duplicates(),
        !some_outside(r, s),
    ensures
        without(s, r).len() + r.len() == s.len(),
{
    let w = without(s, r);
    lemma_without_no_duplicates(s, r);
    s.unique_seq_to_set();
    r.unique_seq_to_set();
    w.unique_seq_to_set();
    assert(w.to_set().disjoint(r.to_set())) by {
        assert forall|x: u64| !(w.to_set().contains(x) && r.to_set().contains(x)) by {
            lemma_without_contains(s, r, x);
        }
    }
    assert(w.to_set() + r.to_set() =~= s.to_set()) by {
        assert forall|x: u64|
            (w.to_set().contains(x) || r.to_set().contains(x)) <==> s.to_set().contains(x) by {
            lemma_without_contains(s, r, x);
            if r.contains(x) {
                let i = choose|i: int| 0 <= i < r.len() && r[i] == x;
                assert(s.contains(r[i]));
            }
        }
    }
    lemma_set_disjoint_lens(w.to_set(), r.to_set());
}

/// What `s.push(x)` holds, and when it repeats nothing.
pub proof fn lemma_push(s: Seq<u64>, x: u64, y: u64)
    ensures
        s.push(x).contains(y) <==> s.contains(y) || x == y,
        s.no_duplicates() && !s.contains(x) ==> s.push(x).no_duplicates(),
{
    let p = s.push(x);
    assert(p[s.len() as int] == x);
    if s.contains(y) {
        let i = choose|i: int| 0 <= i < s.len() && s[i] == y;
        assert(p[i] == y);
    }
    if p.contains(y) {
        let i = choose|i: int| 0 <= i < p.len() && p[i] == y;
        if i < s.len() {
            assert(s[i] == y);
        }
    }
    if s.no_duplicates() && !s.contains(x) {
        assert forall|i: int, j: int| 0 <= i < p.len() && 0 <= j < p.len() && i != j implies p[i]
            != p[j] by {
            if i < s.len() && j < s.len() {
                assert(s[i] != s[j]);
            } else if i < s.len() {
                assert(s.contains(s[i]));
            } else {
                assert(s.contains(s[j]));
            }
        }
    }
}

/// What `a + b` holds, and when it repeats nothing.
pub proof fn lemma_concat(a: Seq<u64>, b: Seq<u64>, y: u64)
    ensures
        (a + b).contains(y) <==> a.contains(y) || b.contains(y),
        a.no_duplicates() && b.no_duplicates() && !some_in(b, a) ==> (a + b).no_duplicates(),
{
    let c = a + b;
    if a.contains(y) {
        let i = choose|i: int| 0 <= i < a.len() && a[i] == y;
        assert(c[i] == y);
    }
    if b.contains(y) {
        let i = choose|i: int| 0 <= i < b.len() && b[i] == y;
        assert(c[a.len() + i] == y);
    }
    if c.contains(y) {
        let i = choose|i: int| 0 <= i < c.len() && c[i] == y;
        if i < a.len() {
            assert(a[i] == y);
        } else {
            assert(b[i - a.len()] == y);
        }
    }
    if a.no_duplicates() && b.no_duplicates() && !some_in(b, a) {
        assert forall|i: int, j: int| 0 <= i < c.len() && 0 <= j < c.len() && i != j implies c[i]
            != c[j] by {
            if i < a.len() && j < a.len() {
                assert(a[i] != a[j]);
            } else if i >= a.len() && j >= a.len() {
                assert(b[i - a.len()] != b[j - a.len()]);
            } else if i < a.len() {
                assert(a.contains(a[i]));
                assert(!a.contains(b[j - a.len()]));
            } else {
                assert(a.contains(a[j]));
                assert(!a.contains(b[i - a.len()]));
            }
        }
    }
}

/// The first `i + 1` members of `s` are its first `i` and `s[i]`.
pub proof fn lemma_take_next(s: Seq<u64>, i: int, x: u64)
    requires
        0 <= i < s.len(),
    ensures
        s.take(i + 1).contains(x) <==> s.take(i).contains(x) || s[i] == x,
        s.no_duplicates() ==> !s.take(i).contains(s[i]),
{
    let short = s.take(i);
    let long = s.take(i + 1);
    if short.contains(x) {
        let j = choose|j: int| 0 <= j < short.len() && short[j] == x;
        assert(long[j] == x);
    }
    if s[i] == x {
        assert(long[i] == x);
    }
    if long.contains(x) {
        let j = choose|j: int| 0 <= j < long.len() && long[j] == x;
        if j < i {
            assert(short[j] == x);
        }
    }
    if s.no_duplicates() && short.contains(s[i]) {
        let j = choose|j: int| 0 <= j < short.len() && short[j] == s[i];
        assert(s[j] == s[i]);
    }
}

/// Whether `x` occurs in `v`.
pub fn contains(v: &Vec<u64>, x: u64) -> (found: bool)
    ensures
        found == v@.contains(x),
{
    let mut i: usize = 0;
    while i < v.len()
        invariant
            i <= v.len(),
            forall|j: int| 0 <= j < i ==> v@[j] != x,
        decreases v.len() - i,
    {
        if v[i] == x {
            return true;
        }
        i += 1;
    }
    false
}

/// Whether some value occurs twice in `v`.
pub fn has_duplicates(v: &Vec<u64>) -> (found: bool)
    ensures
        found == !v@.no_duplicates(),
{
    let mut i: usize = 0;
    while i < v.len()
        invariant
            i <= v.len(),
            forall|a: int, b: int| 0 <= a < b < i ==> v@[a] != v@[b],
        decreases v.len() - i,
    {
        let mut j: usize = 0;
        while j < i
            invariant
                j <= i < v.len(),
                forall|a: int| 0 <= a < j ==> v@[a] != v@[i as int],
            decreases i - j,
        {
            if v[j] == v[i] {
                return true;
            }
            j += 1;
        }
        i += 1;
    }
    assert forall|a: int, b: int| 0 <= a < v@.len() && 0 <= b < v@.len() && a != b implies v@[a]
        != v@[b] by {
        if a < b {
            assert(v@[a] != v@[b]);
        } else {
            assert(v@[b] != v@[a]);
        }
    }
    false
}

/// Whether some member of `items` occurs in `pool`.
pub fn any_in(items: &Vec<u64>, pool: &Vec<u64>) -> (found: bool)
    ensures
        found == some_in(items@, pool@),
{
    let mut i: usize = 0;
    while i < items.len()
        invariant
            i <= items.len(),
            forall|j: int| 0 <= j < i ==> !pool@.contains(#[trigger] items@[j]),
        decreases items.len() - i,
    {
        if contains(pool, items[i]) {
            return true;
        }
        i += 1;
    }
    false
}

/// Whether some member of `items` is missing from `pool`.
pub fn any_outside(items: &Vec<u64>, pool: &Vec<u64>) -> (found: bool)
    ensures
        found == some_outside(items@, pool@),
{
    let mut i: usize = 0;
    while i < items.len()
        invariant
            i <= items.len(),
            forall|j: int| 0 <= j < i ==> pool@.contains(#[trigger] items@[j]),
        decreases items.len() - i,
    {
        if !contains(pool, items[i]) {
            return true;
        }
        i += 1;
    }
    false
}

/// `v` without the members of `r`, in the order of `v`.
pub fn remove_all(v: &Vec<u64>, r: &Vec<u64>) -> (kept: Vec<u64>)
    ensures
        kept@ == without(v@, r@),
{
    let mut kept: Vec<u64> = Vec::new();
    let mut i: usize = 0;
    while i < v.len()
        invariant
            i <= v.len(),
            kept@ == without(v@.take(i as int), r@),
        decreases v.len() - i,
    {
        proof {
            let next = v@.take(i + 1);
            assert(next.drop_last() =~= v@.take(i as int));
            assert(next.last() == v@[i as int]);
        }
        if !contains(r, v[i]) {
            kept.push(v[i]);
        }
        i += 1;
    }
    assert(v@.take(v.len() as int) =~= v@);
    kept
}

/// Appends the members of `more` to `v`.
pub fn append(v: &mut Vec<u64>, more: &Vec<u64>)
    ensures
        final(v)@ == old(v)@ + more@,
{
    let mut i: usize = 0;
    while i < more.len()
        invariant
            i <= more.len(),
            v@ == old(v)@ + more@.take(i as int),
        decreases more.len() - i,
    {
        v.push(more[i]);
        assert(v@ =~= old(v)@ + more@.take(i + 1));
        i += 1;
    }
    assert(more@.take(more.len() as int) =~= more@);
}

} // verus!
