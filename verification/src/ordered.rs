//! A map kept in ascending key order.

use crate::text::{lemma_lt_irreflexive, lemma_lt_total, lemma_lt_transitive, str_compare, str_lt};
use vstd::prelude::*;

verus! {

/// How one key stands to another.
#[derive(Debug, Clone, Copy, PartialEq, Eq)]
pub enum Order {
    Less,
    Equal,
    Greater,
}

/// A key type with a strict total order on its view.
pub trait Key: View + Sized {
    /// `a` comes strictly before `b`.
    spec fn lt(a: Self::V, b: Self::V) -> bool;

    /// No key comes before itself.
    proof fn lemma_irreflexive(a: Self::V)
        ensures
            !Self::lt(a, a),
    ;

    /// The order is transitive.
    proof fn lemma_transitive(a: Self::V, b: Self::V, c: Self::V)
        requires
            Self::lt(a, b),
            Self::lt(b, c),
        ensures
            Self::lt(a, c),
    ;

    /// Of two keys that differ, one comes before the other.
    proof fn lemma_total(a: Self::V, b: Self::V)
        ensures
            Self::lt(a, b) || a == b || Self::lt(b, a),
    ;

    /// Compares two keys by their views.
    fn compare(&self, other: &Self) -> (o: Order)
        ensures
            match o {
                Order::Less => Self::lt(self@, other@),
                Order::Equal => self@ == other@,
                Order::Greater => Self::lt(other@, self@),
            },
    ;
}

/// Strings are keys in the order in which std compares them.
impl Key for String {
    open spec fn lt(a: Seq<char>, b: Seq<char>) -> bool {
        str_lt(a, b)
    }

    proof fn lemma_irreflexive(a: Seq<char>) {
        lemma_lt_irreflexive(a, 0);
    }

    proof fn lemma_transitive(a: Seq<char>, b: Seq<char>, c: Seq<char>) {
        lemma_lt_transitive(a, b, c, 0);
    }

    proof fn lemma_total(a: Seq<char>, b: Seq<char>) {
        lemma_lt_total(a, b, 0);
        assert(a.skip(0) =~= a);
        assert(b.skip(0) =~= b);
    }

    fn compare(&self, other: &Self) -> (o: Order) {
        str_compare(self.as_str(), other.as_str())
    }
}

/// The keys of `s` ascend strictly: no key occurs twice.
pub open spec fn sorted<K: Key, W>(s: Seq<(K::V, W)>) -> bool {
    forall|i: int, j: int| 0 <= i < j < s.len() ==> K::lt(#[trigger] s[i].0, #[trigger] s[j].0)
}

/// The first index at or after `i` whose key does not come before `k`.
pub open spec fn slot_from<K: Key, W>(s: Seq<(K::V, W)>, k: K::V, i: int) -> int
    decreases s.len() - i,
{
    if i < 0 || i >= s.len() || !K::lt(s[i].0, k) {
        i
    } else {
        slot_from::<K, W>(s, k, i + 1)
    }
}

/// Where `k` belongs in `s`: the number of leading entries whose key comes
/// before `k`.
pub open spec fn slot<K: Key, W>(s: Seq<(K::V, W)>, k: K::V) -> int {
    slot_from::<K, W>(s, k, 0)
}

/// `s` with `k` bound to `w`: an entry with key `k` is replaced where it
/// stands, a new key goes in where it belongs.
pub open spec fn insert_entry<K: Key, W>(s: Seq<(K::V, W)>, k: K::V, w: W) -> Seq<(K::V, W)> {
    let i = slot::<K, W>(s, k);
    if i < s.len() && s[i].0 == k {
        s.update(i, (k, w))
    } else {
        s.insert(i, (k, w))
    }
}

/// The value of the first entry of `s` at or after `i` whose key is `k`.
pub open spec fn lookup_from<KV, W>(s: Seq<(KV, W)>, k: KV, i: int) -> Option<W>
    decreases s.len() - i,
{
    if i < 0 || i >= s.len() {
        None
    } else if s[i].0 == k {
        Some(s[i].1)
    } else {
        lookup_from(s, k, i + 1)
    }
}

/// What `k` is bound to in `s`.
pub open spec fn lookup<KV, W>(s: Seq<(KV, W)>, k: KV) -> Option<W> {
    lookup_from(s, k, 0)
}

/// The slot from `i` on lies at or after `i`; every key between `i` and
/// the slot comes before `k`, and the key at the slot does not.
pub proof fn lemma_slot_bounds<K: Key, W>(s: Seq<(K::V, W)>, k: K::V, i: int)
    requires
        0 <= i <= s.len(),
    ensures
        i <= slot_from::<K, W>(s, k, i) <= s.len(),
        forall|j: int| i <= j < slot_from::<K, W>(s, k, i) ==> K::lt(#[trigger] s[j].0, k),
        slot_from::<K, W>(s, k, i) < s.len() ==> !K::lt(s[slot_from::<K, W>(s, k, i)].0, k),
    decreases s.len() - i,
{
    if i < s.len() && K::lt(s[i].0, k) {
        lemma_slot_bounds::<K, W>(s, k, i + 1);
    }
}

/// Binding a key in a map whose keys ascend leaves them ascending.
pub proof fn lemma_insert_sorted<K: Key, W>(s: Seq<(K::V, W)>, k: K::V, w: W)
    requires
        sorted::<K, W>(s),
    ensures
        sorted::<K, W>(insert_entry::<K, W>(s, k, w)),
{
    let i = slot::<K, W>(s, k);
    let t = insert_entry::<K, W>(s, k, w);
    lemma_slot_bounds::<K, W>(s, k, 0);
    if i < s.len() && s[i].0 == k {
        assert forall|a: int, b: int| 0 <= a < b < t.len() implies K::lt(
            #[trigger] t[a].0,
            #[trigger] t[b].0,
        ) by {
            assert(K::lt(s[a].0, s[b].0));
        }
    } else {
        assert forall|a: int, b: int| 0 <= a < b < t.len() implies K::lt(
            #[trigger] t[a].0,
            #[trigger] t[b].0,
        ) by {
            if b < i {
                assert(K::lt(s[a].0, s[b].0));
            } else if b == i {
                assert(K::lt(s[a].0, k));
            } else if a == i {
                // k comes before the key that stood at its slot, and so
                // before every later one
                K::lemma_total(s[i].0, k);
                if b - 1 > i {
                    assert(K::lt(s[i].0, s[b - 1].0));
                    K::lemma_transitive(k, s[i].0, s[b - 1].0);
                }
            } else if a < i {
                assert(K::lt(s[a].0, k));
                K::lemma_total(s[i].0, k);
                if b - 1 > i {
                    assert(K::lt(s[i].0, s[b - 1].0));
                    K::lemma_transitive(k, s[i].0, s[b - 1].0);
                }
                K::lemma_transitive(s[a].0, k, s[b - 1].0);
            } else {
                assert(K::lt(s[a - 1].0, s[b - 1].0));
            }
        }
    }
}

proof fn lemma_lookup_first<KV, W>(s: Seq<(KV, W)>, k: KV, i: int, j: int)
    requires
        0 <= i <= j < s.len(),
        s[j].0 == k,
        forall|m: int| i <= m < j ==> (#[trigger] s[m]).0 != k,
    ensures
        lookup_from(s, k, i) == Some(s[j].1),
    decreases j - i,
{
    if i < j {
        lemma_lookup_first(s, k, i + 1, j);
    }
}

proof fn lemma_lookup_updated<KV, W>(s: Seq<(KV, W)>, p: int, k: KV, w: W, other: KV, i: int)
    requires
        0 <= p < s.len(),
        s[p].0 == k,
        other != k,
        0 <= i,
    ensures
        lookup_from(s.update(p, (k, w)), other, i) == lookup_from(s, other, i),
    decreases s.len() - i,
{
    if i < s.len() {
        lemma_lookup_updated(s, p, k, w, other, i + 1);
    }
}

proof fn lemma_lookup_shifted<KV, W>(s: Seq<(KV, W)>, p: int, k: KV, w: W, other: KV, i: int)
    requires
        0 <= p <= s.len(),
        other != k,
        0 <= i,
    ensures
        i <= p ==> lookup_from(s.insert(p, (k, w)), other, i) == lookup_from(s, other, i),
        i >= p ==> lookup_from(s.insert(p, (k, w)), other, i + 1) == lookup_from(s, other, i),
    decreases s.len() - i,
{
    let t = s.insert(p, (k, w));
    if i < s.len() {
        lemma_lookup_shifted(s, p, k, w, other, i + 1);
        if i >= p {
            assert(t[i + 1] == s[i]);
        }
        if i < p {
            assert(t[i] == s[i]);
        }
    }
    if i == p {
        assert(t[p] == (k, w));
    }
}

/// A key that has been bound is bound to the value given last.
pub proof fn lemma_lookup_inserted<K: Key, W>(s: Seq<(K::V, W)>, k: K::V, w: W)
    ensures
        lookup(insert_entry::<K, W>(s, k, w), k) == Some(w),
{
    let p = slot::<K, W>(s, k);
    let t = insert_entry::<K, W>(s, k, w);
    lemma_slot_bounds::<K, W>(s, k, 0);
    K::lemma_irreflexive(k);
    assert(t[p] == (k, w));
    assert forall|m: int| 0 <= m < p implies (#[trigger] t[m]).0 != k by {
        assert(t[m] == s[m]);
        assert(K::lt(s[m].0, k));
    }
    lemma_lookup_first(t, k, 0, p);
}

/// Binding a key leaves what every other key is bound to as it was.
pub proof fn lemma_lookup_other<K: Key, W>(s: Seq<(K::V, W)>, k: K::V, w: W, other: K::V)
    requires
        other != k,
    ensures
        lookup(insert_entry::<K, W>(s, k, w), other) == lookup(s, other),
{
    let p = slot::<K, W>(s, k);
    lemma_slot_bounds::<K, W>(s, k, 0);
    if p < s.len() && s[p].0 == k {
        lemma_lookup_updated(s, p, k, w, other, 0);
    } else {
        lemma_lookup_shifted(s, p, k, w, other, 0);
    }
}

/// A map from keys to values that holds its entries in ascending key order.
#[derive(Debug)]
pub struct OrderedMap<K: Key, V: View> {
    entries: Vec<(K, V)>,
}

impl<K: Key, V: View> View for OrderedMap<K, V> {
    type V = Seq<(K::V, V::V)>;

    closed spec fn view(&self) -> Seq<(K::V, V::V)> {
        self.entries@.map_values(|e: (K, V)| (e.0@, e.1@))
    }
}

impl<K: Key, V: View> OrderedMap<K, V> {
    #[verifier::type_invariant]
    spec fn ascending(self) -> bool {
        sorted::<K, V::V>(self@)
    }

    /// An empty map.
    pub fn new() -> (m: Self)
        ensures
            m@ == Seq::<(K::V, V::V)>::empty(),
    {
        let m = OrderedMap { entries: Vec::new() };
        assert(m@ =~= Seq::<(K::V, V::V)>::empty());
        m
    }

    /// The number of entries.
    pub fn len(&self) -> (n: usize)
        ensures
            n == self@.len(),
    {
        self.entries.len()
    }

    /// The keys of every map ascend strictly.
    pub fn ordered(&self)
        ensures
            sorted::<K, V::V>(self@),
    {
        proof {
            use_type_invariant(self);
        }
    }

    /// The key of the entry at index `i`.
    pub fn key_at(&self, i: usize) -> (k: &K)
        requires
            i < self@.len(),
        ensures
            k@ == self@[i as int].0,
    {
        &self.entries[i].0
    }

    /// The value of the entry at index `i`.
    pub fn value_at(&self, i: usize) -> (v: &V)
        requires
            i < self@.len(),
        ensures
            v@ == self@[i as int].1,
    {
        &self.entries[i].1
    }

    /// The value bound to `k`, if there is one.
    pub fn get(&self, k: &K) -> (r: Option<&V>)
        ensures
            match r {
                Some(v) => lookup(self@, k@) == Some(v@),
                None => lookup(self@, k@) is None,
            },
    {
        let mut i: usize = 0;
        while i < self.entries.len()
            invariant
                i <= self.entries.len(),
                lookup(self@, k@) == lookup_from(self@, k@, i as int),
            decreases self.entries.len() - i,
        {
            match k.compare(&self.entries[i].0) {
                Order::Equal => {
                    return Some(&self.entries[i].1);
                },
                Order::Less => {
                    proof {
                        K::lemma_irreflexive(k@);
                    }
                },
                Order::Greater => {
                    proof {
                        K::lemma_irreflexive(k@);
                    }
                },
            }
            i += 1;
        }
        None
    }

    /// Binds `k` to `v`. A value that `k` was bound to before is replaced.
    pub fn insert(&mut self, k: K, v: V)
        ensures
            final(self)@ == insert_entry::<K, V::V>(old(self)@, k@, v@),
    {
        proof {
            use_type_invariant(&*self);
        }
        let ghost before = self@;
        let mut i: usize = 0;
        let mut found = false;
        while i < self.entries.len()
            invariant_except_break
                !found,
            invariant
                i <= self.entries.len(),
                self@ == before,
                slot::<K, V::V>(before, k@) == slot_from::<K, V::V>(before, k@, i as int),
            ensures
                i <= self.entries.len(),
                i == slot::<K, V::V>(before, k@),
                found == (i < before.len() && before[i as int].0 == k@),
            decreases self.entries.len() - i,
        {
            match k.compare(&self.entries[i].0) {
                Order::Greater => {
                    i += 1;
                },
                Order::Equal => {
                    proof {
                        K::lemma_irreflexive(k@);
                    }
                    found = true;
                    break ;
                },
                Order::Less => {
                    proof {
                        K::lemma_irreflexive(k@);
                        if K::lt(before[i as int].0, k@) {
                            K::lemma_transitive(k@, before[i as int].0, k@);
                        }
                    }
                    break ;
                },
            }
        }
        proof {
            lemma_insert_sorted::<K, V::V>(before, k@, v@);
        }
        let mut entries = Vec::new();
        std::mem::swap(&mut entries, &mut self.entries);
        if found {
            entries.set(i, (k, v));
        } else {
            entries.insert(i, (k, v));
        }
        let ghost after = entries@.map_values(|e: (K, V)| (e.0@, e.1@));
        assert(after =~= insert_entry::<K, V::V>(before, k@, v@));
        self.entries = entries;
    }
}

} // verus!
