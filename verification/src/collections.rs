//! Ordered containers over `Vec`: a map and a set whose keys are kept in
//! ascending rank, so that walking them is deterministic.
use vstd::prelude::*;

verus! {

/// A key with a total order, given by an integer rank.
pub trait MapKey: Sized {
    spec fn rank(self) -> int;

    proof fn rank_injective(a: Self, b: Self)
        requires
            a.rank() == b.rank(),
        ensures
            a == b,
    ;

    fn before(&self, other: &Self) -> (r: bool)
        ensures
            r == (self.rank() < other.rank()),
    ;
}

/// Strictly ascending by rank, hence without repetition.
pub open spec fn ascending<K: MapKey>(keys: Seq<K>) -> bool {
    forall|i: int, j: int|
        0 <= i < j < keys.len() ==> (#[trigger] keys[i]).rank() < (#[trigger] keys[j]).rank()
}

/// The members of `s` in ascending rank. Meaningful for a finite set.
pub open spec fn in_rank_order<K: MapKey>(s: Set<K>) -> Seq<K> {
    choose|q: Seq<K>| #[trigger] ascending(q) && q.to_set() == s
}

/// There is only one way to list a set in ascending rank.
pub proof fn ascending_unique<K: MapKey>(a: Seq<K>, b: Seq<K>)
    requires
        ascending(a),
        ascending(b),
        a.to_set() == b.to_set(),
    ensures
        a == b,
    decreases a.len(),
{
    if a.len() == 0 {
        if b.len() > 0 {
            assert(b.to_set().contains(b[0]));
            assert(a.to_set().contains(b[0]));
        }
        assert(a =~= b);
    } else {
        assert(a.to_set().contains(a.last()));
        assert(b.to_set().contains(a.last()));
        let j = choose|j: int| 0 <= j < b.len() && b[j] == a.last();
        assert(b.to_set().contains(b.last()));
        assert(a.to_set().contains(b.last()));
        let i = choose|i: int| 0 <= i < a.len() && a[i] == b.last();
        assert(a[i].rank() <= a.last().rank());
        assert(b[j].rank() <= b.last().rank());
        K::rank_injective(a.last(), b.last());
        let a1 = a.drop_last();
        let b1 = b.drop_last();
        assert forall|k: K| a1.to_set().contains(k) <==> b1.to_set().contains(k) by {
            if a1.to_set().contains(k) {
                let p = choose|p: int| 0 <= p < a1.len() && a1[p] == k;
                assert(a[p] == k && a[p].rank() < a.last().rank());
                assert(a.to_set().contains(k));
                assert(b.to_set().contains(k));
                let q = choose|q: int| 0 <= q < b.len() && b[q] == k;
                assert(b1[q] == k);
            }
            if b1.to_set().contains(k) {
                let p = choose|p: int| 0 <= p < b1.len() && b1[p] == k;
                assert(b[p] == k && b[p].rank() < b.last().rank());
                assert(b.to_set().contains(k));
                assert(a.to_set().contains(k));
                let q = choose|q: int| 0 <= q < a.len() && a[q] == k;
                assert(a1[q] == k);
            }
        }
        assert(a1.to_set() =~= b1.to_set());
        ascending_unique(a1, b1);
        assert(a =~= a1.push(a.last()));
        assert(b =~= b1.push(b.last()));
    }
}

/// An ascending list is the listing of its own members.
pub proof fn in_rank_order_is<K: MapKey>(q: Seq<K>)
    requires
        ascending(q),
    ensures
        in_rank_order(q.to_set()) == q,
{
    ascending_unique(in_rank_order(q.to_set()), q);
}

proof fn ascending_insert<K: MapKey>(keys: Seq<K>, i: int, k: K)
    requires
        ascending(keys),
        0 <= i <= keys.len(),
        forall|j: int| 0 <= j < i ==> (#[trigger] keys[j]).rank() < k.rank(),
        forall|j: int| i <= j < keys.len() ==> (#[trigger] keys[j]).rank() > k.rank(),
    ensures
        ascending(keys.insert(i, k)),
        !keys.contains(k),
        forall|q: K| keys.insert(i, k).contains(q) <==> (q == k || keys.contains(q)),
{
    let bigger = keys.insert(i, k);
    assert forall|q: K| bigger.contains(q) <==> (q == k || keys.contains(q)) by {
        if bigger.contains(q) {
            let p = choose|p: int| 0 <= p < bigger.len() && bigger[p] == q;
            if p < i {
                assert(keys[p] == q);
            } else if p > i {
                assert(keys[p - 1] == q);
            }
        }
        if keys.contains(q) {
            let p = choose|p: int| 0 <= p < keys.len() && keys[p] == q;
            assert(bigger[if p < i {
                p
            } else {
                p + 1
            }] == q);
        }
        assert(bigger[i] == k);
    }
}

proof fn ascending_remove<K: MapKey>(keys: Seq<K>, i: int)
    requires
        ascending(keys),
        0 <= i < keys.len(),
    ensures
        ascending(keys.remove(i)),
        forall|q: K| keys.remove(i).contains(q) <==> (q != keys[i] && keys.contains(q)),
{
    let smaller = keys.remove(i);
    assert forall|q: K| smaller.contains(q) <==> (q != keys[i] && keys.contains(q)) by {
        if smaller.contains(q) {
            let p = choose|p: int| 0 <= p < smaller.len() && smaller[p] == q;
            assert(keys[if p < i {
                p
            } else {
                p + 1
            }] == q);
        }
        if q != keys[i] && keys.contains(q) {
            let p = choose|p: int| 0 <= p < keys.len() && keys[p] == q;
            assert(smaller[if p < i {
                p
            } else {
                p - 1
            }] == q);
        }
    }
}

proof fn slot_for<K: MapKey>(keys: Seq<K>, k: K) -> (i: int)
    requires
        ascending(keys),
        !keys.contains(k),
    ensures
        0 <= i <= keys.len(),
        forall|j: int| 0 <= j < i ==> (#[trigger] keys[j]).rank() < k.rank(),
        forall|j: int| i <= j < keys.len() ==> (#[trigger] keys[j]).rank() > k.rank(),
    decreases keys.len(),
{
    if keys.len() == 0 {
        0
    } else {
        let last = keys[keys.len() - 1];
        assert(keys.contains(last));
        if last.rank() == k.rank() {
            K::rank_injective(last, k);
        }
        if last.rank() < k.rank() {
            assert forall|j: int| 0 <= j < keys.len() implies (#[trigger] keys[j]).rank()
                < k.rank() by {}
            keys.len() as int
        } else {
            let front = keys.drop_last();
            assert forall|j: int| 0 <= j < front.len() implies #[trigger] front[j] != k by {
                assert(keys[j] == front[j]);
                assert(keys.contains(keys[j]));
            }
            let i = slot_for(front, k);
            assert forall|j: int| 0 <= j < i implies (#[trigger] keys[j]).rank() < k.rank() by {
                assert(front[j] == keys[j]);
            }
            assert forall|j: int| i <= j < keys.len() implies (#[trigger] keys[j]).rank()
                > k.rank() by {
                if j < front.len() {
                    assert(front[j] == keys[j]);
                }
            }
            i
        }
    }
}

/// Every finite set can be listed in ascending rank.
pub proof fn finite_is_listed<K: MapKey>(s: Set<K>)
    requires
        s.finite(),
    ensures
        ascending(in_rank_order(s)),
        in_rank_order(s).to_set() == s,
    decreases s.len(),
{
    if s.len() == 0 {
        let q = Seq::<K>::empty();
        assert(q.to_set() =~= s);
        in_rank_order_is(q);
    } else {
        let k = s.choose();
        let rest = s.remove(k);
        finite_is_listed(rest);
        let q = in_rank_order(rest);
        if q.contains(k) {
            assert(q.to_set().contains(k));
        }
        let i = slot_for(q, k);
        ascending_insert(q, i, k);
        let all = q.insert(i, k);
        assert forall|x: K| all.to_set().contains(x) <==> s.contains(x) by {
            assert(all.contains(x) <==> (x == k || q.contains(x)));
            assert(q.contains(x) <==> q.to_set().contains(x));
        }
        assert(all.to_set() =~= s);
        in_rank_order_is(all);
    }
}

/// Pairs each key with the value at the same index.
pub open spec fn zip_map<K, V>(keys: Seq<K>, values: Seq<V>) -> Map<K, V> {
    Map::new(|k: K| keys.contains(k), |k: K| values[keys.index_of(k)])
}

proof fn index_of_ascending<K: MapKey>(keys: Seq<K>, i: int)
    requires
        ascending(keys),
        0 <= i < keys.len(),
    ensures
        keys.contains(keys[i]),
        keys.index_of(keys[i]) == i,
{
    let j = keys.index_of(keys[i]);
    assert(keys[j] == keys[i]);
    assert(0 <= j < keys.len());
}

proof fn zip_map_update<K: MapKey, V>(keys: Seq<K>, values: Seq<V>, i: int, v: V)
    requires
        ascending(keys),
        keys.len() == values.len(),
        0 <= i < keys.len(),
    ensures
        zip_map(keys, values.update(i, v)) == zip_map(keys, values).insert(keys[i], v),
{
    index_of_ascending(keys, i);
    assert(zip_map(keys, values.update(i, v)) =~= zip_map(keys, values).insert(keys[i], v));
}

proof fn zip_map_insert<K: MapKey, V>(keys: Seq<K>, values: Seq<V>, i: int, k: K, v: V)
    requires
        ascending(keys),
        keys.len() == values.len(),
        0 <= i <= keys.len(),
        forall|j: int| 0 <= j < i ==> (#[trigger] keys[j]).rank() < k.rank(),
        forall|j: int| i <= j < keys.len() ==> (#[trigger] keys[j]).rank() > k.rank(),
    ensures
        zip_map(keys.insert(i, k), values.insert(i, v)) == zip_map(keys, values).insert(k, v),
{
    ascending_insert(keys, i, k);
    let keys2 = keys.insert(i, k);
    let values2 = values.insert(i, v);
    assert forall|q: K| keys2.contains(q) implies zip_map(keys2, values2)[q] == zip_map(
        keys,
        values,
    ).insert(k, v)[q] by {
        if q == k {
            index_of_ascending(keys2, i);
        } else {
            let p = keys.index_of(q);
            assert(keys.contains(q));
            assert(keys[p] == q);
            let p2 = if p < i {
                p
            } else {
                p + 1
            };
            assert(keys2[p2] == q);
            index_of_ascending(keys2, p2);
        }
    }
    assert(zip_map(keys2, values2) =~= zip_map(keys, values).insert(k, v));
}

proof fn zip_map_remove<K: MapKey, V>(keys: Seq<K>, values: Seq<V>, i: int)
    requires
        ascending(keys),
        keys.len() == values.len(),
        0 <= i < keys.len(),
    ensures
        zip_map(keys.remove(i), values.remove(i)) == zip_map(keys, values).remove(keys[i]),
{
    ascending_remove(keys, i);
    let keys2 = keys.remove(i);
    let values2 = values.remove(i);
    assert forall|q: K| keys2.contains(q) implies zip_map(keys2, values2)[q] == zip_map(
        keys,
        values,
    )[q] by {
        let p = keys2.index_of(q);
        assert(keys2[p] == q);
        index_of_ascending(
            keys,
            if p < i {
                p
            } else {
                p + 1
            },
        );
    }
    assert(zip_map(keys2, values2) =~= zip_map(keys, values).remove(keys[i]));
}

/// Applying `f` to every value commutes with an insertion.
pub proof fn map_values_insert<K, V, W>(m: Map<K, V>, f: spec_fn(V) -> W, k: K, v: V)
    ensures
        m.insert(k, v).map_values(f) == m.map_values(f).insert(k, f(v)),
{
    assert(m.insert(k, v).map_values(f) =~= m.map_values(f).insert(k, f(v)));
}

/// Filtering one element more.
pub proof fn filter_take_step<A>(s: Seq<A>, f: spec_fn(A) -> bool, k: int)
    requires
        0 <= k < s.len(),
    ensures
        s.take(k + 1).filter(f) == if f(s[k]) {
            s.take(k).filter(f).push(s[k])
        } else {
            s.take(k).filter(f)
        },
{
    reveal(Seq::filter);
    assert(s.take(k + 1).drop_last() =~= s.take(k));
    assert(s.take(k + 1).last() == s[k]);
}

/// A filtered sequence holds what was there and passes.
pub proof fn filter_members<A>(s: Seq<A>, f: spec_fn(A) -> bool, x: A)
    ensures
        s.filter(f).contains(x) <==> s.contains(x) && f(x),
{
    if s.contains(x) && f(x) {
        let i = choose|i: int| 0 <= i < s.len() && s[i] == x;
        s.lemma_filter_contains(f, i);
    }
    if s.filter(f).contains(x) {
        let i = choose|i: int| 0 <= i < s.filter(f).len() && s.filter(f)[i] == x;
        s.lemma_filter_pred(f, i);
        s.lemma_filter_contains_rev(f, x);
    }
}

/// Filtering nothing gives nothing.
pub proof fn filter_take_none<A>(s: Seq<A>, f: spec_fn(A) -> bool)
    ensures
        s.take(0).filter(f) == Seq::<A>::empty(),
{
    reveal(Seq::filter);
    assert(s.take(0).filter(f) =~= Seq::<A>::empty());
}

/// The place of `k` among ascending `keys`: its index, or where it would go.
fn locate<K: MapKey>(keys: &Vec<K>, k: &K) -> (r: (bool, usize))
    requires
        ascending(keys@),
    ensures
        r.1 <= keys@.len(),
        r.0 == keys@.contains(*k),
        forall|i: int| 0 <= i < r.1 ==> (#[trigger] keys@[i]).rank() < k.rank(),
        r.0 ==> r.1 < keys@.len() && keys@[r.1 as int] == *k,
        !r.0 ==> forall|i: int|
            r.1 <= i < keys@.len() ==> (#[trigger] keys@[i]).rank() > k.rank(),
{
    let mut lo: usize = 0;
    let mut hi: usize = keys.len();
    while lo < hi
        invariant
            lo <= hi <= keys@.len(),
            ascending(keys@),
            forall|i: int| 0 <= i < lo ==> (#[trigger] keys@[i]).rank() < k.rank(),
            forall|i: int| hi <= i < keys@.len() ==> (#[trigger] keys@[i]).rank() >= k.rank(),
        decreases hi - lo,
    {
        let mid: usize = lo + (hi - lo) / 2;
        if keys[mid].before(k) {
            lo = mid + 1;
        } else {
            hi = mid;
        }
    }
    if lo < keys.len() && !k.before(&keys[lo]) {
        proof {
            K::rank_injective(keys@[lo as int], *k);
        }
        (true, lo)
    } else {
        proof {
            if keys@.contains(*k) {
                let i = keys@.index_of(*k);
                assert(keys@[i] == *k);
            }
        }
        (false, lo)
    }
}

/// A map held as parallel vectors of keys and values in ascending key order.
#[derive(Debug)]
pub struct SortedMap<K: MapKey, V> {
    keys: Vec<K>,
    values: Vec<V>,
}

impl<K: MapKey, V> View for SortedMap<K, V> {
    type V = Map<K, V>;

    closed spec fn view(&self) -> Map<K, V> {
        zip_map(self.keys@, self.values@)
    }
}

impl<K: MapKey, V> SortedMap<K, V> {
    #[verifier::type_invariant]
    spec fn well_formed(self) -> bool {
        &&& ascending(self.keys@)
        &&& self.keys@.len() == self.values@.len()
    }

    pub fn new() -> (r: Self)
        ensures
            r@ == Map::<K, V>::empty(),
    {
        let r = SortedMap { keys: Vec::new(), values: Vec::new() };
        assert(r@ =~= Map::<K, V>::empty());
        r
    }

    pub fn len(&self) -> (n: usize)
        ensures
            n == in_rank_order(self@.dom()).len(),
            ascending(in_rank_order(self@.dom())),
            in_rank_order(self@.dom()).to_set() == self@.dom(),
            n == self.size(),
    {
        proof {
            use_type_invariant(self);
            assert(self.keys@.to_set() =~= self@.dom());
            in_rank_order_is(self.keys@);
        }
        self.keys.len()
    }

    pub fn is_empty(&self) -> (r: bool)
        ensures
            r == (self@ == Map::<K, V>::empty()),
    {
        proof {
            use_type_invariant(self);
            if self.keys@.len() > 0 {
                assert(self.keys@.contains(self.keys@[0]));
                assert(self@.contains_key(self.keys@[0]));
            } else {
                assert(self@ =~= Map::<K, V>::empty());
            }
        }
        self.keys.len() == 0
    }

    pub fn contains_key(&self, k: &K) -> (r: bool)
        ensures
            r == self@.contains_key(*k),
    {
        proof {
            use_type_invariant(self);
        }
        let (found, _) = locate(&self.keys, k);
        found
    }

    pub fn get(&self, k: &K) -> (r: Option<&V>)
        ensures
            r is Some == self@.contains_key(*k),
            r matches Some(v) ==> *v == self@[*k],
    {
        proof {
            use_type_invariant(self);
        }
        let (found, i) = locate(&self.keys, k);
        if found {
            proof {
                index_of_ascending(self.keys@, i as int);
            }
            Some(&self.values[i])
        } else {
            None
        }
    }

    pub fn get_mut(&mut self, k: &K) -> (r: Option<&mut V>)
        ensures
            r is Some == old(self)@.contains_key(*k),
            match r {
                Some(v) => *v == old(self)@[*k] && final(self)@ == old(self)@.insert(*k, *final(v)),
                None => *final(self) == *old(self),
            },
    {
        proof {
            use_type_invariant(&*self);
        }
        let (found, i) = locate(&self.keys, k);
        if found {
            proof {
                let keys = self.keys@;
                let values = self.values@;
                index_of_ascending(keys, i as int);
                assert forall|v: V| #[trigger]
                    zip_map(keys, values.update(i as int, v)) == zip_map(keys, values).insert(
                        *k,
                        v,
                    ) by {
                    zip_map_update(keys, values, i as int, v);
                }
            }
            Some(&mut self.values[i])
        } else {
            None
        }
    }

    /// Stores `v` under `k` and hands back what was there before.
    pub fn insert(&mut self, k: K, v: V) -> (r: Option<V>)
        ensures
            final(self)@ == old(self)@.insert(k, v),
            r is Some == old(self)@.contains_key(k),
            r matches Some(w) ==> w == old(self)@[k],
    {
        proof {
            use_type_invariant(&*self);
        }
        let ghost keys0 = self.keys@;
        let ghost values0 = self.values@;
        let (found, i) = locate(&self.keys, &k);
        if found {
            proof {
                index_of_ascending(keys0, i as int);
                zip_map_update(keys0, values0, i as int, v);
            }
            let mut slot = v;
            std::mem::swap(&mut slot, &mut self.values[i]);
            assert(self.values@ =~= values0.update(i as int, v));
            Some(slot)
        } else {
            proof {
                ascending_insert(keys0, i as int, k);
                zip_map_insert(keys0, values0, i as int, k, v);
            }
            let mut whole: SortedMap<K, V> = SortedMap::new();
            std::mem::swap(&mut whole, self);
            let SortedMap { mut keys, mut values } = whole;
            keys.insert(i, k);
            values.insert(i, v);
            *self = SortedMap { keys, values };
            None
        }
    }

    /// Drops the entry under `k`, handing back its value.
    pub fn remove(&mut self, k: &K) -> (r: Option<V>)
        ensures
            final(self)@ == old(self)@.remove(*k),
            r is Some == old(self)@.contains_key(*k),
            r matches Some(w) ==> w == old(self)@[*k],
    {
        proof {
            use_type_invariant(&*self);
        }
        let ghost keys0 = self.keys@;
        let ghost values0 = self.values@;
        let (found, i) = locate(&self.keys, k);
        if found {
            proof {
                ascending_remove(keys0, i as int);
                index_of_ascending(keys0, i as int);
                zip_map_remove(keys0, values0, i as int);
            }
            let mut whole: SortedMap<K, V> = SortedMap::new();
            std::mem::swap(&mut whole, self);
            let SortedMap { mut keys, mut values } = whole;
            keys.remove(i);
            let v = values.remove(i);
            *self = SortedMap { keys, values };
            Some(v)
        } else {
            assert(self@.remove(*k) =~= self@);
            None
        }
    }

    /// How many entries there are.
    pub closed spec fn size(self) -> nat {
        self.keys@.len()
    }

    /// Takes out the entry with the greatest key.
    pub fn pop_last(&mut self) -> (r: Option<(K, V)>)
        ensures
            match r {
                Some((k, v)) => {
                    &&& old(self)@.contains_key(k)
                    &&& v == old(self)@[k]
                    &&& final(self)@ == old(self)@.remove(k)
                    &&& old(self).size() > 0
                    &&& final(self).size() == old(self).size() - 1
                },
                None => {
                    &&& *final(self) == *old(self)
                    &&& old(self).size() == 0
                    &&& old(self)@ == Map::<K, V>::empty()
                },
            },
    {
        proof {
            use_type_invariant(&*self);
        }
        let ghost keys0 = self.keys@;
        let ghost values0 = self.values@;
        let n: usize = self.keys.len();
        if n == 0 {
            assert(self@ =~= Map::<K, V>::empty());
            return None;
        }
        proof {
            ascending_remove(keys0, n - 1);
            index_of_ascending(keys0, n - 1);
            zip_map_remove(keys0, values0, n - 1);
        }
        let mut whole: SortedMap<K, V> = SortedMap::new();
        std::mem::swap(&mut whole, self);
        let SortedMap { mut keys, mut values } = whole;
        let k = keys.remove(n - 1);
        let v = values.remove(n - 1);
        *self = SortedMap { keys, values };
        Some((k, v))
    }

    /// The `i`-th key in ascending rank.
    pub fn key_at(&self, i: usize) -> (k: &K)
        requires
            i < in_rank_order(self@.dom()).len(),
        ensures
            *k == in_rank_order(self@.dom())[i as int],
            self@.contains_key(*k),
    {
        proof {
            use_type_invariant(self);
            assert(self.keys@.to_set() =~= self@.dom());
            in_rank_order_is(self.keys@);
        }
        &self.keys[i]
    }
}

/// A set held as a vector in ascending order.
#[derive(Debug)]
pub struct SortedSet<K: MapKey> {
    keys: Vec<K>,
}

impl<K: MapKey> View for SortedSet<K> {
    type V = Set<K>;

    closed spec fn view(&self) -> Set<K> {
        self.keys@.to_set()
    }
}

impl<K: MapKey> SortedSet<K> {
    #[verifier::type_invariant]
    spec fn well_formed(self) -> bool {
        ascending(self.keys@)
    }

    pub fn new() -> (r: Self)
        ensures
            r@ == Set::<K>::empty(),
    {
        let r = SortedSet { keys: Vec::new() };
        assert(r@ =~= Set::<K>::empty());
        r
    }

    pub fn len(&self) -> (n: usize)
        ensures
            n == in_rank_order(self@).len(),
            n == 0 <==> self@ == Set::<K>::empty(),
            ascending(in_rank_order(self@)),
            in_rank_order(self@).to_set() == self@,
    {
        proof {
            use_type_invariant(self);
            in_rank_order_is(self.keys@);
            if self.keys@.len() > 0 {
                assert(self@.contains(self.keys@[0]));
            } else {
                assert(self@ =~= Set::<K>::empty());
            }
        }
        self.keys.len()
    }

    pub fn is_empty(&self) -> (r: bool)
        ensures
            r == (self@ == Set::<K>::empty()),
    {
        self.len() == 0
    }

    pub fn contains(&self, k: &K) -> (r: bool)
        ensures
            r == self@.contains(*k),
    {
        proof {
            use_type_invariant(self);
        }
        let (found, _) = locate(&self.keys, k);
        found
    }

    /// The `i`-th member in ascending rank.
    pub fn at(&self, i: usize) -> (k: &K)
        requires
            i < in_rank_order(self@).len(),
        ensures
            *k == in_rank_order(self@)[i as int],
            self@.contains(*k),
    {
        proof {
            use_type_invariant(self);
            in_rank_order_is(self.keys@);
        }
        &self.keys[i]
    }

    /// Adds `k`; true if it was not there.
    pub fn insert(&mut self, k: K) -> (r: bool)
        ensures
            final(self)@ == old(self)@.insert(k),
            r == !old(self)@.contains(k),
    {
        proof {
            use_type_invariant(&*self);
        }
        let (found, i) = locate(&self.keys, &k);
        if found {
            assert(self@.insert(k) =~= self@);
            false
        } else {
            proof {
                ascending_insert(self.keys@, i as int, k);
                assert(self.keys@.insert(i as int, k).to_set() =~= self@.insert(k));
            }
            let mut keys: Vec<K> = Vec::new();
            std::mem::swap(&mut keys, &mut self.keys);
            keys.insert(i, k);
            *self = SortedSet { keys };
            true
        }
    }

    /// Drops `k`; true if it was there.
    pub fn remove(&mut self, k: &K) -> (r: bool)
        ensures
            final(self)@ == old(self)@.remove(*k),
            r == old(self)@.contains(*k),
    {
        proof {
            use_type_invariant(&*self);
        }
        let (found, i) = locate(&self.keys, k);
        if found {
            proof {
                ascending_remove(self.keys@, i as int);
                assert(self.keys@.remove(i as int).to_set() =~= self@.remove(*k));
            }
            let mut keys: Vec<K> = Vec::new();
            std::mem::swap(&mut keys, &mut self.keys);
            keys.remove(i);
            *self = SortedSet { keys };
            true
        } else {
            assert(self@.remove(*k) =~= self@);
            false
        }
    }
}

} // verus!
