//! Association lists with unique keys, the executable form of every map in
//! the state. A list of pairs is viewed as a `Map` from the key's abstract
//! value to the stored value.
use vstd::prelude::*;

verus! {

/// A key usable in an association list: it has an abstract value, and an
/// executable equality that decides abstract equality.
pub trait AssocKey: Sized {
    type Abs;

    spec fn abs(&self) -> Self::Abs;

    fn key_eq(&self, other: &Self) -> (r: bool)
        ensures
            r == (self.abs() == other.abs()),
    ;
}

/// The map a list of pairs stands for; later pairs win, though with unique
/// keys the distinction never arises.
pub open spec fn assoc_map<K: AssocKey, V>(s: Seq<(K, V)>) -> Map<K::Abs, V>
    decreases s.len(),
{
    if s.len() == 0 {
        Map::empty()
    } else {
        assoc_map(s.drop_last()).insert(s.last().0.abs(), s.last().1)
    }
}

/// No two pairs share a key.
pub open spec fn unique_keys<K: AssocKey, V>(s: Seq<(K, V)>) -> bool {
    forall|i: int, j: int| 0 <= i < j < s.len() ==> s[i].0.abs() != s[j].0.abs()
}

/// Membership in the map is existence of a pair with that key.
pub proof fn lemma_assoc_map_dom<K: AssocKey, V>(s: Seq<(K, V)>, k: K::Abs)
    ensures
        assoc_map(s).contains_key(k) <==> exists|i: int| 0 <= i < s.len() && s[i].0.abs() == k,
    decreases s.len(),
{
    if s.len() > 0 {
        lemma_assoc_map_dom(s.drop_last(), k);
        if exists|i: int| 0 <= i < s.drop_last().len() && s.drop_last()[i].0.abs() == k {
            let i = choose|i: int| 0 <= i < s.drop_last().len() && s.drop_last()[i].0.abs() == k;
            assert(s[i].0.abs() == k);
        }
        if exists|i: int| 0 <= i < s.len() && s[i].0.abs() == k {
            let i = choose|i: int| 0 <= i < s.len() && s[i].0.abs() == k;
            if i < s.len() - 1 {
                assert(s.drop_last()[i].0.abs() == k);
            }
        }
    }
}

/// With unique keys, the pair at index `i` gives the value of its key.
pub proof fn lemma_assoc_map_index<K: AssocKey, V>(s: Seq<(K, V)>, i: int)
    requires
        unique_keys(s),
        0 <= i < s.len(),
    ensures
        assoc_map(s).contains_key(s[i].0.abs()),
        assoc_map(s)[s[i].0.abs()] == s[i].1,
    decreases s.len(),
{
    lemma_assoc_map_dom(s, s[i].0.abs());
    if i < s.len() - 1 {
        assert(s.drop_last()[i] == s[i]);
        lemma_assoc_map_index(s.drop_last(), i);
    }
}

/// Looks the key up, returning a reference to its value.
pub fn assoc_get<'a, K: AssocKey, V>(v: &'a Vec<(K, V)>, k: &K) -> (r: Option<&'a V>)
    requires
        unique_keys(v@),
    ensures
        match r {
            Some(val) => assoc_map(v@).contains_key(k.abs()) && *val == assoc_map(v@)[k.abs()],
            None => !assoc_map(v@).contains_key(k.abs()),
        },
{
    let mut i: usize = 0;
    while i < v.len()
        invariant
            unique_keys(v@),
            i <= v@.len(),
            forall|j: int| 0 <= j < i ==> v@[j].0.abs() != k.abs(),
        decreases v@.len() - i,
    {
        if v[i].0.key_eq(k) {
            proof {
                lemma_assoc_map_index(v@, i as int);
            }
            return Some(&v[i].1);
        }
        i = i + 1;
    }
    proof {
        lemma_assoc_map_dom(v@, k.abs());
    }
    None
}

/// Inserting a pair with a fresh key extends the map.
proof fn lemma_assoc_map_push<K: AssocKey, V>(s: Seq<(K, V)>, k: K, val: V)
    ensures
        assoc_map(s.push((k, val))) == assoc_map(s).insert(k.abs(), val),
{
    assert(s.push((k, val)).drop_last() =~= s);
}

/// Updating the pair at `i` in place updates the map at its key.
proof fn lemma_assoc_map_update<K: AssocKey, V>(s: Seq<(K, V)>, i: int, k: K, val: V)
    requires
        unique_keys(s),
        0 <= i < s.len(),
        k.abs() == s[i].0.abs(),
    ensures
        assoc_map(s.update(i, (k, val))) =~= assoc_map(s).insert(k.abs(), val),
        unique_keys(s.update(i, (k, val))),
    decreases s.len(),
{
    let s2 = s.update(i, (k, val));
    if i == s.len() - 1 {
        assert(s2.drop_last() =~= s.drop_last());
        assert(forall|kk: <K as AssocKey>::Abs|
            assoc_map(s2).contains_key(kk) == (assoc_map(s.drop_last()).insert(
                k.abs(),
                val,
            )).contains_key(kk));
        lemma_assoc_map_dom(s.drop_last(), k.abs());
    } else {
        assert(s2.drop_last() =~= s.drop_last().update(i, (k, val)));
        lemma_assoc_map_update(s.drop_last(), i, k, val);
        assert(s2.last() == s.last());
        assert(s.last().0.abs() != k.abs());
    }
}

/// Removing the pair at `i` removes its key from the map.
proof fn lemma_assoc_map_remove<K: AssocKey, V>(s: Seq<(K, V)>, i: int)
    requires
        unique_keys(s),
        0 <= i < s.len(),
    ensures
        assoc_map(s.remove(i)) =~= assoc_map(s).remove(s[i].0.abs()),
        unique_keys(s.remove(i)),
    decreases s.len(),
{
    let s2 = s.remove(i);
    if i == s.len() - 1 {
        assert(s2 =~= s.drop_last());
        lemma_assoc_map_dom(s.drop_last(), s[i].0.abs());
        assert(forall|j: int| 0 <= j < s.drop_last().len() ==> s[j].0.abs() != s[i].0.abs());
        assert(assoc_map(s.drop_last()) =~= assoc_map(s).remove(s[i].0.abs()));
    } else {
        assert(s2.drop_last() =~= s.drop_last().remove(i));
        lemma_assoc_map_remove(s.drop_last(), i);
        assert(s2.last() == s.last());
        assert(s.drop_last()[i] == s[i]);
        assert(s.last().0.abs() != s[i].0.abs());
    }
}

/// Inserts the pair, replacing the value when the key is already present.
pub fn assoc_insert<K: AssocKey, V>(v: &mut Vec<(K, V)>, k: K, val: V)
    requires
        unique_keys(old(v)@),
    ensures
        unique_keys(final(v)@),
        assoc_map(final(v)@) == assoc_map(old(v)@).insert(k.abs(), val),
        forall|i: int|
            0 <= i < final(v)@.len() ==> ((#[trigger] final(v)@[i]).1 == val || old(v)@.contains(
                final(v)@[i],
            )),
        !assoc_map(old(v)@).contains_key(k.abs()) ==> final(v)@.len() == old(v)@.len() + 1,
        assoc_map(old(v)@).contains_key(k.abs()) ==> final(v)@.len() == old(v)@.len(),
{
    let mut i: usize = 0;
    let n = v.len();
    while i < n
        invariant
            *v == *old(v),
            unique_keys(v@),
            n == v@.len(),
            i <= n,
            forall|j: int| 0 <= j < i ==> v@[j].0.abs() != k.abs(),
        decreases n - i,
    {
        if v[i].0.key_eq(&k) {
            proof {
                lemma_assoc_map_index(v@, i as int);
                lemma_assoc_map_update(v@, i as int, k, val);
            }
            v[i] = (k, val);
            return ;
        }
        i = i + 1;
    }
    proof {
        lemma_assoc_map_push(v@, k, val);
        lemma_assoc_map_dom(v@, k.abs());
        assert(forall|j: int| 0 <= j < v@.len() ==> v@[j].0.abs() != k.abs());
        assert(unique_keys(v@.push((k, val))));
    }
    v.push((k, val));
}

/// Removes the key if present.
pub fn assoc_remove<K: AssocKey, V>(v: &mut Vec<(K, V)>, k: &K)
    requires
        unique_keys(old(v)@),
    ensures
        unique_keys(final(v)@),
        assoc_map(final(v)@) == assoc_map(old(v)@).remove(k.abs()),
        forall|i: int|
            0 <= i < final(v)@.len() ==> old(v)@.contains(#[trigger] final(v)@[i]),
{
    let mut i: usize = 0;
    let n = v.len();
    while i < n
        invariant
            *v == *old(v),
            unique_keys(v@),
            n == v@.len(),
            i <= n,
            forall|j: int| 0 <= j < i ==> v@[j].0.abs() != k.abs(),
        decreases n - i,
    {
        if v[i].0.key_eq(k) {
            proof {
                lemma_assoc_map_remove(v@, i as int);
            }
            v.remove(i);
            return ;
        }
        i = i + 1;
    }
    proof {
        lemma_assoc_map_dom(v@, k.abs());
        assert(assoc_map(v@) =~= assoc_map(v@).remove(k.abs()));
    }
}

} // verus!
