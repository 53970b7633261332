use crate::error::Error;
use vstd::prelude::*;

verus! {

/// A record kind that a [`Table`] can hold and hand out copies of.
pub trait Record: Sized + View {
    /// The identifier that a record carries.
    spec fn key_of(v: Self::V) -> u64;

    fn key(&self) -> (r: u64)
        ensures
            r == Self::key_of(self@),
    ;

    fn duplicate(&self) -> (r: Self)
        ensures
            r@ == self@,
    ;
}

/// Keys that strictly increase along the sequence (hence are distinct).
pub open spec fn keys_increasing<V>(s: Seq<(u64, V)>) -> bool {
    forall|i: int, j: int| 0 <= i < j < s.len() ==> s[i].0 < s[j].0
}

/// Every key is at most `bound`.
pub open spec fn keys_at_most<V>(s: Seq<(u64, V)>, bound: u64) -> bool {
    forall|i: int| 0 <= i < s.len() ==> s[i].0 <= bound
}

pub open spec fn has_key<V>(s: Seq<(u64, V)>, id: u64) -> bool {
    exists|i: int| 0 <= i < s.len() && s[i].0 == id
}

/// Keys increase, none is above the last identifier handed out, and each
/// record carries its own key.
pub open spec fn collection_wf<T: Record>(s: Seq<(u64, T::V)>, last_id: u64) -> bool {
    &&& keys_increasing(s)
    &&& keys_at_most(s, last_id)
    &&& forall|i: int| 0 <= i < s.len() ==> T::key_of(#[trigger] s[i].1) == s[i].0
}

/// A record stored under a key carries that key as its id.
pub proof fn lemma_stored_id<T: Record>(s: Seq<(u64, T::V)>, last_id: u64, id: u64)
    requires
        collection_wf::<T>(s, last_id),
        has_key(s, id),
    ensures
        lookup(s, id).is_some(),
        T::key_of(lookup(s, id).unwrap()) == id,
{
    let j = choose|i: int| 0 <= i < s.len() && s[i].0 == id;
    assert(T::key_of(s[j].1) == s[j].0);
}

/// Pairs each record with its own key.
pub open spec fn keyed<T: Record>(s: Seq<T::V>) -> Seq<(u64, T::V)> {
    s.map_values(|v: T::V| (T::key_of(v), v))
}

/// Pairing the values of a well-formed collection with their keys gives the
/// collection back.
pub proof fn lemma_keyed_values<T: Record>(s: Seq<(u64, T::V)>, last_id: u64)
    requires
        collection_wf::<T>(s, last_id),
    ensures
        keyed::<T>(values(s)) == s,
{
    assert forall|i: int| 0 <= i < s.len() implies #[trigger] keyed::<T>(values(s))[i] == s[i] by {
        assert(T::key_of(s[i].1) == s[i].0);
    }
    assert(keyed::<T>(values(s)) =~= s);
}

/// The value stored under `id`, if any.
pub open spec fn lookup<V>(s: Seq<(u64, V)>, id: u64) -> Option<V> {
    if has_key(s, id) {
        Some(s[choose|i: int| 0 <= i < s.len() && s[i].0 == id].1)
    } else {
        None
    }
}

/// The stored values, in key order.
pub open spec fn values<V>(s: Seq<(u64, V)>) -> Seq<V> {
    s.map_values(|e: (u64, V)| e.1)
}

/// The stored values that `keep` accepts, in key order.
pub open spec fn select<V>(s: Seq<(u64, V)>, keep: spec_fn(V) -> bool) -> Seq<V>
    decreases s.len(),
{
    if s.len() == 0 {
        Seq::empty()
    } else {
        let rest = select(s.drop_last(), keep);
        if keep(s.last().1) {
            rest.push(s.last().1)
        } else {
            rest
        }
    }
}

/// The sequence with the value under `id` replaced by `v`.
pub open spec fn set_value<V>(s: Seq<(u64, V)>, id: u64, v: V) -> Seq<(u64, V)> {
    s.map_values(|e: (u64, V)| if e.0 == id { (id, v) } else { e })
}

/// The views of a sequence of records.
pub open spec fn views<T: View>(s: Seq<T>) -> Seq<T::V> {
    s.map_values(|t: T| t@)
}

/// `r` answers a scan whose selection is `sel`: the selection when it has
/// records, `NotFound` when it has none.
pub open spec fn listed<T: View>(r: Result<Vec<T>, Error>, sel: Seq<T::V>) -> bool {
    match r {
        Ok(v) => sel.len() > 0 && views(v@) == sel,
        Err(e) => sel.len() == 0 && e == Error::NotFound,
    }
}

/// `r` answers a lookup: the record stored under the key, or `NotFound`.
pub open spec fn found<T: View>(r: Result<T, Error>, stored: Option<T::V>) -> bool {
    match r {
        Ok(t) => stored == Some(t@),
        Err(e) => stored.is_none() && e == Error::NotFound,
    }
}

pub proof fn lemma_lookup_at<V>(s: Seq<(u64, V)>, i: int)
    requires
        keys_increasing(s),
        0 <= i < s.len(),
    ensures
        lookup(s, s[i].0) == Some(s[i].1),
{
    assert(has_key(s, s[i].0));
    let j = choose|j: int| 0 <= j < s.len() && s[j].0 == s[i].0;
    assert(j == i);
}

/// Appending a record under a key above all others keeps the keys
/// increasing, finds the new record under its key and leaves every other
/// key's answer as it was.
pub proof fn lemma_push_fresh<V>(s: Seq<(u64, V)>, bound: u64, id: u64, v: V)
    requires
        keys_increasing(s),
        keys_at_most(s, bound),
        bound < id,
    ensures
        keys_increasing(s.push((id, v))),
        keys_at_most(s.push((id, v)), id),
        lookup(s.push((id, v)), id) == Some(v),
        forall|k: u64| k != id ==> lookup(#[trigger] s.push((id, v)), k) == lookup(s, k),
        forall|k: u64| has_key(#[trigger] s.push((id, v)), k) <==> (has_key(s, k) || k == id),
        !has_key(s, id),
{
    let t = s.push((id, v));
    lemma_lookup_at(t, s.len() as int);
    assert forall|k: u64| k != id implies lookup(#[trigger] s.push((id, v)), k) == lookup(s, k) by {
        if has_key(s, k) {
            let i = choose|i: int| 0 <= i < s.len() && s[i].0 == k;
            lemma_lookup_at(s, i);
            assert(t[i] == s[i]);
            lemma_lookup_at(t, i);
        } else {
            assert forall|i: int| 0 <= i < t.len() implies t[i].0 != k by {
                if i < s.len() {
                    assert(t[i] == s[i]);
                }
            }
        }
    }
    assert forall|k: u64| has_key(#[trigger] s.push((id, v)), k) <==> (has_key(s, k) || k == id) by {
        if has_key(s, k) {
            let i = choose|i: int| 0 <= i < s.len() && s[i].0 == k;
            assert(t[i] == s[i]);
        }
        if has_key(t, k) && k != id {
            let i = choose|i: int| 0 <= i < t.len() && t[i].0 == k;
            assert(t[i] == s[i]);
        }
        if k == id {
            assert(t[s.len() as int].0 == id);
        }
    }
}

/// Replacing the value under an existing key keeps the keys and answers the
/// new value under that key and the old answer under every other.
pub proof fn lemma_set_value<V>(s: Seq<(u64, V)>, id: u64, v: V)
    requires
        keys_increasing(s),
        has_key(s, id),
    ensures
        keys_increasing(set_value(s, id, v)),
        lookup(set_value(s, id, v), id) == Some(v),
        forall|k: u64| k != id ==> lookup(#[trigger] set_value(s, id, v), k) == lookup(s, k),
        forall|k: u64| has_key(#[trigger] set_value(s, id, v), k) == has_key(s, k),
        forall|b: u64| keys_at_most(s, b) ==> #[trigger] keys_at_most(set_value(s, id, v), b),
{
    let t = set_value(s, id, v);
    assert forall|i: int| 0 <= i < t.len() implies t[i].0 == s[i].0 by {}
    let i0 = choose|i: int| 0 <= i < s.len() && s[i].0 == id;
    lemma_lookup_at(t, i0);
    assert forall|k: u64| k != id implies lookup(#[trigger] set_value(s, id, v), k) == lookup(s, k) by {
        if has_key(s, k) {
            let i = choose|i: int| 0 <= i < s.len() && s[i].0 == k;
            lemma_lookup_at(s, i);
            lemma_lookup_at(t, i);
        } else {
            assert forall|i: int| 0 <= i < t.len() implies t[i].0 != k by {}
        }
    }
    assert forall|k: u64| has_key(#[trigger] set_value(s, id, v), k) == has_key(s, k) by {
        if has_key(s, k) {
            let i = choose|i: int| 0 <= i < s.len() && s[i].0 == k;
            assert(t[i].0 == k);
        }
        if has_key(t, k) {
            let i = choose|i: int| 0 <= i < t.len() && t[i].0 == k;
            assert(s[i].0 == k);
        }
    }
}

/// One step of a scan: the selection over a longer prefix.
pub proof fn lemma_select_step<V>(s: Seq<(u64, V)>, keep: spec_fn(V) -> bool, i: int)
    requires
        0 <= i < s.len(),
    ensures
        select(s.subrange(0, i + 1), keep) == if keep(s[i].1) {
            select(s.subrange(0, i), keep).push(s[i].1)
        } else {
            select(s.subrange(0, i), keep)
        },
{
    assert(s.subrange(0, i + 1).drop_last() =~= s.subrange(0, i));
}

/// An ordered collection of records keyed by identifier.
pub struct Table<T> {
    entries: Vec<(u64, T)>,
}

impl<T: Record> View for Table<T> {
    type V = Seq<(u64, T::V)>;

    closed spec fn view(&self) -> Seq<(u64, T::V)> {
        self.entries@.map_values(|e: (u64, T)| (e.0, e.1@))
    }
}

impl<T: Record> Table<T> {
    pub open spec fn wf(&self) -> bool {
        keys_increasing(self@)
    }

    pub fn new() -> (r: Table<T>)
        ensures
            r@ == Seq::<(u64, T::V)>::empty(),
            r.wf(),
    {
        let r = Table { entries: Vec::new() };
        assert(r@ =~= Seq::<(u64, T::V)>::empty());
        r
    }

    pub fn len(&self) -> (r: usize)
        ensures
            r == self@.len(),
    {
        self.entries.len()
    }

    pub fn value_at(&self, i: usize) -> (r: &T)
        requires
            i < self@.len(),
        ensures
            r@ == self@[i as int].1,
    {
        &self.entries[i].1
    }

    pub fn contains(&self, id: u64) -> (r: bool)
        ensures
            r == has_key(self@, id),
    {
        let mut i: usize = 0;
        while i < self.entries.len()
            invariant
                i <= self@.len(),
                forall|j: int| 0 <= j < i ==> self@[j].0 != id,
            decreases self@.len() - i,
        {
            if self.entries[i].0 == id {
                assert(self@[i as int].0 == id);
                return true;
            }
            i = i + 1;
        }
        false
    }

    /// A copy of the record stored under `id`.
    pub fn get(&self, id: u64) -> (r: Option<T>)
        requires
            self.wf(),
        ensures
            match r {
                Some(t) => lookup(self@, id) == Some(t@),
                None => lookup(self@, id).is_none(),
            },
    {
        let mut i: usize = 0;
        while i < self.entries.len()
            invariant
                self.wf(),
                i <= self@.len(),
                forall|j: int| 0 <= j < i ==> self@[j].0 != id,
            decreases self@.len() - i,
        {
            if self.entries[i].0 == id {
                proof {
                    lemma_lookup_at(self@, i as int);
                }
                return Some(self.entries[i].1.duplicate());
            }
            i = i + 1;
        }
        None
    }

    /// Copies of all records, in key order.
    pub fn all(&self) -> (r: Vec<T>)
        ensures
            views(r@) == values(self@),
    {
        let mut out: Vec<T> = Vec::new();
        let mut i: usize = 0;
        while i < self.entries.len()
            invariant
                i <= self@.len(),
                views(out@) == values(self@.subrange(0, i as int)),
            decreases self@.len() - i,
        {
            let t = self.entries[i].1.duplicate();
            proof {
                assert(views(out@.push(t)) =~= views(out@).push(t@));
                assert(values(self@.subrange(0, i + 1)) =~= values(self@.subrange(0, i as int)).push(
                    self@[i as int].1,
                ));
            }
            out.push(t);
            i = i + 1;
        }
        assert(self@.subrange(0, i as int) =~= self@);
        out
    }

    /// Copies of the records that `keep` accepts, in key order.
    pub fn filter<F: Fn(&T) -> bool>(&self, keep: F, Ghost(pred): Ghost<spec_fn(T::V) -> bool>) -> (r:
        Vec<T>)
        requires
            forall|t: &T| #[trigger] keep.requires((t,)),
            forall|t: &T, b: bool| keep.ensures((t,), b) ==> b == pred(t@),
        ensures
            views(r@) == select(self@, pred),
    {
        let mut out: Vec<T> = Vec::new();
        let mut i: usize = 0;
        while i < self.entries.len()
            invariant
                i <= self@.len(),
                forall|t: &T| #[trigger] keep.requires((t,)),
                forall|t: &T, b: bool| keep.ensures((t,), b) ==> b == pred(t@),
                views(out@) == select(self@.subrange(0, i as int), pred),
            decreases self@.len() - i,
        {
            let t = &self.entries[i].1;
            proof {
                lemma_select_step(self@, pred, i as int);
            }
            if keep(t) {
                let c = t.duplicate();
                proof {
                    assert(views(out@.push(c)) =~= views(out@).push(c@));
                }
                out.push(c);
            }
            i = i + 1;
        }
        assert(self@.subrange(0, i as int) =~= self@);
        out
    }

    /// A table of copies of `records` under their own keys, when those keys
    /// strictly increase and none is above `last_id`; `None` otherwise.
    pub fn from_records(records: &Vec<T>, last_id: u64) -> (r: Option<Table<T>>)
        ensures
            match r {
                Some(t) => t@ == keyed::<T>(views(records@)) && collection_wf::<T>(t@, last_id),
                None => !collection_wf::<T>(keyed::<T>(views(records@)), last_id),
            },
    {
        let ghost want = keyed::<T>(views(records@));
        let mut t: Table<T> = Table::new();
        let mut prev: u64 = 0;
        let mut i: usize = 0;
        while i < records.len()
            invariant
                want == keyed::<T>(views(records@)),
                i <= records@.len(),
                t@ == want.subrange(0, i as int),
                collection_wf::<T>(t@, last_id),
                i > 0 ==> prev == want[i - 1].0,
            decreases records@.len() - i,
        {
            let k = records[i].key();
            assert(want[i as int].0 == k);
            if k > last_id {
                return None;
            }
            if i > 0 && k <= prev {
                assert(want[i - 1].0 >= want[i as int].0);
                return None;
            }
            let c = records[i].duplicate();
            proof {
                assert forall|j: int| 0 <= j < t@.len() implies t@[j].0 < k by {
                    if j < i - 1 {
                        assert(t@[j].0 < t@[i - 1].0);
                    }
                }
                assert(t@.push((k, c@)) =~= want.subrange(0, i + 1));
                if i > 0 {
                    lemma_push_fresh(t@, prev, k, c@);
                }
            }
            t.insert_new(k, c);
            prev = k;
            i = i + 1;
        }
        assert(want.subrange(0, i as int) =~= want);
        Some(t)
    }

    /// Stores `rec` under `id`, a key above all stored keys.
    pub fn insert_new(&mut self, id: u64, rec: T)
        requires
            forall|i: int| 0 <= i < old(self)@.len() ==> old(self)@[i].0 < id,
        ensures
            final(self)@ == old(self)@.push((id, rec@)),
    {
        self.entries.push((id, rec));
        assert(self@ =~= old(self)@.push((id, rec@)));
    }

    /// Overwrites the record stored under `id`, a stored key.
    pub fn replace(&mut self, id: u64, rec: T)
        requires
            old(self).wf(),
            has_key(old(self)@, id),
        ensures
            final(self)@ == set_value(old(self)@, id, rec@),
    {
        let ghost rv = rec@;
        let n = self.entries.len();
        let mut i: usize = 0;
        while self.entries[i].0 != id
            invariant
                n == self@.len(),
                self@ == old(self)@,
                i < self@.len(),
                has_key(self@, id),
                forall|j: int| 0 <= j < i ==> self@[j].0 != id,
            decreases self@.len() - i,
        {
            assert(i + 1 < self@.len()) by {
                let k = choose|k: int| 0 <= k < self@.len() && self@[k].0 == id;
                assert(k > i);
            }
            i = i + 1;
        }
        self.entries.set(i, (id, rec));
        proof {
            assert forall|j: int| 0 <= j < self@.len() implies self@[j] == set_value(
                old(self)@,
                id,
                rv,
            )[j] by {
                if j != i {
                    assert(old(self)@[j].0 != id) by {
                        if j > i {
                            assert(old(self)@[i as int].0 < old(self)@[j].0);
                        }
                    }
                }
            }
            assert(self@ =~= set_value(old(self)@, id, rv));
        }
    }
}

} // verus!
