//! An ordered two-level keyed table: every entry carries a partition key
//! and a row key, and at most one entry exists per key pair.
//!
//! Both backends follow this layout; the in-memory store holds one
//! `Table` per entity kind.

use vstd::prelude::*;
use vstd::seq_lib::group_filter_ensures;

verus! {

broadcast use group_filter_ensures;

/// An entity stored under a two-level (partition key, row key) pair.
pub trait Entity: View + Sized {
    /// The partition key: the id of the owning entity.
    spec fn pk_spec(&self) -> u128;

    /// The row key: the entity's own id.
    spec fn rk_spec(&self) -> u128;

    fn pk(&self) -> (r: u128)
        ensures
            r == self.pk_spec(),
    ;

    fn rk(&self) -> (r: u128)
        ensures
            r == self.rk_spec(),
    ;
}

/// Whether an entry carries the given key pair.
pub open spec fn keyed<T: Entity>(e: T, pk: u128, rk: u128) -> bool {
    e.pk_spec() == pk && e.rk_spec() == rk
}

/// The index of the first entry under the key pair, or -1 if there is none.
pub open spec fn find_idx<T: Entity>(s: Seq<T>, pk: u128, rk: u128) -> int
    decreases s.len(),
{
    if s.len() == 0 {
        -1
    } else if keyed(s[0], pk, rk) {
        0
    } else {
        let r = find_idx(s.skip(1), pk, rk);
        if r == -1 {
            -1
        } else {
            r + 1
        }
    }
}

/// The entry stored under the key pair, if any.
pub open spec fn find_at<T: Entity>(s: Seq<T>, pk: u128, rk: u128) -> Option<T> {
    if find_idx(s, pk, rk) >= 0 {
        Some(s[find_idx(s, pk, rk)])
    } else {
        None
    }
}

/// Whether the partition holds any entry at all.
pub open spec fn has_partition<T: Entity>(s: Seq<T>, pk: u128) -> bool {
    exists|i: int| 0 <= i < s.len() && s[i].pk_spec() == pk
}

/// Membership of one partition, as a predicate over entries.
pub open spec fn in_partition<T: Entity>(pk: u128) -> spec_fn(T) -> bool {
    |e: T| e.pk_spec() == pk
}

/// The entries of one partition, in table order.
pub open spec fn partition_of<T: Entity>(s: Seq<T>, pk: u128) -> Seq<T> {
    s.filter(in_partition(pk))
}

/// The table after an upsert: the entry under the item's keys is replaced,
/// or the item is appended when the keys are new.
pub open spec fn upsert_spec<T: Entity>(s: Seq<T>, x: T) -> Seq<T> {
    let i = find_idx(s, x.pk_spec(), x.rk_spec());
    if i >= 0 {
        s.update(i, x)
    } else {
        s.push(x)
    }
}

/// The table after a removal; unchanged when the key pair is absent.
pub open spec fn remove_spec<T: Entity>(s: Seq<T>, pk: u128, rk: u128) -> Seq<T> {
    let i = find_idx(s, pk, rk);
    if i >= 0 {
        s.remove(i)
    } else {
        s
    }
}

/// The entities behind a row of borrows.
pub open spec fn deref_values<T>(s: Seq<&T>) -> Seq<T> {
    s.map_values(|e: &T| *e)
}

/// The mathematical values of a row of entities.
pub open spec fn views_of<T: View>(s: Seq<T>) -> Seq<T::V> {
    s.map_values(|x: T| x@)
}

/// The mathematical value behind an optional entity.
pub open spec fn opt_view<T: View>(o: Option<T>) -> Option<T::V> {
    match o {
        Some(x) => Some(x@),
        None => None,
    }
}

/// Every entry that `filter` keeps comes from the underlying sequence.
pub proof fn lemma_filter_subset<T>(s: Seq<T>, p: spec_fn(T) -> bool)
    ensures
        forall|k: int| 0 <= k < s.filter(p).len() ==> s.contains(#[trigger] s.filter(p)[k]),
    decreases s.len(),
{
    reveal_with_fuel(Seq::filter, 1);
    if s.len() > 0 {
        lemma_filter_subset(s.drop_last(), p);
        assert forall|k: int| 0 <= k < s.filter(p).len() implies s.contains(
            #[trigger] s.filter(p)[k],
        ) by {
            let sub = s.drop_last().filter(p);
            if k < sub.len() {
                assert(s.drop_last().contains(sub[k]));
                let j = choose|j: int| 0 <= j < s.drop_last().len() && s.drop_last()[j] == sub[k];
                assert(s[j] == sub[k]);
            } else {
                assert(s.filter(p)[k] == s.last());
            }
        }
    }
}

/// A found key pair proves its partition is there.
pub proof fn lemma_found_in_partition<T: Entity>(s: Seq<T>, pk: u128, rk: u128)
    requires
        find_at(s, pk, rk) is Some,
    ensures
        has_partition(s, pk),
{
    lemma_find_idx_valid(s, pk, rk);
    let i = find_idx(s, pk, rk);
    assert(0 <= i < s.len() && s[i].pk_spec() == pk);
}

/// A partition is empty exactly when no entry carries its key.
pub proof fn lemma_partition_empty<T: Entity>(s: Seq<T>, pk: u128)
    ensures
        has_partition(s, pk) <==> partition_of(s, pk).len() != 0,
{
    let p = in_partition::<T>(pk);
    if has_partition(s, pk) {
        let i = choose|i: int| 0 <= i < s.len() && s[i].pk_spec() == pk;
        assert(p(s[i]));
        Seq::lemma_filter_contains(s, p, i);
    }
    if partition_of(s, pk).len() != 0 {
        lemma_filter_subset(s, p);
        assert(s.contains(partition_of(s, pk)[0]));
        assert(p(partition_of(s, pk)[0]));
        let j = choose|j: int| 0 <= j < s.len() && s[j] == partition_of(s, pk)[0];
        assert(s[j].pk_spec() == pk);
    }
}

/// No two entries share a key pair.
pub open spec fn unique_keys<T: Entity>(s: Seq<T>) -> bool {
    forall|i: int, j: int|
        0 <= i < j < s.len() ==> !(#[trigger] s[i].pk_spec() == #[trigger] s[j].pk_spec()
            && s[i].rk_spec() == s[j].rk_spec())
}

/// On a table with unique keys, two distinct positions never share both keys.
pub proof fn lemma_unique_at<T: Entity>(s: Seq<T>, i: int, j: int)
    requires
        unique_keys(s),
        0 <= i < s.len(),
        0 <= j < s.len(),
        i != j,
    ensures
        !(s[i].pk_spec() == s[j].pk_spec() && s[i].rk_spec() == s[j].rk_spec()),
{
    let x = s[i].pk_spec();
    let y = s[j].pk_spec();
}

/// What `filter` keeps of a one-entry sequence.
pub proof fn lemma_filter_singleton<T>(x: T, p: spec_fn(T) -> bool)
    ensures
        p(x) ==> seq![x].filter(p) == seq![x],
        !p(x) ==> seq![x].filter(p) == Seq::<T>::empty(),
{
    reveal_with_fuel(Seq::filter, 2);
    assert(seq![x].drop_last() =~= Seq::<T>::empty());
    assert(Seq::<T>::empty().filter(p) =~= Seq::<T>::empty());
    if p(x) {
        assert(seq![x].filter(p) =~= Seq::<T>::empty().push(x));
        assert(Seq::<T>::empty().push(x) =~= seq![x]);
    }
}

/// `find_idx` returns the position of the first match: if the entries
/// before `i` miss the keys and `i` (when in range) carries them, the
/// search lands exactly there, and at -1 when `i` runs off the end.
pub proof fn lemma_find_idx_at<T: Entity>(s: Seq<T>, pk: u128, rk: u128, i: int)
    requires
        0 <= i <= s.len(),
        forall|j: int| 0 <= j < i ==> !keyed(s[j], pk, rk),
        i < s.len() ==> keyed(s[i], pk, rk),
    ensures
        i < s.len() ==> find_idx(s, pk, rk) == i,
        i == s.len() ==> find_idx(s, pk, rk) == -1,
    decreases s.len(),
{
    if s.len() == 0 {
    } else if keyed(s[0], pk, rk) {
        assert(i == 0);
    } else {
        assert(i >= 1);
        lemma_find_idx_at(s.skip(1), pk, rk, i - 1);
    }
}

/// Wherever `find_idx` lands, the entry there carries the keys.
pub proof fn lemma_find_idx_valid<T: Entity>(s: Seq<T>, pk: u128, rk: u128)
    ensures
        find_idx(s, pk, rk) == -1 || (0 <= find_idx(s, pk, rk) < s.len()),
        find_idx(s, pk, rk) >= 0 ==> keyed(s[find_idx(s, pk, rk)], pk, rk),
        find_idx(s, pk, rk) == -1 ==> forall|j: int| 0 <= j < s.len() ==> !keyed(s[j], pk, rk),
    decreases s.len(),
{
    if s.len() == 0 {
    } else if keyed(s[0], pk, rk) {
    } else {
        lemma_find_idx_valid(s.skip(1), pk, rk);
        if find_idx(s, pk, rk) == -1 {
            assert forall|j: int| 0 <= j < s.len() implies !keyed(s[j], pk, rk) by {
                if j > 0 {
                    assert(s.skip(1)[j - 1] == s[j]);
                }
            }
        }
    }
}

/// A two-level keyed table. Entries keep their insertion order; an upsert
/// of an existing key pair replaces the entry in place.
pub struct Table<T> {
    entries: Vec<T>,
}

impl<T: Entity> View for Table<T> {
    type V = Seq<T>;

    closed spec fn view(&self) -> Seq<T> {
        self.entries@
    }
}

impl<T: Entity> Table<T> {
    /// The table's invariant: one entry per key pair.
    pub open spec fn wf(&self) -> bool {
        unique_keys(self@)
    }

    pub fn new() -> (r: Self)
        ensures
            r@ == Seq::<T>::empty(),
            r.wf(),
    {
        Table { entries: Vec::new() }
    }

    /// The entry under the key pair, if any.
    pub fn get(&self, pk: u128, rk: u128) -> (r: Option<&T>)
        ensures
            match r {
                Some(e) => find_at(self@, pk, rk) == Some(*e),
                None => find_at(self@, pk, rk) is None,
            },
    {
        let n = self.entries.len();
        let mut i: usize = 0;
        while i < n
            invariant
                n == self@.len(),
                i <= n,
                forall|j: int| 0 <= j < i ==> !keyed(self@[j], pk, rk),
            decreases n - i,
        {
            let e = &self.entries[i];
            if e.pk() == pk && e.rk() == rk {
                proof {
                    lemma_find_idx_at(self@, pk, rk, i as int);
                }
                return Some(e);
            }
            i += 1;
        }
        proof {
            lemma_find_idx_at(self@, pk, rk, n as int);
        }
        None
    }

    /// Whether the partition holds any entry.
    pub fn partition_exists(&self, pk: u128) -> (r: bool)
        ensures
            r == has_partition(self@, pk),
    {
        let n = self.entries.len();
        let mut i: usize = 0;
        while i < n
            invariant
                n == self@.len(),
                i <= n,
                forall|j: int| 0 <= j < i ==> self@[j].pk_spec() != pk,
            decreases n - i,
        {
            if self.entries[i].pk() == pk {
                return true;
            }
            i += 1;
        }
        false
    }

    /// Borrows every entry of one partition, in table order.
    pub fn partition<'a>(&'a self, pk: u128) -> (r: Vec<&'a T>)
        ensures
            deref_values(r@) == partition_of(self@, pk),
    {
        let n = self.entries.len();
        let mut out: Vec<&T> = Vec::new();
        let mut i: usize = 0;
        while i < n
            invariant
                n == self@.len(),
                i <= n,
                deref_values(out@) == partition_of(self@.take(i as int), pk),
            decreases n - i,
        {
            let ghost prev = deref_values(out@);
            let e = &self.entries[i];
            if e.pk() == pk {
                out.push(e);
            }
            proof {
                let p = in_partition::<T>(pk);
                lemma_filter_singleton(self@[i as int], p);
                assert(self@.take(i + 1) =~= self@.take(i as int) + seq![self@[i as int]]);
                Seq::filter_distributes_over_add(self@.take(i as int), seq![self@[i as int]], p);
                if p(self@[i as int]) {
                    assert(deref_values(out@) =~= prev + seq![self@[i as int]]);
                } else {
                    assert(deref_values(out@) =~= prev);
                }
                assert(deref_values(out@) =~= partition_of(self@.take(i + 1), pk));
            }
            i += 1;
        }
        proof {
            assert(self@.take(n as int) =~= self@);
        }
        out
    }

    /// Borrows every entry, in table order.
    pub fn all<'a>(&'a self) -> (r: Vec<&'a T>)
        ensures
            deref_values(r@) == self@,
    {
        let n = self.entries.len();
        let mut out: Vec<&T> = Vec::new();
        let mut i: usize = 0;
        while i < n
            invariant
                n == self@.len(),
                i <= n,
                deref_values(out@) == self@.take(i as int),
            decreases n - i,
        {
            let ghost prev = deref_values(out@);
            out.push(&self.entries[i]);
            proof {
                assert(deref_values(out@) =~= prev.push(self@[i as int]));
                assert(deref_values(out@) =~= self@.take(i + 1));
            }
            i += 1;
        }
        proof {
            assert(self@.take(n as int) =~= self@);
        }
        out
    }

    /// Inserts or replaces the entry under the item's key pair.
    pub fn upsert(&mut self, x: T)
        requires
            old(self).wf(),
        ensures
            final(self).wf(),
            final(self)@ == upsert_spec(old(self)@, x),
    {
        let pk = x.pk();
        let rk = x.rk();
        let n = self.entries.len();
        let mut i: usize = 0;
        while i < n
            invariant
                n == self@.len(),
                i <= n,
                *self == *old(self),
                old(self).wf(),
                forall|j: int| 0 <= j < i ==> !keyed(self@[j], pk, rk),
                pk == x.pk_spec(),
                rk == x.rk_spec(),
            decreases n - i,
        {
            let e = &self.entries[i];
            if e.pk() == pk && e.rk() == rk {
                proof {
                    lemma_find_idx_at(self@, pk, rk, i as int);
                }
                self.entries[i] = x;
                proof {
                    let s2 = final(self)@;
                    let s0 = old(self)@;
                    assert(s2 == s0.update(i as int, x));
                    assert(keyed(s0[i as int], pk, rk));
                    assert forall|a: int, b: int| 0 <= a < b < s2.len() implies !(s2[a].pk_spec()
                        == s2[b].pk_spec() && s2[a].rk_spec() == s2[b].rk_spec()) by {
                        if a != i && b != i {
                            assert(s2[a] == s0[a]);
                            assert(s2[b] == s0[b]);
                            lemma_unique_at(s0, a, b);
                        } else if a == i {
                            assert(s2[b] == s0[b]);
                            lemma_unique_at(s0, i as int, b);
                        } else {
                            assert(s2[a] == s0[a]);
                            lemma_unique_at(s0, a, i as int);
                        }
                    }
                }
                return ;
            }
            i += 1;
        }
        proof {
            lemma_find_idx_at(self@, pk, rk, n as int);
        }
        self.entries.push(x);
        proof {
            let s2 = final(self)@;
            assert(s2 == old(self)@.push(x));
            assert forall|a: int, b: int| 0 <= a < b < s2.len() implies !(s2[a].pk_spec()
                == s2[b].pk_spec() && s2[a].rk_spec() == s2[b].rk_spec()) by {
                if b == s2.len() - 1 {
                    assert(!keyed(old(self)@[a], pk, rk));
                } else {
                    lemma_unique_at(old(self)@, a, b);
                }
            }
        }
    }

    /// Removes the entry under the key pair; reports whether one was there.
    pub fn remove(&mut self, pk: u128, rk: u128) -> (r: bool)
        requires
            old(self).wf(),
        ensures
            final(self).wf(),
            final(self)@ == remove_spec(old(self)@, pk, rk),
            r == (find_at(old(self)@, pk, rk) is Some),
    {
        let n = self.entries.len();
        let mut i: usize = 0;
        while i < n
            invariant
                n == self@.len(),
                i <= n,
                *self == *old(self),
                old(self).wf(),
                forall|j: int| 0 <= j < i ==> !keyed(self@[j], pk, rk),
            decreases n - i,
        {
            let e = &self.entries[i];
            if e.pk() == pk && e.rk() == rk {
                proof {
                    lemma_find_idx_at(self@, pk, rk, i as int);
                }
                self.entries.remove(i);
                proof {
                    let s2 = final(self)@;
                    let s0 = old(self)@;
                    assert(s2 == s0.remove(i as int));
                    assert forall|a: int, b: int| 0 <= a < b < s2.len() implies !(s2[a].pk_spec()
                        == s2[b].pk_spec() && s2[a].rk_spec() == s2[b].rk_spec()) by {
                        let a0 = if a < i { a } else { a + 1 };
                        let b0 = if b < i { b } else { b + 1 };
                        assert(s2[a] == s0[a0]);
                        assert(s2[b] == s0[b0]);
                        lemma_unique_at(s0, a0, b0);
                    }
                }
                return true;
            }
            i += 1;
        }
        proof {
            lemma_find_idx_at(self@, pk, rk, n as int);
        }
        false
    }
}

/// Storing an entity and then reading its key pair yields that entity
/// again, on any well-formed table.
pub proof fn lemma_store_then_get<T: Entity>(s: Seq<T>, x: T)
    requires
        unique_keys(s),
    ensures
        find_at(upsert_spec(s, x), x.pk_spec(), x.rk_spec()) == Some(x),
{
    let pk = x.pk_spec();
    let rk = x.rk_spec();
    lemma_find_idx_valid(s, pk, rk);
    let i = find_idx(s, pk, rk);
    if i >= 0 {
        let s2 = s.update(i, x);
        lemma_find_idx_at(s2, pk, rk, i);
    } else {
        let s2 = s.push(x);
        lemma_find_idx_at(s2, pk, rk, s.len() as int);
    }
}

/// An upsert leaves every other key pair exactly as it was.
pub proof fn lemma_store_frames_others<T: Entity>(s: Seq<T>, x: T, pk: u128, rk: u128)
    requires
        unique_keys(s),
        !(pk == x.pk_spec() && rk == x.rk_spec()),
    ensures
        find_at(upsert_spec(s, x), pk, rk) == find_at(s, pk, rk),
{
    let xi = find_idx(s, x.pk_spec(), x.rk_spec());
    lemma_find_idx_valid(s, x.pk_spec(), x.rk_spec());
    let s2 = upsert_spec(s, x);
    lemma_find_idx_valid(s, pk, rk);
    let i = find_idx(s, pk, rk);
    if i >= 0 {
        assert(forall|j: int| 0 <= j < i ==> !keyed(s[j], pk, rk));
        assert(keyed(s2[i], pk, rk));
        assert(forall|j: int| 0 <= j < i ==> !keyed(s2[j], pk, rk));
        lemma_find_idx_at(s2, pk, rk, i);
    } else {
        assert(forall|j: int| 0 <= j < s.len() ==> !keyed(s[j], pk, rk));
        if xi >= 0 {
            assert(forall|j: int| 0 <= j < s2.len() ==> !keyed(s2[j], pk, rk));
            lemma_find_idx_at(s2, pk, rk, s2.len() as int);
        } else {
            assert(forall|j: int| 0 <= j < s2.len() ==> !keyed(s2[j], pk, rk));
            lemma_find_idx_at(s2, pk, rk, s2.len() as int);
        }
    }
}

/// Storing an entity never touches any other partition.
pub proof fn lemma_store_isolated<T: Entity>(s: Seq<T>, x: T, pk: u128)
    requires
        unique_keys(s),
        pk != x.pk_spec(),
    ensures
        partition_of(upsert_spec(s, x), pk) == partition_of(s, pk),
{
    let p = in_partition::<T>(pk);
    let xi = find_idx(s, x.pk_spec(), x.rk_spec());
    lemma_find_idx_valid(s, x.pk_spec(), x.rk_spec());
    lemma_filter_singleton(x, p);
    if xi >= 0 {
        let s2 = s.update(xi, x);
        lemma_filter_singleton(s[xi], p);
        assert(s2 =~= s.take(xi) + seq![x] + s.skip(xi + 1));
        assert(s =~= s.take(xi) + seq![s[xi]] + s.skip(xi + 1));
        Seq::filter_distributes_over_add(s.take(xi) + seq![x], s.skip(xi + 1), p);
        Seq::filter_distributes_over_add(s.take(xi), seq![x], p);
        Seq::filter_distributes_over_add(s.take(xi) + seq![s[xi]], s.skip(xi + 1), p);
        Seq::filter_distributes_over_add(s.take(xi), seq![s[xi]], p);
        assert(!p(x));
        assert(!p(s[xi]));
        assert(partition_of(s2, pk) =~= partition_of(s, pk));
    } else {
        let s2 = s.push(x);
        assert(s2 =~= s + seq![x]);
        Seq::filter_distributes_over_add(s, seq![x], p);
        assert(!p(x));
        assert(partition_of(s2, pk) =~= partition_of(s, pk));
    }
}

/// Removing a key pair leaves it absent, so a second removal finds
/// nothing and changes nothing: a remove never succeeds twice.
pub proof fn lemma_remove_idempotent<T: Entity>(s: Seq<T>, pk: u128, rk: u128)
    requires
        unique_keys(s),
    ensures
        find_at(remove_spec(s, pk, rk), pk, rk) is None,
        remove_spec(remove_spec(s, pk, rk), pk, rk) == remove_spec(s, pk, rk),
{
    lemma_find_idx_valid(s, pk, rk);
    let i = find_idx(s, pk, rk);
    if i >= 0 {
        let s2 = s.remove(i);
        assert forall|j: int| 0 <= j < s2.len() implies !keyed(s2[j], pk, rk) by {
            let j0 = if j < i { j } else { j + 1 };
            assert(s2[j] == s[j0]);
        }
        lemma_find_idx_at(s2, pk, rk, s2.len() as int);
    } else {
        lemma_find_idx_valid(remove_spec(s, pk, rk), pk, rk);
    }
}

} // verus!
