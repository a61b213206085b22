use vstd::prelude::*;

use crate::error::StoreError;

verus! {

/// Largest identifier the store hands out.
pub const MAX_ID: i64 = 0x7fff_ffff_ffff_ffff;

/// A resource's payload: what a table stores besides the row's bookkeeping.
pub trait Record: View + Sized {
    /// The id of the parent resource that a row of this kind hangs under, if any.
    spec fn parent_of(v: Self::V) -> Option<i64>;

    fn duplicate(&self) -> (r: Self)
        ensures
            r@ == self@,
    ;

    fn parent(&self) -> (r: Option<i64>)
        ensures
            r == Self::parent_of(self@),
    ;
}

/// One stored resource: its identity, its owner, its timestamps (seconds since
/// the Unix epoch, UTC) and its payload.
pub struct Row<T> {
    pub id: i64,
    pub user_id: i64,
    pub created_at: i64,
    pub updated_at: i64,
    pub data: T,
}

/// The mathematical value of a row.
pub struct RowView<V> {
    pub id: i64,
    pub user_id: i64,
    pub created_at: i64,
    pub updated_at: i64,
    pub data: V,
}

impl<T: View> View for Row<T> {
    type V = RowView<T::V>;

    open spec fn view(&self) -> RowView<T::V> {
        RowView {
            id: self.id,
            user_id: self.user_id,
            created_at: self.created_at,
            updated_at: self.updated_at,
            data: self.data@,
        }
    }
}

impl<T: Record> Row<T> {
    pub fn duplicate(&self) -> (r: Row<T>)
        ensures
            r@ == self@,
    {
        Row {
            id: self.id,
            user_id: self.user_id,
            created_at: self.created_at,
            updated_at: self.updated_at,
            data: self.data.duplicate(),
        }
    }
}

/// The values of a sequence of rows.
pub open spec fn rows_view<T: View>(rows: Seq<Row<T>>) -> Seq<RowView<T::V>> {
    rows.map_values(|r: Row<T>| r@)
}

/// `owner` holds a row with identifier `id`.
pub open spec fn owns<V>(s: Seq<RowView<V>>, owner: i64, id: i64) -> bool {
    exists|i: int| 0 <= i < s.len() && #[trigger] s[i].id == id && s[i].user_id == owner
}

/// Where the row with identifier `id` held by `owner` stands.
pub open spec fn position<V>(s: Seq<RowView<V>>, owner: i64, id: i64) -> int {
    choose|i: int| 0 <= i < s.len() && #[trigger] s[i].id == id && s[i].user_id == owner
}

/// Identifiers strictly increase along the table, and lie in `1 .. next`.
pub open spec fn ids_ordered<V>(s: Seq<RowView<V>>, next: i64) -> bool {
    &&& 1 <= next
    &&& forall|i: int| 0 <= i < s.len() ==> 1 <= #[trigger] s[i].id < next
    &&& forall|i: int, j: int| 0 <= i < j < s.len() ==> #[trigger] s[i].id < #[trigger] s[j].id
}

/// A row after a successful mutation: new payload, `updated_at` refreshed.
pub open spec fn touched<V>(r: RowView<V>, data: V, now: i64) -> RowView<V> {
    RowView { data, updated_at: now, ..r }
}

/// The row that a create by `owner` at time `now` stores under identifier `id`.
pub open spec fn fresh<V>(id: i64, owner: i64, data: V, now: i64) -> RowView<V> {
    RowView { id, user_id: owner, created_at: now, updated_at: now, data }
}

/// A row that a listing by `owner`, narrowed to children of `parent` if given, returns.
pub open spec fn selected<T: Record>(r: RowView<T::V>, owner: i64, parent: Option<i64>) -> bool {
    r.user_id == owner && (parent is None || T::parent_of(r.data) == parent)
}

/// The rows that a listing by `owner` returns, in table order.
pub open spec fn selection<T: Record>(s: Seq<RowView<T::V>>, owner: i64, parent: Option<i64>) -> Seq<
    RowView<T::V>,
> {
    s.filter(selector::<T>(owner, parent))
}

pub open spec fn selector<T: Record>(owner: i64, parent: Option<i64>) -> spec_fn(RowView<T::V>) -> bool {
    |r: RowView<T::V>| selected::<T>(r, owner, parent)
}

/// A sequence read back to front.
pub open spec fn reversed<A>(s: Seq<A>) -> Seq<A> {
    Seq::new(s.len(), |k: int| s[s.len() - 1 - k])
}

/// Under ordered identifiers, a row is found only at its one position.
pub proof fn lemma_position_unique<V>(s: Seq<RowView<V>>, next: i64, owner: i64, id: i64, k: int)
    requires
        ids_ordered(s, next),
        0 <= k < s.len(),
        s[k].id == id,
        s[k].user_id == owner,
    ensures
        owns(s, owner, id),
        position(s, owner, id) == k,
{
    let p = position(s, owner, id);
    assert(s[k].id == id);
    if p < k {
        assert(s[p].id < s[k].id);
    } else if p > k {
        assert(s[k].id < s[p].id);
    }
}

/// Filtering a prefix one element longer adds at most that element.
pub proof fn lemma_filter_step<A>(s: Seq<A>, i: int, pred: spec_fn(A) -> bool)
    requires
        0 <= i < s.len(),
    ensures
        s.take(i + 1).filter(pred) == if pred(s[i]) {
            s.take(i).filter(pred).push(s[i])
        } else {
            s.take(i).filter(pred)
        },
{
    reveal(Seq::filter);
    assert(s.take(i + 1).drop_last() =~= s.take(i));
}

/// An owner-scoped table: rows in insertion order, identifiers handed out in
/// increasing order and never reused.
pub struct Table<T> {
    pub rows: Vec<Row<T>>,
    pub next_id: i64,
}

impl<T: Record> View for Table<T> {
    type V = Seq<RowView<T::V>>;

    open spec fn view(&self) -> Seq<RowView<T::V>> {
        rows_view(self.rows@)
    }
}

impl<T: Record> Table<T> {
    pub open spec fn wf(&self) -> bool {
        ids_ordered(self@, self.next_id)
    }

    pub fn new() -> (t: Self)
        ensures
            t.wf(),
            t@ == Seq::<RowView<T::V>>::empty(),
            t.next_id == 1,
    {
        let t = Table { rows: Vec::new(), next_id: 1 };
        assert(t@ =~= Seq::<RowView<T::V>>::empty());
        t
    }

    /// Where the row `id` held by `owner` stands, if there is one.
    pub fn find(&self, owner: i64, id: i64) -> (r: Option<usize>)
        requires
            self.wf(),
        ensures
            r is Some <==> owns(self@, owner, id),
            r matches Some(i) ==> i < self@.len() && i == position(self@, owner, id),
    {
        let mut i: usize = 0;
        while i < self.rows.len()
            invariant
                i <= self.rows.len(),
                self.wf(),
                forall|k: int|
                    0 <= k < i ==> !(#[trigger] self@[k].id == id && self@[k].user_id == owner),
            decreases self.rows.len() - i,
        {
            if self.rows[i].id == id && self.rows[i].user_id == owner {
                proof {
                    lemma_position_unique(self@, self.next_id, owner, id, i as int);
                }
                return Some(i);
            }
            i = i + 1;
        }
        assert(!owns(self@, owner, id)) by {
            if owns(self@, owner, id) {
                let k = choose|k: int|
                    0 <= k < self@.len() && #[trigger] self@[k].id == id && self@[k].user_id
                        == owner;
                assert(self@[k].id == id);
            }
        }
        None
    }

    pub fn contains(&self, owner: i64, id: i64) -> (r: bool)
        requires
            self.wf(),
        ensures
            r == owns(self@, owner, id),
    {
        self.find(owner, id).is_some()
    }

    /// The row `id` as `owner` sees it; `NotFound` if it does not exist or
    /// belongs to someone else.
    pub fn get(&self, owner: i64, id: i64) -> (r: Result<Row<T>, StoreError>)
        requires
            self.wf(),
        ensures
            r is Ok <==> owns(self@, owner, id),
            r matches Ok(row) ==> row@ == self@[position(self@, owner, id)],
            r matches Err(e) ==> e == StoreError::NotFound,
    {
        match self.find(owner, id) {
            Some(i) => Ok(self.rows[i].duplicate()),
            None => Err(StoreError::NotFound),
        }
    }

    /// Stores `data` as a new row of `owner`, stamped `now`; fails with
    /// `StorageFault` only once the identifier space is spent.
    pub fn insert(&mut self, owner: i64, data: T, now: i64) -> (r: Result<Row<T>, StoreError>)
        requires
            old(self).wf(),
        ensures
            final(self).wf(),
            r is Ok <==> old(self).next_id < MAX_ID,
            r matches Ok(row) ==> {
                &&& row@ == fresh(old(self).next_id, owner, data@, now)
                &&& final(self)@ == old(self)@.push(row@)
                &&& final(self).next_id == old(self).next_id + 1
            },
            r matches Err(e) ==> e == StoreError::StorageFault && *final(self) == *old(self),
    {
        if self.next_id == MAX_ID {
            return Err(StoreError::StorageFault);
        }
        let id = self.next_id;
        let row = Row { id, user_id: owner, created_at: now, updated_at: now, data };
        let out = row.duplicate();
        self.rows.push(row);
        self.next_id = id + 1;
        assert(self@ =~= old(self)@.push(out@));
        Ok(out)
    }

    /// Replaces the payload of the row `id` held by `owner` and refreshes its
    /// `updated_at`; `NotFound` leaves the table as it was.
    pub fn replace(&mut self, owner: i64, id: i64, data: T, now: i64) -> (r: Result<
        Row<T>,
        StoreError,
    >)
        requires
            old(self).wf(),
        ensures
            final(self).wf(),
            final(self).next_id == old(self).next_id,
            r is Ok <==> owns(old(self)@, owner, id),
            r matches Ok(row) ==> {
                let p = position(old(self)@, owner, id);
                &&& row@ == touched(old(self)@[p], data@, now)
                &&& final(self)@ == old(self)@.update(p, row@)
            },
            r matches Err(e) ==> e == StoreError::NotFound && *final(self) == *old(self),
    {
        match self.find(owner, id) {
            None => Err(StoreError::NotFound),
            Some(i) => {
                let created_at = self.rows[i].created_at;
                let row = Row { id, user_id: owner, created_at, updated_at: now, data };
                let out = row.duplicate();
                self.rows.set(i, row);
                assert(self@ =~= old(self)@.update(i as int, out@));
                assert forall|a: int, b: int| 0 <= a < b < self@.len() implies #[trigger] self@[a].id
                    < #[trigger] self@[b].id by {
                    assert(old(self)@[a].id < old(self)@[b].id);
                }
                assert forall|a: int| 0 <= a < self@.len() implies 1 <= #[trigger] self@[a].id
                    < self.next_id by {
                    assert(1 <= old(self)@[a].id < self.next_id);
                }
                Ok(out)
            },
        }
    }

    /// Removes the row `id` held by `owner`; `NotFound` leaves the table as it was.
    pub fn remove(&mut self, owner: i64, id: i64) -> (r: Result<(), StoreError>)
        requires
            old(self).wf(),
        ensures
            final(self).wf(),
            final(self).next_id == old(self).next_id,
            r is Ok <==> owns(old(self)@, owner, id),
            r is Ok ==> final(self)@ == old(self)@.remove(position(old(self)@, owner, id)),
            r matches Err(e) ==> e == StoreError::NotFound && *final(self) == *old(self),
    {
        match self.find(owner, id) {
            None => Err(StoreError::NotFound),
            Some(i) => {
                self.rows.remove(i);
                assert(self@ =~= old(self)@.remove(i as int));
                assert forall|a: int, b: int| 0 <= a < b < self@.len() implies #[trigger] self@[a].id
                    < #[trigger] self@[b].id by {
                    if b < i {
                        assert(old(self)@[a].id < old(self)@[b].id);
                    } else if a < i {
                        assert(old(self)@[a].id < old(self)@[b + 1].id);
                    } else {
                        assert(old(self)@[a + 1].id < old(self)@[b + 1].id);
                    }
                }
                assert forall|a: int| 0 <= a < self@.len() implies 1 <= #[trigger] self@[a].id
                    < self.next_id by {
                    if a < i {
                        assert(1 <= old(self)@[a].id < self.next_id);
                    } else {
                        assert(1 <= old(self)@[a + 1].id < self.next_id);
                    }
                }
                Ok(())
            },
        }
    }

    /// The rows of `owner`, narrowed to the children of `parent` if given, in
    /// table order.
    pub fn select(&self, owner: i64, parent: Option<i64>) -> (r: Vec<Row<T>>)
        requires
            self.wf(),
        ensures
            rows_view(r@) == selection::<T>(self@, owner, parent),
    {
        let mut out: Vec<Row<T>> = Vec::new();
        let mut i: usize = 0;
        while i < self.rows.len()
            invariant
                i <= self.rows.len(),
                rows_view(out@) == selection::<T>(self@.take(i as int), owner, parent),
            decreases self.rows.len() - i,
        {
            let row = &self.rows[i];
            let keep = row.user_id == owner && match parent {
                None => true,
                Some(p) => match row.data.parent() {
                    Some(q) => q == p,
                    None => false,
                },
            };
            proof {
                let s = self@.take(i as int + 1);
                assert(s.drop_last() =~= self@.take(i as int));
                assert(s.last() == row@);
                reveal(Seq::filter);
            }
            if keep {
                let copy = row.duplicate();
                out.push(copy);
            }
            proof {
                assert(rows_view(out@) =~= selection::<T>(self@.take(i as int + 1), owner, parent));
            }
            i = i + 1;
        }
        assert(self@.take(self@.len() as int) =~= self@);
        out
    }
}

} // verus!
