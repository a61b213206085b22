use vstd::prelude::*;

use crate::error::StoreError;
use crate::requirement::{
    BulkCreateRequirementsPayload, BulkDeleteRequirementsPayload, BulkSyncRequirementsPayload,
    BulkUpdateRequirementsPayload, CompareSyncRequirementsPayload, CreateKitPartRequirementPayload,
    KitPartRequirement, NewRequirementItem, RequirementData, RequirementView,
    UpdateItemView, UpdateRequirementItem, UpsertRequirementItem, created_rows, kept_rows,
    lemma_kept_step, news_view, plan_compare_sync, plan_deletes, plan_news, plan_updates,
    survives, survivor, synced, synced_row, syncer, updates_view,
};
use crate::laws::lemma_compare_sync_complete;
use crate::runner::RunnerData;
use crate::store::{Inventory, refers_to};
use crate::sync::apply_sync;
use crate::table::{MAX_ID, RowView, Table, fresh, owns, position, rows_view, selection};

verus! {

/// Every id to delete names a requirement of `owner`.
pub open spec fn deletes_ok(reqs: Seq<RowView<RequirementView>>, owner: i64, ids: Seq<i64>) -> bool {
    forall|k: int| 0 <= k < ids.len() ==> owns(reqs, owner, #[trigger] ids[k])
}

/// Every update names a requirement of `owner` that is not being deleted, and
/// a runner of `owner` if it moves the requirement to one.
pub open spec fn updates_ok(
    reqs: Seq<RowView<RequirementView>>,
    runners: Seq<RowView<RunnerData>>,
    owner: i64,
    ups: Seq<UpdateRequirementItem>,
    deletes: Seq<i64>,
) -> bool {
    forall|k: int| 0 <= k < ups.len() ==> update_ok(reqs, runners, owner, #[trigger] ups[k], deletes)
}

pub open spec fn update_ok(
    reqs: Seq<RowView<RequirementView>>,
    runners: Seq<RowView<RunnerData>>,
    owner: i64,
    u: UpdateRequirementItem,
    deletes: Seq<i64>,
) -> bool {
    &&& owns(reqs, owner, u.id)
    &&& !deletes.contains(u.id)
    &&& refers_to(runners, owner, u.runner_id)
}

/// Every create draws from a runner of `owner`.
pub open spec fn news_ok(runners: Seq<RowView<RunnerData>>, owner: i64, news: Seq<NewRequirementItem>) -> bool {
    forall|k: int| 0 <= k < news.len() ==> owns(runners, owner, #[trigger] news[k].runner_id)
}

/// Every item draws from a runner of `owner`, and an item with an id names a
/// requirement of `owner` under kit part `kp`.
pub open spec fn upserts_ok(
    reqs: Seq<RowView<RequirementView>>,
    runners: Seq<RowView<RunnerData>>,
    owner: i64,
    kp: i64,
    items: Seq<UpsertRequirementItem>,
) -> bool {
    forall|k: int| 0 <= k < items.len() ==> upsert_ok(reqs, runners, owner, kp, #[trigger] items[k])
}

pub open spec fn upsert_ok(
    reqs: Seq<RowView<RequirementView>>,
    runners: Seq<RowView<RunnerData>>,
    owner: i64,
    kp: i64,
    it: UpsertRequirementItem,
) -> bool {
    &&& owns(runners, owner, it.runner_id)
    &&& it.id matches Some(id) ==> owns(reqs, owner, id) && reqs[position(reqs, owner, id)].data.kit_part_id
        == kp
}

/// No two items carry the same id.
pub open spec fn ids_distinct(items: Seq<UpsertRequirementItem>) -> bool {
    forall|a: int, b: int|
        0 <= a < b < items.len() && items[a].id is Some ==> #[trigger] items[a].id != #[trigger] items[b].id
}

pub open spec fn row_id() -> spec_fn(RowView<RequirementView>) -> i64 {
    |r: RowView<RequirementView>| r.id
}

/// The ids of the requirements of `owner` under kit part `kp`, in table order.
pub open spec fn scope_ids(s: Seq<RowView<RequirementView>>, owner: i64, kp: i64) -> Seq<i64> {
    selection::<RequirementData>(s, owner, Some(kp)).map_values(row_id())
}

/// With nothing to delete, every row of a prefix remains, each as the updates
/// leave it.
pub proof fn lemma_kept_prefix(
    s: Seq<RowView<RequirementView>>,
    i: int,
    owner: i64,
    ups: Seq<UpdateItemView>,
    now: i64,
)
    requires
        0 <= i <= s.len(),
    ensures
        kept_rows(s.take(i), owner, Seq::empty(), ups, now) == s.take(i).map_values(
            syncer(owner, ups, now),
        ),
    decreases i,
{
    let e = Seq::<i64>::empty();
    if i == 0 {
        assert(s.take(0).filter(survivor(owner, e)) =~= Seq::empty()) by {
            reveal(Seq::filter);
        }
        assert(kept_rows(s.take(0), owner, e, ups, now) =~= s.take(0).map_values(
            syncer(owner, ups, now),
        ));
    } else {
        lemma_kept_prefix(s, i - 1, owner, ups, now);
        lemma_kept_step(s, i - 1, owner, e, ups, now);
        assert(survives(s[i - 1], owner, e));
        assert(s.take(i).map_values(syncer(owner, ups, now)) =~= s.take(i - 1).map_values(
            syncer(owner, ups, now),
        ).push(synced_row(s[i - 1], owner, ups, now)));
    }
}

/// With nothing to delete, every row remains, each as the updates leave it.
pub proof fn lemma_kept_all(s: Seq<RowView<RequirementView>>, owner: i64, ups: Seq<UpdateItemView>, now: i64)
    ensures
        kept_rows(s, owner, Seq::empty(), ups, now) == s.map_values(syncer(owner, ups, now)),
{
    lemma_kept_prefix(s, s.len() as int, owner, ups, now);
    assert(s.take(s.len() as int) =~= s);
}

fn check_deletes(reqs: &Table<RequirementData>, owner: i64, ids: &Vec<i64>) -> (r: bool)
    requires
        reqs.wf(),
    ensures
        r == deletes_ok(reqs@, owner, ids@),
{
    let mut k: usize = 0;
    while k < ids.len()
        invariant
            reqs.wf(),
            k <= ids.len(),
            forall|j: int| 0 <= j < k ==> owns(reqs@, owner, #[trigger] ids@[j]),
        decreases ids.len() - k,
    {
        if !reqs.contains(owner, ids[k]) {
            return false;
        }
        k = k + 1;
    }
    true
}

fn check_updates(
    reqs: &Table<RequirementData>,
    runners: &Table<RunnerData>,
    owner: i64,
    ups: &Vec<UpdateRequirementItem>,
    deletes: &Vec<i64>,
) -> (r: bool)
    requires
        reqs.wf(),
        runners.wf(),
    ensures
        r == updates_ok(reqs@, runners@, owner, ups@, deletes@),
{
    let mut k: usize = 0;
    while k < ups.len()
        invariant
            reqs.wf(),
            runners.wf(),
            k <= ups.len(),
            forall|j: int| 0 <= j < k ==> update_ok(reqs@, runners@, owner, #[trigger] ups@[j], deletes@),
        decreases ups.len() - k,
    {
        let u = &ups[k];
        if !reqs.contains(owner, u.id) {
            return false;
        }
        if crate::sync::contains_id(deletes, u.id) {
            return false;
        }
        let runner_ok = match u.runner_id {
            Some(x) => runners.contains(owner, x),
            None => true,
        };
        if !runner_ok {
            return false;
        }
        assert(update_ok(reqs@, runners@, owner, ups@[k as int], deletes@));
        k = k + 1;
    }
    true
}

fn check_news(runners: &Table<RunnerData>, owner: i64, news: &Vec<NewRequirementItem>) -> (r: bool)
    requires
        runners.wf(),
    ensures
        r == news_ok(runners@, owner, news@),
{
    let mut k: usize = 0;
    while k < news.len()
        invariant
            runners.wf(),
            k <= news.len(),
            forall|j: int| 0 <= j < k ==> owns(runners@, owner, #[trigger] news@[j].runner_id),
        decreases news.len() - k,
    {
        if !runners.contains(owner, news[k].runner_id) {
            return false;
        }
        k = k + 1;
    }
    true
}

fn check_upserts(
    reqs: &Table<RequirementData>,
    runners: &Table<RunnerData>,
    owner: i64,
    kp: i64,
    items: &Vec<UpsertRequirementItem>,
) -> (r: bool)
    requires
        reqs.wf(),
        runners.wf(),
    ensures
        r == upserts_ok(reqs@, runners@, owner, kp, items@),
{
    let mut k: usize = 0;
    while k < items.len()
        invariant
            reqs.wf(),
            runners.wf(),
            k <= items.len(),
            forall|j: int| 0 <= j < k ==> upsert_ok(reqs@, runners@, owner, kp, #[trigger] items@[j]),
        decreases items.len() - k,
    {
        let it = &items[k];
        if !runners.contains(owner, it.runner_id) {
            return false;
        }
        if let Some(id) = it.id {
            match reqs.find(owner, id) {
                None => {
                    return false;
                },
                Some(i) => {
                    assert(reqs@[i as int].data.kit_part_id == reqs.rows@[i as int].data.kit_part_id);
                    if reqs.rows[i].data.kit_part_id != kp {
                        return false;
                    }
                },
            }
        }
        assert(upsert_ok(reqs@, runners@, owner, kp, items@[k as int]));
        k = k + 1;
    }
    true
}

fn check_distinct(items: &Vec<UpsertRequirementItem>) -> (r: bool)
    ensures
        r == ids_distinct(items@),
{
    let n = items.len();
    let mut b: usize = 0;
    while b < n
        invariant
            n == items.len(),
            b <= n,
            forall|x: int, y: int|
                0 <= x < y < b && items@[x].id is Some ==> #[trigger] items@[x].id != #[trigger] items@[y].id,
        decreases n - b,
    {
        let mut a: usize = 0;
        while a < b
            invariant
                n == items.len(),
                a <= b < n,
                forall|x: int, y: int|
                    0 <= x < y < b && items@[x].id is Some ==> #[trigger] items@[x].id != #[trigger] items@[y].id,
                forall|x: int| 0 <= x < a && items@[x].id is Some ==> #[trigger] items@[x].id != items@[b as int].id,
            decreases b - a,
        {
            if let Some(x) = items[a].id {
                if items[b].id == Some(x) {
                    assert(items@[a as int].id == items@[b as int].id);
                    return false;
                }
            }
            a = a + 1;
        }
        b = b + 1;
    }
    true
}

impl Inventory {
    /// Creates one requirement under a kit part of `owner`, drawing from a
    /// runner of `owner`; it starts out not cut.
    pub fn create_kit_part_requirement(
        &mut self,
        owner: i64,
        p: &CreateKitPartRequirementPayload,
        now: i64,
    ) -> (r: Result<KitPartRequirement, StoreError>)
        requires
            old(self).wf(),
        ensures
            final(self).wf(),
            r is Ok <==> owns(old(self).kit_parts@, owner, p.kit_part_id) && owns(
                old(self).runners@,
                owner,
                p.runner_id,
            ) && old(self).requirements.next_id < MAX_ID,
            r matches Ok(x) ==> {
                &&& x@ == fresh(
                    old(self).requirements.next_id,
                    owner,
                    RequirementView {
                        gate: p.gate@,
                        qty: p.qty as i64,
                        is_cut: false,
                        runner_id: p.runner_id,
                        kit_part_id: p.kit_part_id,
                    },
                    now,
                )
                &&& final(self).requirements@ == old(self).requirements@.push(x@)
                &&& final(self).requirements.next_id == old(self).requirements.next_id + 1
                &&& *final(self) == (Inventory { requirements: final(self).requirements, ..*old(self) })
            },
            r matches Err(e) ==> *final(self) == *old(self) && e == (if owns(
                old(self).kit_parts@,
                owner,
                p.kit_part_id,
            ) && owns(old(self).runners@, owner, p.runner_id) {
                StoreError::StorageFault
            } else {
                StoreError::NotFound
            }),
    {
        if !self.kit_parts.contains(owner, p.kit_part_id) || !self.runners.contains(owner, p.runner_id) {
            return Err(StoreError::NotFound);
        }
        let data = RequirementData {
            gate: crate::text::copy_tags(&p.gate),
            qty: p.qty as i64,
            is_cut: false,
            runner_id: p.runner_id,
            kit_part_id: p.kit_part_id,
        };
        self.requirements.insert(owner, data, now)
    }

    /// The requirements of `owner` under kit part `kit_part_id`, in creation order.
    pub fn get_all_requirements_for_kit_part(&self, owner: i64, kit_part_id: i64) -> (r: Vec<
        KitPartRequirement,
    >)
        requires
            self.wf(),
        ensures
            rows_view(r@) == selection::<RequirementData>(self.requirements@, owner, Some(kit_part_id)),
    {
        self.requirements.select(owner, Some(kit_part_id))
    }

    /// Deletes, then updates, then creates requirements under one kit part of
    /// `owner`, all or nothing; returns that kit part's requirements afterwards.
    /// Every id to delete or update must name a requirement of `owner`, no
    /// update may name a deleted one, and every runner named must be one of
    /// `owner`'s: otherwise `NotFound` and nothing changes.
    pub fn bulk_sync_requirements(
        &mut self,
        owner: i64,
        p: &BulkSyncRequirementsPayload,
        now: i64,
    ) -> (r: Result<Vec<KitPartRequirement>, StoreError>)
        requires
            old(self).wf(),
        ensures
            final(self).wf(),
            ({
                let valid = owns(old(self).kit_parts@, owner, p.kit_part_id) && deletes_ok(
                    old(self).requirements@,
                    owner,
                    p.delete_ids@,
                ) && updates_ok(
                    old(self).requirements@,
                    old(self).runners@,
                    owner,
                    p.update@,
                    p.delete_ids@,
                ) && news_ok(old(self).runners@, owner, p.create@);
                let room = old(self).requirements.next_id + p.create@.len() <= MAX_ID;
                &&& r is Ok <==> valid && room
                &&& r matches Err(e) ==> *final(self) == *old(self) && e == (if valid {
                    StoreError::StorageFault
                } else {
                    StoreError::NotFound
                })
            }),
            r matches Ok(out) ==> {
                &&& final(self).requirements@ == synced(
                    old(self).requirements@,
                    owner,
                    p.kit_part_id,
                    p.delete_ids@,
                    updates_view(p.update@),
                    news_view(p.create@),
                    old(self).requirements.next_id,
                    now,
                )
                &&& final(self).requirements.next_id == old(self).requirements.next_id + p.create@.len()
                &&& *final(self) == (Inventory { requirements: final(self).requirements, ..*old(self) })
                &&& rows_view(out@) == selection::<RequirementData>(
                    final(self).requirements@,
                    owner,
                    Some(p.kit_part_id),
                )
            },
    {
        if !self.kit_parts.contains(owner, p.kit_part_id) || !check_deletes(
            &self.requirements,
            owner,
            &p.delete_ids,
        ) || !check_updates(&self.requirements, &self.runners, owner, &p.update, &p.delete_ids)
            || !check_news(&self.runners, owner, &p.create) {
            return Err(StoreError::NotFound);
        }
        if p.create.len() as u64 > (MAX_ID - self.requirements.next_id) as u64 {
            return Err(StoreError::StorageFault);
        }
        apply_sync(&mut self.requirements, owner, p.kit_part_id, &p.delete_ids, &p.update, &p.create, now);
        Ok(self.requirements.select(owner, Some(p.kit_part_id)))
    }

    /// Makes the requirements of one kit part of `owner` match `p.items`, all
    /// or nothing: requirements of the kit part that no item names are
    /// deleted, items with an id rewrite that requirement, items without one
    /// are created. Returns the kit part's requirements afterwards.
    pub fn compare_sync_requirements(
        &mut self,
        owner: i64,
        p: &CompareSyncRequirementsPayload,
        now: i64,
    ) -> (r: Result<Vec<KitPartRequirement>, StoreError>)
        requires
            old(self).wf(),
        ensures
            final(self).wf(),
            ({
                let found = owns(old(self).kit_parts@, owner, p.kit_part_id) && upserts_ok(
                    old(self).requirements@,
                    old(self).runners@,
                    owner,
                    p.kit_part_id,
                    p.items@,
                );
                let distinct = ids_distinct(p.items@);
                let room = old(self).requirements.next_id + plan_news(p.items@).len() <= MAX_ID;
                &&& r is Ok <==> found && distinct && room
                &&& r matches Err(e) ==> *final(self) == *old(self) && e == (if !found {
                    StoreError::NotFound
                } else if !distinct {
                    StoreError::ValidationFailure
                } else {
                    StoreError::StorageFault
                })
            }),
            r matches Ok(out) ==> {
                &&& final(self).requirements@ == synced(
                    old(self).requirements@,
                    owner,
                    p.kit_part_id,
                    plan_deletes(scope_ids(old(self).requirements@, owner, p.kit_part_id), p.items@),
                    plan_updates(p.items@),
                    plan_news(p.items@),
                    old(self).requirements.next_id,
                    now,
                )
                &&& final(self).requirements.next_id == old(self).requirements.next_id + plan_news(
                    p.items@,
                ).len()
                &&& *final(self) == (Inventory { requirements: final(self).requirements, ..*old(self) })
                &&& rows_view(out@) == selection::<RequirementData>(
                    final(self).requirements@,
                    owner,
                    Some(p.kit_part_id),
                )
                &&& out@.len() == p.items@.len()
            },
    {
        let kp = p.kit_part_id;
        if !self.kit_parts.contains(owner, kp) || !check_upserts(
            &self.requirements,
            &self.runners,
            owner,
            kp,
            &p.items,
        ) {
            return Err(StoreError::NotFound);
        }
        if !check_distinct(&p.items) {
            return Err(StoreError::ValidationFailure);
        }
        let scope = self.requirements.select(owner, Some(kp));
        let mut existing: Vec<i64> = Vec::new();
        let mut i: usize = 0;
        while i < scope.len()
            invariant
                i <= scope.len(),
                existing@ == rows_view(scope@).take(i as int).map_values(row_id()),
            decreases scope.len() - i,
        {
            existing.push(scope[i].id);
            assert(existing@ =~= rows_view(scope@).take(i as int + 1).map_values(row_id()));
            i = i + 1;
        }
        assert(rows_view(scope@).take(scope@.len() as int) =~= rows_view(scope@));
        let plan = plan_compare_sync(&existing, &p.items);
        proof {
            assert(news_view(plan.create@).len() == plan.create@.len());
        }
        if plan.create.len() as u64 > (MAX_ID - self.requirements.next_id) as u64 {
            return Err(StoreError::StorageFault);
        }
        let ghost before = self.requirements;
        apply_sync(&mut self.requirements, owner, kp, &plan.delete_ids, &plan.update, &plan.create, now);
        proof {
            lemma_compare_sync_complete(before@, before.next_id, self.runners@, owner, kp, p.items@, now);
        }
        let out = self.requirements.select(owner, Some(kp));
        assert(rows_view(out@).len() == out@.len());
        Ok(out)
    }

    /// Creates requirements under one kit part of `owner`, all or nothing;
    /// returns the created rows in item order.
    pub fn bulk_create_requirements(
        &mut self,
        owner: i64,
        p: &BulkCreateRequirementsPayload,
        now: i64,
    ) -> (r: Result<Vec<KitPartRequirement>, StoreError>)
        requires
            old(self).wf(),
        ensures
            final(self).wf(),
            ({
                let valid = owns(old(self).kit_parts@, owner, p.kit_part_id) && news_ok(
                    old(self).runners@,
                    owner,
                    p.items@,
                );
                let room = old(self).requirements.next_id + p.items@.len() <= MAX_ID;
                &&& r is Ok <==> valid && room
                &&& r matches Err(e) ==> *final(self) == *old(self) && e == (if valid {
                    StoreError::StorageFault
                } else {
                    StoreError::NotFound
                })
            }),
            r matches Ok(out) ==> {
                let made = created_rows(
                    news_view(p.items@),
                    p.kit_part_id,
                    owner,
                    old(self).requirements.next_id,
                    now,
                );
                &&& rows_view(out@) == made
                &&& final(self).requirements@ == old(self).requirements@ + made
                &&& final(self).requirements.next_id == old(self).requirements.next_id + p.items@.len()
                &&& *final(self) == (Inventory { requirements: final(self).requirements, ..*old(self) })
            },
    {
        if !self.kit_parts.contains(owner, p.kit_part_id) || !check_news(&self.runners, owner, &p.items) {
            return Err(StoreError::NotFound);
        }
        if p.items.len() as u64 > (MAX_ID - self.requirements.next_id) as u64 {
            return Err(StoreError::StorageFault);
        }
        let ghost s = self.requirements@;
        let start = self.requirements.rows.len();
        assert(s.len() == start);
        let no_ids: Vec<i64> = Vec::new();
        let no_updates: Vec<UpdateRequirementItem> = Vec::new();
        apply_sync(&mut self.requirements, owner, p.kit_part_id, &no_ids, &no_updates, &p.items, now);
        proof {
            lemma_kept_all(s, owner, updates_view(no_updates@), now);
            assert(no_ids@ =~= Seq::<i64>::empty());
            assert(s.map_values(syncer(owner, updates_view(no_updates@), now)) =~= s);
        }
        let ghost made = created_rows(news_view(p.items@), p.kit_part_id, owner, old(self).requirements.next_id, now);
        assert(self.requirements@ == s + made);
        assert(self.requirements.rows@.len() == self.requirements@.len());
        let mut out: Vec<KitPartRequirement> = Vec::new();
        let mut i: usize = start;
        while i < self.requirements.rows.len()
            invariant
                start == s.len(),
                start <= i <= self.requirements.rows.len(),
                self.requirements@ == s + made,
                self.requirements.rows@.len() == s.len() + made.len(),
                rows_view(out@) == made.take(i - start),
            decreases self.requirements.rows.len() - i,
        {
            let row = self.requirements.rows[i].duplicate();
            assert(self.requirements@[i as int] == self.requirements.rows@[i as int]@);
            assert(self.requirements@[i as int] == made[i - start]);
            let ghost prev = out@;
            let ghost rv = row@;
            out.push(row);
            assert(rows_view(out@) =~= rows_view(prev).push(rv));
            assert(rows_view(out@) =~= made.take(i + 1 - start));
            i = i + 1;
        }
        assert(made.take(made.len() as int) =~= made);
        Ok(out)
    }

    /// Applies partial updates to requirements of `owner`, in order, all or
    /// nothing; returns, for each item, its requirement afterwards.
    pub fn bulk_update_requirements(
        &mut self,
        owner: i64,
        p: &BulkUpdateRequirementsPayload,
        now: i64,
    ) -> (r: Result<Vec<KitPartRequirement>, StoreError>)
        requires
            old(self).wf(),
        ensures
            final(self).wf(),
            r is Ok <==> updates_ok(old(self).requirements@, old(self).runners@, owner, p.items@, Seq::empty()),
            r matches Err(e) ==> e == StoreError::NotFound && *final(self) == *old(self),
            r matches Ok(out) ==> {
                &&& final(self).requirements@ == old(self).requirements@.map_values(
                    syncer(owner, updates_view(p.items@), now),
                )
                &&& final(self).requirements.next_id == old(self).requirements.next_id
                &&& *final(self) == (Inventory { requirements: final(self).requirements, ..*old(self) })
                &&& out@.len() == p.items@.len()
                &&& forall|k: int|
                    0 <= k < out@.len() ==> (#[trigger] out@[k])@ == final(self).requirements@[position(
                        final(self).requirements@,
                        owner,
                        p.items@[k].id,
                    )]
            },
    {
        let no_ids: Vec<i64> = Vec::new();
        assert(no_ids@ =~= Seq::<i64>::empty());
        if !check_updates(&self.requirements, &self.runners, owner, &p.items, &no_ids) {
            return Err(StoreError::NotFound);
        }
        let ghost s = self.requirements@;
        let no_news: Vec<NewRequirementItem> = Vec::new();
        apply_sync(&mut self.requirements, owner, 0, &no_ids, &p.items, &no_news, now);
        proof {
            lemma_kept_all(s, owner, updates_view(p.items@), now);
            assert(self.requirements@ =~= s.map_values(syncer(owner, updates_view(p.items@), now)));
        }
        let mut out: Vec<KitPartRequirement> = Vec::new();
        let mut k: usize = 0;
        while k < p.items.len()
            invariant
                self.wf(),
                k <= p.items.len(),
                self.requirements@ == s.map_values(syncer(owner, updates_view(p.items@), now)),
                updates_ok(s, self.runners@, owner, p.items@, no_ids@),
                out@.len() == k,
                forall|j: int|
                    0 <= j < k ==> (#[trigger] out@[j])@ == self.requirements@[position(
                        self.requirements@,
                        owner,
                        p.items@[j].id,
                    )],
            decreases p.items.len() - k,
        {
            let id = p.items[k].id;
            proof {
                assert(update_ok(s, self.runners@, owner, p.items@[k as int], no_ids@));
                let i = position(s, owner, id);
                assert(self.requirements@[i].id == id && self.requirements@[i].user_id == owner);
            }
            match self.requirements.get(owner, id) {
                Ok(row) => {
                    out.push(row);
                },
                Err(e) => {
                    return Err(e);
                },
            }
            k = k + 1;
        }
        Ok(out)
    }

    /// Deletes requirements of `owner`, all or nothing; returns how many rows
    /// went away.
    pub fn bulk_delete_requirements(&mut self, owner: i64, p: &BulkDeleteRequirementsPayload) -> (r: Result<
        u64,
        StoreError,
    >)
        requires
            old(self).wf(),
        ensures
            final(self).wf(),
            r is Ok <==> deletes_ok(old(self).requirements@, owner, p.ids@),
            r matches Err(e) ==> e == StoreError::NotFound && *final(self) == *old(self),
            r matches Ok(n) ==> {
                &&& final(self).requirements@ == old(self).requirements@.filter(survivor(owner, p.ids@))
                &&& n == old(self).requirements@.len() - final(self).requirements@.len()
                &&& final(self).requirements.next_id == old(self).requirements.next_id
                &&& *final(self) == (Inventory { requirements: final(self).requirements, ..*old(self) })
            },
    {
        if !check_deletes(&self.requirements, owner, &p.ids) {
            return Err(StoreError::NotFound);
        }
        let ghost s = self.requirements@;
        let before = self.requirements.rows.len();
        let no_updates: Vec<UpdateRequirementItem> = Vec::new();
        let no_news: Vec<NewRequirementItem> = Vec::new();
        apply_sync(&mut self.requirements, owner, 0, &p.ids, &no_updates, &no_news, 0);
        proof {
            let f = s.filter(survivor(owner, p.ids@));
            assert(f.map_values(syncer(owner, updates_view(no_updates@), 0)) =~= f);
            assert(self.requirements@ =~= f);
            s.lemma_filter_len(survivor(owner, p.ids@));
        }
        let after = self.requirements.rows.len();
        Ok((before - after) as u64)
    }
}

} // verus!
