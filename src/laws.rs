use vstd::prelude::*;

use crate::kit::{CreateKitPayload, KitData, KitStatus, UpdateKitPayload, new_kit, patched_kit};
use crate::reconcile::{ids_distinct, lemma_kept_all, news_ok, row_id, scope_ids, upsert_ok, upserts_ok};
use crate::seq_facts::{
    lemma_filter_all, lemma_filter_congruent, lemma_filter_filter, lemma_filter_map_commute,
    lemma_filter_map_distinct, lemma_filter_split_len,
};
use crate::requirement::{
    NewRequirementItem, RequirementData, UpdateItemView, aimed_at, apply_patches, new_requirement,
    patch_requirement, synced_row, upsert_as_new, upsert_as_update, RequirementView, UpsertRequirementItem, created_rows,
    has_id, kept_rows, lacks_id, not_provided, plan_deletes, plan_news, plan_updates, provided,
    survives, survivor, synced, syncer,
};
use crate::color::flag_or;
use crate::runner::RunnerData;
use crate::table::{
    MAX_ID, Record, RowView, Table, fresh, ids_ordered, lemma_position_unique,
    owns, position, selected, selection, selector, touched,
};

verus! {

/// Ownership isolation: a row held by one principal is invisible to every
/// other one, so `get`, `replace` and `remove` by any other principal report
/// `NotFound` for it.
pub proof fn lemma_ownership_isolation<T: Record>(t: Table<T>, i: int, other: i64)
    requires
        t.wf(),
        0 <= i < t@.len(),
        other != t@[i].user_id,
    ensures
        !owns(t@, other, t@[i].id),
{
    if owns(t@, other, t@[i].id) {
        let j = choose|j: int| 0 <= j < t@.len() && #[trigger] t@[j].id == t@[i].id && t@[j].user_id == other;
        if j < i {
            assert(t@[j].id < t@[i].id);
        } else if i < j {
            assert(t@[i].id < t@[j].id);
        }
    }
}

/// Create round trip: reading back the row that a create stored gives exactly
/// the row that the create returned.
pub proof fn lemma_create_then_get<V>(s: Seq<RowView<V>>, next: i64, owner: i64, data: V, now: i64)
    requires
        ids_ordered(s, next),
        next < MAX_ID,
    ensures
        ids_ordered(s.push(fresh(next, owner, data, now)), (next + 1) as i64),
        owns(s.push(fresh(next, owner, data, now)), owner, next),
        s.push(fresh(next, owner, data, now))[position(s.push(fresh(next, owner, data, now)), owner, next)]
            == fresh(next, owner, data, now),
{
    let s2 = s.push(fresh(next, owner, data, now));
    assert(s2[s.len() as int].id == next);
    assert forall|a: int, b: int| 0 <= a < b < s2.len() implies #[trigger] s2[a].id < #[trigger] s2[b].id by {
        if b < s.len() {
            assert(s[a].id < s[b].id);
        } else {
            assert(s[a].id < next);
        }
    }
    assert forall|a: int| 0 <= a < s2.len() implies 1 <= #[trigger] s2[a].id < next + 1 by {
        if a < s.len() {
            assert(1 <= s[a].id < next);
        }
    }
    lemma_position_unique(s2, (next + 1) as i64, owner, next, s.len() as int);
}

/// Update then read back: after a row's payload is replaced at time `now`,
/// reading it gives the row as it was, with the new payload and `updated_at`
/// set to `now`; identity, owner and `created_at` are kept.
pub proof fn lemma_update_then_get<V>(s: Seq<RowView<V>>, next: i64, owner: i64, id: i64, data: V, now: i64)
    requires
        ids_ordered(s, next),
        owns(s, owner, id),
    ensures
        ({
            let p = position(s, owner, id);
            let s2 = s.update(p, touched(s[p], data, now));
            &&& owns(s2, owner, id)
            &&& s2[position(s2, owner, id)] == touched(s[p], data, now)
            &&& now > s[p].updated_at ==> s2[position(s2, owner, id)].updated_at > s[p].updated_at
        }),
{
    let p = position(s, owner, id);
    let s2 = s.update(p, touched(s[p], data, now));
    assert forall|a: int, b: int| 0 <= a < b < s2.len() implies #[trigger] s2[a].id < #[trigger] s2[b].id by {
        assert(s[a].id < s[b].id);
    }
    assert forall|a: int| 0 <= a < s2.len() implies 1 <= #[trigger] s2[a].id < next by {
        assert(1 <= s[a].id < next);
    }
    lemma_position_unique(s2, next, owner, id, p);
}

/// Partial update of a kit: fields that the payload leaves out keep their
/// values, the status is never touched, and `updated_at` does not go back as
/// long as the clock does not.
pub proof fn lemma_kit_partial_update(
    s: Seq<RowView<KitData>>,
    next: i64,
    owner: i64,
    id: i64,
    p: UpdateKitPayload,
    now: i64,
)
    requires
        ids_ordered(s, next),
        owns(s, owner, id),
        now >= s[position(s, owner, id)].updated_at,
    ensures
        ({
            let i = position(s, owner, id);
            let old_row = s[i];
            let s2 = s.update(i, touched(old_row, patched_kit(old_row.data, p), now));
            let new_row = s2[position(s2, owner, id)];
            &&& owns(s2, owner, id)
            &&& new_row.id == old_row.id
            &&& new_row.user_id == old_row.user_id
            &&& new_row.created_at == old_row.created_at
            &&& new_row.updated_at == now >= old_row.updated_at
            &&& new_row.data.status == old_row.data.status
            &&& p.name is None ==> new_row.data.name == old_row.data.name
            &&& p.grade is None ==> new_row.data.grade == old_row.data.grade
            &&& p.name matches Some(n) ==> new_row.data.name == n
            &&& p.grade matches Some(g) ==> new_row.data.grade == g
        }),
{
    let i = position(s, owner, id);
    lemma_update_then_get(s, next, owner, id, patched_kit(s[i].data, p), now);
}

/// Status transitions are unrestricted: a kit just created is pending, and it
/// is found by its owner, which is all that a status update asks for, whatever
/// the new status.
pub proof fn lemma_new_kit_accepts_any_status(
    s: Seq<RowView<KitData>>,
    next: i64,
    owner: i64,
    p: CreateKitPayload,
    now: i64,
    target: KitStatus,
)
    requires
        ids_ordered(s, next),
        next < MAX_ID,
    ensures
        ({
            let s2 = s.push(fresh(next, owner, new_kit(p), now));
            &&& owns(s2, owner, next)
            &&& s2[position(s2, owner, next)].data.status == KitStatus::Pending
            &&& touched(s2[position(s2, owner, next)], KitData { status: target, ..new_kit(p) }, now).data.status
                == target
        }),
{
    lemma_create_then_get(s, next, owner, new_kit(p), now);
}

/// Atomicity: one create item that draws from a runner its owner does not
/// hold makes the whole bulk create invalid, so nothing of it is stored.
pub proof fn lemma_bad_runner_rejects_bulk_create(
    runners: Seq<RowView<RunnerData>>,
    owner: i64,
    items: Seq<NewRequirementItem>,
    k: int,
)
    requires
        0 <= k < items.len(),
        !owns(runners, owner, items[k].runner_id),
    ensures
        !news_ok(runners, owner, items),
{
}

/// Atomicity: one item that draws from a runner its owner does not hold makes
/// the whole compare-sync invalid, so nothing of it is applied.
pub proof fn lemma_bad_runner_rejects_compare_sync(
    reqs: Seq<RowView<RequirementView>>,
    runners: Seq<RowView<RunnerData>>,
    owner: i64,
    kp: i64,
    items: Seq<UpsertRequirementItem>,
    k: int,
)
    requires
        0 <= k < items.len(),
        !owns(runners, owner, items[k].runner_id),
    ensures
        !upserts_ok(reqs, runners, owner, kp, items),
{
    assert(!upsert_ok(reqs, runners, owner, kp, items[k]));
}

/// Resubmitting the current state: when every item carries an id and every
/// existing id is carried by some item, a compare-sync plans no delete and no
/// create.
pub proof fn lemma_resync_plans_no_create_or_delete(existing: Seq<i64>, items: Seq<UpsertRequirementItem>)
    requires
        forall|k: int| 0 <= k < items.len() ==> (#[trigger] items[k]).id is Some,
        forall|j: int| 0 <= j < existing.len() ==> provided(items, #[trigger] existing[j]),
    ensures
        plan_deletes(existing, items).len() == 0,
        plan_news(items).len() == 0,
{
    lemma_filter_none(existing, not_provided(items));
    lemma_filter_none(items, lacks_id());
}

/// Filtering by a predicate that no element meets leaves nothing.
pub proof fn lemma_filter_none<A>(s: Seq<A>, pred: spec_fn(A) -> bool)
    requires
        forall|i: int| 0 <= i < s.len() ==> !pred(#[trigger] s[i]),
    ensures
        s.filter(pred).len() == 0,
    decreases s.len(),
{
    reveal(Seq::filter);
    if s.len() > 0 {
        let t = s.drop_last();
        assert forall|i: int| 0 <= i < t.len() implies !pred(#[trigger] t[i]) by {
            assert(t[i] == s[i]);
        }
        lemma_filter_none(t, pred);
    }
}

pub open spec fn item_id() -> spec_fn(UpsertRequirementItem) -> i64 {
    |it: UpsertRequirementItem| it.id->Some_0
}

/// Updates never move a requirement to another kit part.
pub proof fn lemma_patches_keep_part(d: RequirementView, ups: Seq<UpdateItemView>, id: i64)
    ensures
        apply_patches(d, ups, id).kit_part_id == d.kit_part_id,
    decreases ups.len(),
{
    if ups.len() > 0 {
        lemma_patches_keep_part(d, ups.drop_last(), id);
    }
}

/// In scope for `owner` and kit part `kp`, and named by some item.
pub open spec fn matched(items: Seq<UpsertRequirementItem>, owner: i64, kp: i64) -> spec_fn(
    RowView<RequirementView>,
) -> bool {
    |r: RowView<RequirementView>| selected::<RequirementData>(r, owner, Some(kp)) && provided(items, r.id)
}

pub open spec fn kept_in_scope(owner: i64, kp: i64, deletes: Seq<i64>) -> spec_fn(
    RowView<RequirementView>,
) -> bool {
    |r: RowView<RequirementView>| survives(r, owner, deletes) && selected::<RequirementData>(r, owner, Some(kp))
}

/// The rows in scope that some item names are as many as the items with an id.
proof fn lemma_matched_count(
    s: Seq<RowView<RequirementView>>,
    next: i64,
    runners: Seq<RowView<RunnerData>>,
    owner: i64,
    kp: i64,
    items: Seq<UpsertRequirementItem>,
)
    requires
        ids_ordered(s, next),
        upserts_ok(s, runners, owner, kp, items),
        ids_distinct(items),
    ensures
        s.filter(matched(items, owner, kp)).len() == items.filter(has_id()).len(),
{
    broadcast use vstd::seq_lib::group_filter_ensures;
    let q = matched(items, owner, kp);
    let a = s.filter(q).map_values(row_id());
    let b = items.filter(has_id()).map_values(item_id());
    assert forall|x: int, y: int| 0 <= x < y < s.len() && q(s[x]) && q(s[y]) implies row_id()(
        #[trigger] s[x],
    ) != row_id()(#[trigger] s[y]) by {
        assert(s[x].id < s[y].id);
    }
    lemma_filter_map_distinct(s, q, row_id());
    assert forall|x: int, y: int|
        0 <= x < y < items.len() && has_id()(items[x]) && has_id()(items[y]) implies item_id()(
        #[trigger] items[x],
    ) != item_id()(#[trigger] items[y]) by {
        assert(items[x].id != items[y].id);
    }
    lemma_filter_map_distinct(items, has_id(), item_id());
    a.unique_seq_to_set();
    b.unique_seq_to_set();
    assert forall|x: i64| a.to_set().contains(x) implies b.to_set().contains(x) by {
        let i = choose|i: int| 0 <= i < a.len() && a[i] == x;
        let r = s.filter(q)[i];
        assert(q(r));
        let k = choose|k: int| 0 <= k < items.len() && #[trigger] items[k].id == Some(r.id);
        items.lemma_filter_contains(has_id(), k);
        let j = choose|j: int| 0 <= j < items.filter(has_id()).len() && items.filter(has_id())[j] == items[k];
        assert(b[j] == x);
    }
    assert forall|x: i64| b.to_set().contains(x) implies a.to_set().contains(x) by {
        let j = choose|j: int| 0 <= j < b.len() && b[j] == x;
        let it = items.filter(has_id())[j];
        assert(has_id()(it));
        assert(items.filter(has_id()).contains(it));
        items.lemma_filter_contains_rev(has_id(), it);
        let k = choose|k: int| 0 <= k < items.len() && items[k] == it;
        assert(upsert_ok(s, runners, owner, kp, items[k]));
        let p = position(s, owner, x);
        let r = s[p];
        assert(provided(items, r.id));
        assert(q(r));
        s.lemma_filter_contains(q, p);
        let i = choose|i: int| 0 <= i < s.filter(q).len() && s.filter(q)[i] == r;
        assert(a[i] == x);
    }
    assert(a.to_set() =~= b.to_set());
}

/// Completeness of a compare-sync: afterwards the kit part holds exactly as
/// many requirements of the owner as there were items.
pub proof fn lemma_compare_sync_complete(
    s: Seq<RowView<RequirementView>>,
    next: i64,
    runners: Seq<RowView<RunnerData>>,
    owner: i64,
    kp: i64,
    items: Seq<UpsertRequirementItem>,
    now: i64,
)
    requires
        ids_ordered(s, next),
        upserts_ok(s, runners, owner, kp, items),
        ids_distinct(items),
    ensures
        selection::<RequirementData>(
            synced(
                s,
                owner,
                kp,
                plan_deletes(scope_ids(s, owner, kp), items),
                plan_updates(items),
                plan_news(items),
                next,
                now,
            ),
            owner,
            Some(kp),
        ).len() == items.len(),
{
    broadcast use vstd::seq_lib::group_filter_ensures;
    let sel = selector::<RequirementData>(owner, Some(kp));
    let d = plan_deletes(scope_ids(s, owner, kp), items);
    let u = plan_updates(items);
    let n = plan_news(items);
    let kept = kept_rows(s, owner, d, u, now);
    let made = created_rows(n, kp, owner, next, now);
    Seq::filter_distributes_over_add(kept, made, sel);
    assert forall|i: int| 0 <= i < made.len() implies sel(#[trigger] made[i]) by {}
    lemma_filter_all(made, sel);
    let fs = s.filter(survivor(owner, d));
    assert forall|x: RowView<RequirementView>| #[trigger] sel(syncer(owner, u, now)(x)) == sel(x) by {
        lemma_patches_keep_part(x.data, u, x.id);
    }
    lemma_filter_map_commute(fs, syncer(owner, u, now), sel);
    let both = kept_in_scope(owner, kp, d);
    assert forall|x: RowView<RequirementView>| #[trigger] both(x) == (survivor(owner, d)(x) && sel(x)) by {}
    lemma_filter_filter(s, survivor(owner, d), sel, both);
    let q = matched(items, owner, kp);
    let scope = selection::<RequirementData>(s, owner, Some(kp));
    assert forall|i: int| 0 <= i < s.len() implies both(#[trigger] s[i]) == q(s[i]) by {
        if sel(s[i]) {
            s.lemma_filter_contains(sel, i);
            let j = choose|j: int| 0 <= j < scope.len() && scope[j] == s[i];
            let ids = scope_ids(s, owner, kp);
            assert(ids[j] == s[i].id);
            if provided(items, s[i].id) {
                if d.contains(s[i].id) {
                    let m = choose|m: int| 0 <= m < d.len() && d[m] == s[i].id;
                    assert(not_provided(items)(d[m]));
                }
            } else {
                ids.lemma_filter_contains(not_provided(items), j);
            }
        }
    }
    lemma_filter_congruent(s, both, q);
    lemma_matched_count(s, next, runners, owner, kp, items);
    lemma_filter_split_len(items, has_id(), lacks_id());
}

/// Updates aimed elsewhere leave a requirement as it is.
pub proof fn lemma_no_patch(d: RequirementView, ups: Seq<UpdateItemView>, id: i64)
    requires
        forall|m: int| 0 <= m < ups.len() ==> (#[trigger] ups[m]).id != id,
    ensures
        apply_patches(d, ups, id) == d,
    decreases ups.len(),
{
    if ups.len() > 0 {
        let t = ups.drop_last();
        assert forall|m: int| 0 <= m < t.len() implies (#[trigger] t[m]).id != id by {
            assert(t[m] == ups[m]);
        }
        lemma_no_patch(d, t, id);
    }
}

/// When exactly one update is aimed at a requirement, it alone decides.
pub proof fn lemma_single_patch(d: RequirementView, ups: Seq<UpdateItemView>, id: i64, j: int)
    requires
        0 <= j < ups.len(),
        ups[j].id == id,
        forall|m: int| 0 <= m < ups.len() && m != j ==> (#[trigger] ups[m]).id != id,
    ensures
        apply_patches(d, ups, id) == patch_requirement(d, ups[j]),
    decreases ups.len(),
{
    let t = ups.drop_last();
    if j == ups.len() - 1 {
        assert forall|m: int| 0 <= m < t.len() implies (#[trigger] t[m]).id != id by {
            assert(t[m] == ups[m]);
        }
        lemma_no_patch(d, t, id);
    } else {
        assert forall|m: int| 0 <= m < t.len() && m != j implies (#[trigger] t[m]).id != id by {
            assert(t[m] == ups[m]);
        }
        lemma_single_patch(d, t, id, j);
    }
}

/// After a compare-sync, the requirement that an item names is still there,
/// rewritten with the item's content (`is_cut` kept unless the item gives it).
pub proof fn lemma_compare_sync_rewrites_named(
    s: Seq<RowView<RequirementView>>,
    next: i64,
    runners: Seq<RowView<RunnerData>>,
    owner: i64,
    kp: i64,
    items: Seq<UpsertRequirementItem>,
    now: i64,
    k: int,
)
    requires
        ids_ordered(s, next),
        upserts_ok(s, runners, owner, kp, items),
        ids_distinct(items),
        0 <= k < items.len(),
        items[k].id is Some,
    ensures
        ({
            let f = synced(
                s,
                owner,
                kp,
                plan_deletes(scope_ids(s, owner, kp), items),
                plan_updates(items),
                plan_news(items),
                next,
                now,
            );
            let x = items[k].id->Some_0;
            let old_row = s[position(s, owner, x)];
            exists|j: int|
                0 <= j < f.len() && #[trigger] f[j] == touched(
                    old_row,
                    patch_requirement(old_row.data, upsert_as_update(items[k])),
                    now,
                )
        }),
{
    broadcast use vstd::seq_lib::group_filter_ensures;
    let d = plan_deletes(scope_ids(s, owner, kp), items);
    let u = plan_updates(items);
    let n = plan_news(items);
    let x = items[k].id->Some_0;
    assert(upsert_ok(s, runners, owner, kp, items[k]));
    let p = position(s, owner, x);
    let r = s[p];
    // the named row survives: its id is carried, so no delete names it
    if d.contains(x) {
        let m = choose|m: int| 0 <= m < d.len() && d[m] == x;
        assert(not_provided(items)(d[m]));
        assert(items[k].id == Some(x));
    }
    assert(survivor(owner, d)(r));
    s.lemma_filter_contains(survivor(owner, d), p);
    let fs = s.filter(survivor(owner, d));
    let i = choose|i: int| 0 <= i < fs.len() && fs[i] == r;
    let kept = kept_rows(s, owner, d, u, now);
    assert(kept[i] == synced_row(r, owner, u, now));
    // exactly one update is aimed at it
    let j = lemma_update_for_item(items, k);
    assert(u[j].id == x);
    assert(aimed_at(u, x));
    lemma_single_patch(r.data, u, x, j);
    let f = synced(s, owner, kp, d, u, n, next, now);
    assert(f[i] == kept[i]);
}

/// After a compare-sync, each item without an id stands as a new
/// requirement of the owner under the kit part, with the item's content.
pub proof fn lemma_compare_sync_creates_new(
    s: Seq<RowView<RequirementView>>,
    owner: i64,
    kp: i64,
    items: Seq<UpsertRequirementItem>,
    next: i64,
    now: i64,
    k: int,
)
    requires
        0 <= k < items.len(),
        items[k].id is None,
    ensures
        ({
            let f = synced(
                s,
                owner,
                kp,
                plan_deletes(scope_ids(s, owner, kp), items),
                plan_updates(items),
                plan_news(items),
                next,
                now,
            );
            exists|j: int|
                0 <= j < f.len() && (#[trigger] f[j]).user_id == owner && f[j].created_at == now
                    && f[j].data == new_requirement(upsert_as_new(items[k]), kp)
        }),
{
    broadcast use vstd::seq_lib::group_filter_ensures;
    let d = plan_deletes(scope_ids(s, owner, kp), items);
    let u = plan_updates(items);
    let n = plan_news(items);
    let kept = kept_rows(s, owner, d, u, now);
    let ls = items.filter(lacks_id());
    items.lemma_filter_contains(lacks_id(), k);
    let j = choose|j: int| 0 <= j < ls.len() && ls[j] == items[k];
    assert(n[j] == upsert_as_new(items[k]));
    let f = synced(s, owner, kp, d, u, n, next, now);
    let made = created_rows(n, kp, owner, next, now);
    assert(f[kept.len() + j] == made[j]);
}

/// Submitting the current state again: when the items name exactly the kit
/// part's requirements with their present content, a compare-sync plans no
/// delete and no create, and every named requirement keeps its content (only
/// `updated_at` moves to `now`).
pub proof fn lemma_resync_keeps_content(
    s: Seq<RowView<RequirementView>>,
    next: i64,
    runners: Seq<RowView<RunnerData>>,
    owner: i64,
    kp: i64,
    items: Seq<UpsertRequirementItem>,
    now: i64,
    k: int,
)
    requires
        ids_ordered(s, next),
        upserts_ok(s, runners, owner, kp, items),
        ids_distinct(items),
        forall|m: int| 0 <= m < items.len() ==> (#[trigger] items[m]).id is Some,
        forall|j: int| 0 <= j < scope_ids(s, owner, kp).len() ==> provided(items, #[trigger] scope_ids(s, owner, kp)[j]),
        forall|m: int|
            0 <= m < items.len() ==> same_content(#[trigger] items[m], s[position(s, owner, items[m].id->Some_0)].data),
        0 <= k < items.len(),
    ensures
        plan_deletes(scope_ids(s, owner, kp), items).len() == 0,
        plan_news(items).len() == 0,
        ({
            let f = synced(
                s,
                owner,
                kp,
                plan_deletes(scope_ids(s, owner, kp), items),
                plan_updates(items),
                plan_news(items),
                next,
                now,
            );
            let old_row = s[position(s, owner, items[k].id->Some_0)];
            exists|j: int| 0 <= j < f.len() && #[trigger] f[j] == RowView { updated_at: now, ..old_row }
        }),
{
    lemma_resync_plans_no_create_or_delete(scope_ids(s, owner, kp), items);
    lemma_compare_sync_rewrites_named(s, next, runners, owner, kp, items, now, k);
    let x = items[k].id->Some_0;
    let old_row = s[position(s, owner, x)];
    assert(upsert_ok(s, runners, owner, kp, items[k]));
    assert(same_content(items[k], old_row.data));
    assert(patch_requirement(old_row.data, upsert_as_update(items[k])) == old_row.data);
}

/// An item carries exactly a requirement's present content.
pub open spec fn same_content(it: UpsertRequirementItem, d: RequirementView) -> bool {
    &&& it.gate@ == d.gate
    &&& it.qty as i64 == d.qty
    &&& flag_or(it.is_cut, d.is_cut) == d.is_cut
    &&& it.runner_id == d.runner_id
}

/// The update that a compare-sync plans for an item with an id, and the only
/// one aimed at that id.
pub proof fn lemma_update_for_item(items: Seq<UpsertRequirementItem>, k: int) -> (j: int)
    requires
        ids_distinct(items),
        0 <= k < items.len(),
        items[k].id is Some,
    ensures
        0 <= j < plan_updates(items).len(),
        plan_updates(items)[j] == upsert_as_update(items[k]),
        forall|m: int|
            0 <= m < plan_updates(items).len() && m != j ==> (#[trigger] plan_updates(items)[m]).id
                != items[k].id->Some_0,
{
    broadcast use vstd::seq_lib::group_filter_ensures;
    let u = plan_updates(items);
    let x = items[k].id->Some_0;
    let hs = items.filter(has_id());
    items.lemma_filter_contains(has_id(), k);
    let j = choose|j: int| 0 <= j < hs.len() && hs[j] == items[k];
    assert forall|y: int, z: int|
        0 <= y < z < items.len() && has_id()(items[y]) && has_id()(items[z]) implies item_id()(
        #[trigger] items[y],
    ) != item_id()(#[trigger] items[z]) by {
        assert(items[y].id != items[z].id);
    }
    lemma_filter_map_distinct(items, has_id(), item_id());
    let ids = hs.map_values(item_id());
    assert forall|m: int| 0 <= m < u.len() && m != j implies (#[trigger] u[m]).id != x by {
        assert(ids[m] != ids[j]);
    }
    j
}

/// A row as it stands after being rewritten with its own content at `now`.
pub open spec fn stamped(now: i64) -> spec_fn(RowView<RequirementView>) -> RowView<RequirementView> {
    |r: RowView<RequirementView>| RowView { updated_at: now, ..r }
}

/// Compare-sync idempotence: submitting again exactly the kit part's present
/// requirements (each by its id, with its present content) leaves the kit
/// part's listing as it was, row for row and in the same order; only
/// `updated_at` moves to `now`.
pub proof fn lemma_resync_same_listing(
    s: Seq<RowView<RequirementView>>,
    next: i64,
    runners: Seq<RowView<RunnerData>>,
    owner: i64,
    kp: i64,
    items: Seq<UpsertRequirementItem>,
    now: i64,
)
    requires
        ids_ordered(s, next),
        upserts_ok(s, runners, owner, kp, items),
        ids_distinct(items),
        forall|m: int| 0 <= m < items.len() ==> (#[trigger] items[m]).id is Some,
        forall|j: int| 0 <= j < scope_ids(s, owner, kp).len() ==> provided(items, #[trigger] scope_ids(s, owner, kp)[j]),
        forall|m: int|
            0 <= m < items.len() ==> same_content(#[trigger] items[m], s[position(s, owner, items[m].id->Some_0)].data),
    ensures
        selection::<RequirementData>(
            synced(
                s,
                owner,
                kp,
                plan_deletes(scope_ids(s, owner, kp), items),
                plan_updates(items),
                plan_news(items),
                next,
                now,
            ),
            owner,
            Some(kp),
        ) == selection::<RequirementData>(s, owner, Some(kp)).map_values(stamped(now)),
{
    broadcast use vstd::seq_lib::group_filter_ensures;
    let sel = selector::<RequirementData>(owner, Some(kp));
    let d = plan_deletes(scope_ids(s, owner, kp), items);
    let u = plan_updates(items);
    let n = plan_news(items);
    lemma_resync_plans_no_create_or_delete(scope_ids(s, owner, kp), items);
    assert(d =~= Seq::<i64>::empty());
    let kept = kept_rows(s, owner, d, u, now);
    let made = created_rows(n, kp, owner, next, now);
    assert(made =~= Seq::<RowView<RequirementView>>::empty());
    assert(kept + made =~= kept);
    lemma_kept_all(s, owner, u, now);
    assert forall|x: RowView<RequirementView>| #[trigger] sel(syncer(owner, u, now)(x)) == sel(x) by {
        lemma_patches_keep_part(x.data, u, x.id);
    }
    lemma_filter_map_commute(s, syncer(owner, u, now), sel);
    let ss = selection::<RequirementData>(s, owner, Some(kp));
    assert forall|i: int| 0 <= i < ss.len() implies syncer(owner, u, now)(#[trigger] ss[i]) == stamped(now)(ss[i]) by {
        let r = ss[i];
        assert(sel(r));
        assert(ss.contains(r));
        s.lemma_filter_contains_rev(sel, r);
        let j = choose|j: int| 0 <= j < s.len() && s[j] == r;
        assert(scope_ids(s, owner, kp)[i] == r.id);
        assert(provided(items, r.id));
        let k = choose|k: int| 0 <= k < items.len() && #[trigger] items[k].id == Some(r.id);
        lemma_position_unique(s, next, owner, r.id, j);
        assert(same_content(items[k], r.data));
        let jj = lemma_update_for_item(items, k);
        assert(u[jj].id == r.id);
        assert(aimed_at(u, r.id));
        lemma_single_patch(r.data, u, r.id, jj);
        assert(patch_requirement(r.data, upsert_as_update(items[k])) == r.data);
    }
    assert(ss.map_values(syncer(owner, u, now)) =~= ss.map_values(stamped(now)));
}

} // verus!
