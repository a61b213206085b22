use vstd::prelude::*;

use crate::color::{flag_or, pick_flag};
use crate::kit_part::KitPart;
use crate::runner::Runner;
use crate::table::{fresh, lemma_filter_step, touched, Record, Row, RowView};
use crate::text::copy_tags;

verus! {

/// What a requirement row stores: how many of a part a kit part needs from a
/// runner, and at which gates (an ordered list of tags).
pub struct RequirementData {
    pub gate: Vec<String>,
    pub qty: i64,
    pub is_cut: bool,
    pub runner_id: i64,
    pub kit_part_id: i64,
}

/// A requirement's contents, its gates as a sequence of tags.
pub struct RequirementView {
    pub gate: Seq<String>,
    pub qty: i64,
    pub is_cut: bool,
    pub runner_id: i64,
    pub kit_part_id: i64,
}

impl View for RequirementData {
    type V = RequirementView;

    open spec fn view(&self) -> RequirementView {
        RequirementView {
            gate: self.gate@,
            qty: self.qty,
            is_cut: self.is_cut,
            runner_id: self.runner_id,
            kit_part_id: self.kit_part_id,
        }
    }
}

impl Record for RequirementData {
    open spec fn parent_of(v: RequirementView) -> Option<i64> {
        Some(v.kit_part_id)
    }

    fn duplicate(&self) -> (r: RequirementData) {
        RequirementData {
            gate: copy_tags(&self.gate),
            qty: self.qty,
            is_cut: self.is_cut,
            runner_id: self.runner_id,
            kit_part_id: self.kit_part_id,
        }
    }

    fn parent(&self) -> (r: Option<i64>) {
        Some(self.kit_part_id)
    }
}

/// A stored requirement.
pub type KitPartRequirement = Row<RequirementData>;

pub struct CreateKitPartRequirementPayload {
    pub gate: Vec<String>,
    pub qty: i32,
    pub runner_id: i64,
    pub kit_part_id: i64,
}

/// A requirement to create; `is_cut` defaults to `false`.
pub struct NewRequirementItem {
    pub gate: Vec<String>,
    pub qty: i32,
    pub is_cut: Option<bool>,
    pub runner_id: i64,
}

/// A partial update of the requirement `id`.
pub struct UpdateRequirementItem {
    pub id: i64,
    pub gate: Option<Vec<String>>,
    pub qty: Option<i32>,
    pub is_cut: Option<bool>,
    pub runner_id: Option<i64>,
}

/// One item of a desired state: with an `id` it rewrites that requirement,
/// without one it is created.
pub struct UpsertRequirementItem {
    pub id: Option<i64>,
    pub gate: Vec<String>,
    pub qty: i32,
    pub is_cut: Option<bool>,
    pub runner_id: i64,
}

/// The value of a create item.
pub struct NewItemView {
    pub gate: Seq<String>,
    pub qty: i32,
    pub is_cut: Option<bool>,
    pub runner_id: i64,
}

/// The value of an update item.
pub struct UpdateItemView {
    pub id: i64,
    pub gate: Option<Seq<String>>,
    pub qty: Option<i32>,
    pub is_cut: Option<bool>,
    pub runner_id: Option<i64>,
}

impl View for NewRequirementItem {
    type V = NewItemView;

    open spec fn view(&self) -> NewItemView {
        NewItemView { gate: self.gate@, qty: self.qty, is_cut: self.is_cut, runner_id: self.runner_id }
    }
}

impl View for UpdateRequirementItem {
    type V = UpdateItemView;

    open spec fn view(&self) -> UpdateItemView {
        UpdateItemView {
            id: self.id,
            gate: match self.gate {
                Some(g) => Some(g@),
                None => None,
            },
            qty: self.qty,
            is_cut: self.is_cut,
            runner_id: self.runner_id,
        }
    }
}

pub open spec fn news_view(v: Seq<NewRequirementItem>) -> Seq<NewItemView> {
    v.map_values(|it: NewRequirementItem| it@)
}

pub open spec fn updates_view(v: Seq<UpdateRequirementItem>) -> Seq<UpdateItemView> {
    v.map_values(|u: UpdateRequirementItem| u@)
}

pub struct BulkCreateRequirementsPayload {
    pub kit_part_id: i64,
    pub items: Vec<NewRequirementItem>,
}

pub struct BulkUpdateRequirementsPayload {
    pub items: Vec<UpdateRequirementItem>,
}

/// Deletes, then updates, then creates, all or nothing.
pub struct BulkSyncRequirementsPayload {
    pub kit_part_id: i64,
    pub create: Vec<NewRequirementItem>,
    pub update: Vec<UpdateRequirementItem>,
    pub delete_ids: Vec<i64>,
}

/// The whole desired requirement list of one kit part.
pub struct CompareSyncRequirementsPayload {
    pub kit_part_id: i64,
    pub items: Vec<UpsertRequirementItem>,
}

pub struct BulkDeleteRequirementsPayload {
    pub ids: Vec<i64>,
}

/// A kit part with its requirements.
pub struct KitPartWithRequirements {
    pub kit_part: KitPart,
    pub requirements: Vec<KitPartRequirement>,
}

/// A requirement with the runner it draws from.
pub struct KitPartRequirementWithRunner {
    pub requirement: KitPartRequirement,
    pub runner: Option<Runner>,
}

/// The requirement that a create item stores under kit part `kp`.
pub open spec fn new_requirement(it: NewItemView, kp: i64) -> RequirementView {
    RequirementView {
        gate: it.gate,
        qty: it.qty as i64,
        is_cut: flag_or(it.is_cut, false),
        runner_id: it.runner_id,
        kit_part_id: kp,
    }
}

/// One partial update applied to a requirement: given fields overwrite.
pub open spec fn patch_requirement(d: RequirementView, u: UpdateItemView) -> RequirementView {
    RequirementView {
        gate: match u.gate {
            Some(g) => g,
            None => d.gate,
        },
        qty: match u.qty {
            Some(q) => q as i64,
            None => d.qty,
        },
        is_cut: flag_or(u.is_cut, d.is_cut),
        runner_id: match u.runner_id {
            Some(x) => x,
            None => d.runner_id,
        },
        kit_part_id: d.kit_part_id,
    }
}

/// The updates aimed at `id`, applied in list order.
pub open spec fn apply_patches(d: RequirementView, ups: Seq<UpdateItemView>, id: i64) -> RequirementView
    decreases ups.len(),
{
    if ups.len() == 0 {
        d
    } else {
        let prev = apply_patches(d, ups.drop_last(), id);
        if ups.last().id == id {
            patch_requirement(prev, ups.last())
        } else {
            prev
        }
    }
}

/// Some update is aimed at `id`.
pub open spec fn aimed_at(ups: Seq<UpdateItemView>, id: i64) -> bool {
    exists|k: int| 0 <= k < ups.len() && #[trigger] ups[k].id == id
}

/// A row that the deletes of `owner` leave in place.
pub open spec fn survives(r: RowView<RequirementView>, owner: i64, deletes: Seq<i64>) -> bool {
    !(r.user_id == owner && deletes.contains(r.id))
}

/// A surviving row after the updates of `owner` at time `now`.
pub open spec fn synced_row(
    r: RowView<RequirementView>,
    owner: i64,
    ups: Seq<UpdateItemView>,
    now: i64,
) -> RowView<RequirementView> {
    if r.user_id == owner && aimed_at(ups, r.id) {
        touched(r, apply_patches(r.data, ups, r.id), now)
    } else {
        r
    }
}

/// The rows that the creates add, numbered from `next` on.
pub open spec fn created_rows(
    news: Seq<NewItemView>,
    kp: i64,
    owner: i64,
    next: i64,
    now: i64,
) -> Seq<RowView<RequirementView>> {
    Seq::new(news.len(), |k: int| fresh((next + k) as i64, owner, new_requirement(news[k], kp), now))
}

/// The rows that remain after the deletes and updates of `owner`, in table order.
pub open spec fn kept_rows(
    s: Seq<RowView<RequirementView>>,
    owner: i64,
    deletes: Seq<i64>,
    ups: Seq<UpdateItemView>,
    now: i64,
) -> Seq<RowView<RequirementView>> {
    s.filter(survivor(owner, deletes)).map_values(syncer(owner, ups, now))
}

pub open spec fn survivor(owner: i64, deletes: Seq<i64>) -> spec_fn(RowView<RequirementView>) -> bool {
    |r: RowView<RequirementView>| survives(r, owner, deletes)
}

pub open spec fn syncer(owner: i64, ups: Seq<UpdateItemView>, now: i64) -> spec_fn(
    RowView<RequirementView>,
) -> RowView<RequirementView> {
    |r: RowView<RequirementView>| synced_row(r, owner, ups, now)
}

/// Extending the table by one row extends what remains by at most that row.
pub proof fn lemma_kept_step(
    s: Seq<RowView<RequirementView>>,
    i: int,
    owner: i64,
    deletes: Seq<i64>,
    ups: Seq<UpdateItemView>,
    now: i64,
)
    requires
        0 <= i < s.len(),
    ensures
        kept_rows(s.take(i + 1), owner, deletes, ups, now) == if survives(s[i], owner, deletes) {
            kept_rows(s.take(i), owner, deletes, ups, now).push(synced_row(s[i], owner, ups, now))
        } else {
            kept_rows(s.take(i), owner, deletes, ups, now)
        },
{
    reveal(Seq::filter);
    let p = s.take(i + 1);
    assert(p.drop_last() =~= s.take(i));
    let f0 = s.take(i).filter(survivor(owner, deletes));
    if survives(s[i], owner, deletes) {
        assert(p.filter(survivor(owner, deletes)) == f0.push(s[i]));
        assert(f0.push(s[i]).map_values(syncer(owner, ups, now)) =~= f0.map_values(
            syncer(owner, ups, now),
        ).push(synced_row(s[i], owner, ups, now)));
    } else {
        assert(p.filter(survivor(owner, deletes)) == f0);
    }
}

/// The requirement table after deletes, then updates, then creates by `owner`.
pub open spec fn synced(
    s: Seq<RowView<RequirementView>>,
    owner: i64,
    kp: i64,
    deletes: Seq<i64>,
    ups: Seq<UpdateItemView>,
    news: Seq<NewItemView>,
    next: i64,
    now: i64,
) -> Seq<RowView<RequirementView>> {
    kept_rows(s, owner, deletes, ups, now) + created_rows(news, kp, owner, next, now)
}

/// The update that an item with an id stands for: every field rewritten but
/// `is_cut`, which keeps its value unless given.
pub open spec fn upsert_as_update(it: UpsertRequirementItem) -> UpdateItemView {
    UpdateItemView {
        id: it.id->Some_0,
        gate: Some(it.gate@),
        qty: Some(it.qty),
        is_cut: it.is_cut,
        runner_id: Some(it.runner_id),
    }
}

/// The create that an item without an id stands for.
pub open spec fn upsert_as_new(it: UpsertRequirementItem) -> NewItemView {
    NewItemView { gate: it.gate@, qty: it.qty, is_cut: it.is_cut, runner_id: it.runner_id }
}

/// Some item carries the id `id`.
pub open spec fn provided(items: Seq<UpsertRequirementItem>, id: i64) -> bool {
    exists|k: int| 0 <= k < items.len() && #[trigger] items[k].id == Some(id)
}

pub open spec fn not_provided(items: Seq<UpsertRequirementItem>) -> spec_fn(i64) -> bool {
    |id: i64| !provided(items, id)
}

pub open spec fn has_id() -> spec_fn(UpsertRequirementItem) -> bool {
    |it: UpsertRequirementItem| it.id is Some
}

pub open spec fn lacks_id() -> spec_fn(UpsertRequirementItem) -> bool {
    |it: UpsertRequirementItem| it.id is None
}

pub open spec fn to_update() -> spec_fn(UpsertRequirementItem) -> UpdateItemView {
    |it: UpsertRequirementItem| upsert_as_update(it)
}

pub open spec fn to_new() -> spec_fn(UpsertRequirementItem) -> NewItemView {
    |it: UpsertRequirementItem| upsert_as_new(it)
}

/// The existing ids that no item carries: the rows a compare-sync deletes.
pub open spec fn plan_deletes(existing: Seq<i64>, items: Seq<UpsertRequirementItem>) -> Seq<i64> {
    existing.filter(not_provided(items))
}

/// The items with an id, as updates, in list order.
pub open spec fn plan_updates(items: Seq<UpsertRequirementItem>) -> Seq<UpdateItemView> {
    items.filter(has_id()).map_values(to_update())
}

/// The items without an id, as creates, in list order.
pub open spec fn plan_news(items: Seq<UpsertRequirementItem>) -> Seq<NewItemView> {
    items.filter(lacks_id()).map_values(to_new())
}

/// Whether some item carries the id `id`.
pub fn is_provided(items: &Vec<UpsertRequirementItem>, id: i64) -> (r: bool)
    ensures
        r == provided(items@, id),
{
    let mut i: usize = 0;
    while i < items.len()
        invariant
            i <= items.len(),
            forall|k: int| 0 <= k < i ==> items@[k].id != Some(id),
        decreases items.len() - i,
    {
        if let Some(x) = items[i].id {
            if x == id {
                assert(items@[i as int].id == Some(id));
                return true;
            }
        }
        i = i + 1;
    }
    false
}

/// Splits a desired list into what a compare-sync deletes, updates and
/// creates: the existing ids that no item carries, the items with an id, and
/// the items without one.
pub fn plan_compare_sync(existing: &Vec<i64>, items: &Vec<UpsertRequirementItem>) -> (r: SyncPlan)
    ensures
        r.delete_ids@ == plan_deletes(existing@, items@),
        updates_view(r.update@) == plan_updates(items@),
        news_view(r.create@) == plan_news(items@),
{
    let mut delete_ids: Vec<i64> = Vec::new();
    let mut i: usize = 0;
    while i < existing.len()
        invariant
            i <= existing.len(),
            delete_ids@ == existing@.take(i as int).filter(not_provided(items@)),
        decreases existing.len() - i,
    {
        proof {
            lemma_filter_step(existing@, i as int, not_provided(items@));
        }
        if !is_provided(items, existing[i]) {
            delete_ids.push(existing[i]);
        }
        i = i + 1;
    }
    assert(existing@.take(existing@.len() as int) =~= existing@);
    let mut update: Vec<UpdateRequirementItem> = Vec::new();
    let mut create: Vec<NewRequirementItem> = Vec::new();
    let mut k: usize = 0;
    while k < items.len()
        invariant
            k <= items.len(),
            updates_view(update@) == items@.take(k as int).filter(has_id()).map_values(to_update()),
            news_view(create@) == items@.take(k as int).filter(lacks_id()).map_values(to_new()),
        decreases items.len() - k,
    {
        proof {
            lemma_filter_step(items@, k as int, has_id());
            lemma_filter_step(items@, k as int, lacks_id());
        }
        let ghost u0 = items@.take(k as int).filter(has_id());
        let ghost c0 = items@.take(k as int).filter(lacks_id());
        if items[k].id.is_some() {
            let u = items[k].as_update();
            let ghost uview = u@;
            let ghost before = update@;
            update.push(u);
            assert(update@ == before.push(u));
            assert(updates_view(update@) =~= updates_view(before).push(uview));
            assert(to_update()(items@[k as int]) == uview);
            assert(updates_view(update@) =~= u0.push(items@[k as int]).map_values(to_update()));
            assert(news_view(create@) =~= c0.map_values(to_new()));
        } else {
            let c = items[k].as_new();
            let ghost cview = c@;
            let ghost before = create@;
            create.push(c);
            assert(news_view(create@) =~= news_view(before).push(cview));
            assert(to_new()(items@[k as int]) == cview);
            assert(news_view(create@) =~= c0.push(items@[k as int]).map_values(to_new()));
            assert(updates_view(update@) =~= u0.map_values(to_update()));
        }
        k = k + 1;
    }
    assert(items@.take(items@.len() as int) =~= items@);
    SyncPlan { delete_ids, update, create }
}

/// What a compare-sync does, as three lists.
pub struct SyncPlan {
    pub delete_ids: Vec<i64>,
    pub update: Vec<UpdateRequirementItem>,
    pub create: Vec<NewRequirementItem>,
}

impl RequirementData {
    pub fn from_item(it: &NewRequirementItem, kp: i64) -> (r: RequirementData)
        ensures
            r@ == new_requirement(it@, kp),
    {
        RequirementData {
            gate: copy_tags(&it.gate),
            qty: it.qty as i64,
            is_cut: pick_flag(it.is_cut, false),
            runner_id: it.runner_id,
            kit_part_id: kp,
        }
    }

    pub fn patched(&self, u: &UpdateRequirementItem) -> (r: RequirementData)
        ensures
            r@ == patch_requirement(self@, u@),
    {
        let gate = match &u.gate {
            Some(g) => copy_tags(g),
            None => copy_tags(&self.gate),
        };
        let qty = match u.qty {
            Some(q) => q as i64,
            None => self.qty,
        };
        let runner_id = match u.runner_id {
            Some(x) => x,
            None => self.runner_id,
        };
        RequirementData {
            gate,
            qty,
            is_cut: pick_flag(u.is_cut, self.is_cut),
            runner_id,
            kit_part_id: self.kit_part_id,
        }
    }

    /// Applies, in order, the updates aimed at `id`; also tells whether any was.
    pub fn patched_by_all(&self, ups: &Vec<UpdateRequirementItem>, id: i64) -> (r: (
        RequirementData,
        bool,
    ))
        ensures
            r.0@ == apply_patches(self@, updates_view(ups@), id),
            r.1 == aimed_at(updates_view(ups@), id),
    {
        let mut d = self.duplicate();
        let mut hit = false;
        let mut k: usize = 0;
        while k < ups.len()
            invariant
                k <= ups.len(),
                d@ == apply_patches(self@, updates_view(ups@).take(k as int), id),
                hit == (exists|j: int| 0 <= j < k && #[trigger] updates_view(ups@)[j].id == id),
            decreases ups.len() - k,
        {
            assert(updates_view(ups@).take(k as int + 1).drop_last() =~= updates_view(ups@).take(
                k as int,
            ));
            assert(updates_view(ups@)[k as int] == ups@[k as int]@);
            let ghost before = hit;
            if ups[k].id == id {
                d = d.patched(&ups[k]);
                hit = true;
            }
            assert(hit == (exists|j: int| 0 <= j < k + 1 && #[trigger] updates_view(ups@)[j].id == id)) by {
                if before {
                    let j = choose|j: int| 0 <= j < k && #[trigger] updates_view(ups@)[j].id == id;
                    assert(updates_view(ups@)[j].id == id);
                } else if ups@[k as int].id == id {
                    assert(updates_view(ups@)[k as int].id == id);
                } else {
                    assert forall|j: int| 0 <= j < k + 1 implies !(#[trigger] updates_view(ups@)[j].id == id) by {
                        if j < k {
                            assert(!(updates_view(ups@)[j].id == id));
                        }
                    }
                }
            }
            k = k + 1;
        }
        assert(updates_view(ups@).take(ups@.len() as int) =~= updates_view(ups@));
        (d, hit)
    }
}

impl UpsertRequirementItem {
    pub fn as_update(&self) -> (r: UpdateRequirementItem)
        requires
            self.id is Some,
        ensures
            r@ == upsert_as_update(*self),
    {
        UpdateRequirementItem {
            id: self.id.unwrap(),
            gate: Some(copy_tags(&self.gate)),
            qty: Some(self.qty),
            is_cut: self.is_cut,
            runner_id: Some(self.runner_id),
        }
    }

    pub fn as_new(&self) -> (r: NewRequirementItem)
        ensures
            r@ == upsert_as_new(*self),
    {
        NewRequirementItem {
            gate: copy_tags(&self.gate),
            qty: self.qty,
            is_cut: self.is_cut,
            runner_id: self.runner_id,
        }
    }
}

} // verus!
