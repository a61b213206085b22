use vstd::prelude::*;

use crate::color::{ColorData, CreateColorPayload, UpdateColorPayload, Color, RunnerColor, new_color, patched_color};
use crate::error::StoreError;
use crate::kit::{
    CreateKitPayload, Kit, KitData, KitQuery, KitStatus, UpdateKitPayload, UpdateStatusPayload,
    new_kit, patched_kit,
};
use crate::kit_part::{
    CreateKitPartPayload, KitPart, KitPartData, KitPartWithSubAssembly, KitPartWithSubAssemblyAndRequirements, UpdateKitPartPayload, new_kit_part, patched_kit_part,
};
use crate::requirement::{KitPartRequirementWithRunner, KitPartWithRequirements, RequirementData};
use crate::runner::{
    CreateRunnerPayload, Runner, RunnerData, RunnerWithColor, UpdateIsUsedPayload,
    UpdateRunnerPayload, amount_fits, new_runner, patched_runner,
};
use crate::steam::{
    CreateSteamAppGamePayload, SteamGame, SteamGameData, UpdateSteamAppGamePayload, new_steam_game,
    patched_steam_game,
};
use crate::sub_assembly::{
    CreateSubAssemblyPayload, SubAssembly, SubAssemblyData, UpdateSubAssemblyPayload,
    new_sub_assembly, patched_sub_assembly,
};
use crate::table::{
    MAX_ID, Record, RowView, Table, fresh, reversed, lemma_filter_step, owns, position, rows_view, selection, touched,
};

verus! {

/// The kits of a listing: those of `owner`, narrowed to one status if asked.
pub open spec fn kit_listing(s: Seq<RowView<KitData>>, owner: i64, status: Option<KitStatus>) -> Seq<
    RowView<KitData>,
> {
    s.filter(
        |r: RowView<KitData>|
            r.user_id == owner && (status is None || status == Some(r.data.status)),
    )
}

/// A kit part of `owner` in kit `kit_id`.
pub open spec fn part_in_kit(owner: i64, kit_id: i64) -> spec_fn(RowView<KitPartData>) -> bool {
    |r: RowView<KitPartData>| r.user_id == owner && r.data.kit_id == kit_id
}

/// The color `id` of `owner` as a runner shows it, if `owner` holds it.
pub open spec fn color_of(colors: Table<ColorData>, owner: i64, id: i64) -> Option<RunnerColor> {
    if owns(colors@, owner, id) {
        Some(RunnerColor::of(colors.rows@[position(colors@, owner, id)]))
    } else {
        None
    }
}

/// `target`, if given, names a resource of `owner`.
pub open spec fn refers_to<V>(s: Seq<RowView<V>>, owner: i64, target: Option<i64>) -> bool {
    match target {
        Some(t) => owns(s, owner, t),
        None => true,
    }
}

fn check_ref<T: Record>(t: &Table<T>, owner: i64, target: Option<i64>) -> (r: bool)
    requires
        t.wf(),
    ensures
        r == refers_to(t@, owner, target),
{
    match target {
        Some(x) => t.contains(owner, x),
        None => true,
    }
}

/// All resources of all principals, one table per kind.
pub struct Inventory {
    pub kits: Table<KitData>,
    pub sub_assemblies: Table<SubAssemblyData>,
    pub kit_parts: Table<KitPartData>,
    pub runners: Table<RunnerData>,
    pub colors: Table<ColorData>,
    pub requirements: Table<RequirementData>,
    pub steam_games: Table<SteamGameData>,
}

/// A kit together with its runners.
pub struct KitWithRunners {
    pub kit: Kit,
    pub runners: Vec<Runner>,
}

impl Inventory {
    pub open spec fn wf(&self) -> bool {
        &&& self.kits.wf()
        &&& self.sub_assemblies.wf()
        &&& self.kit_parts.wf()
        &&& self.runners.wf()
        &&& self.colors.wf()
        &&& self.requirements.wf()
        &&& self.steam_games.wf()
    }

    pub fn new() -> (r: Inventory)
        ensures
            r.wf(),
            r.kits@.len() == 0,
            r.kits.next_id == 1,
            r.sub_assemblies@.len() == 0,
            r.sub_assemblies.next_id == 1,
            r.kit_parts@.len() == 0,
            r.kit_parts.next_id == 1,
            r.runners@.len() == 0,
            r.runners.next_id == 1,
            r.colors@.len() == 0,
            r.colors.next_id == 1,
            r.requirements@.len() == 0,
            r.requirements.next_id == 1,
            r.steam_games@.len() == 0,
            r.steam_games.next_id == 1,
    {
        Inventory {
            kits: Table::new(),
            sub_assemblies: Table::new(),
            kit_parts: Table::new(),
            runners: Table::new(),
            colors: Table::new(),
            requirements: Table::new(),
            steam_games: Table::new(),
        }
    }

    // ----- kits -----

    /// Creates a kit of `owner`; it starts out pending.
    pub fn create_kit(&mut self, owner: i64, p: &CreateKitPayload, now: i64) -> (r: Result<
        Kit,
        StoreError,
    >)
        requires
            old(self).wf(),
        ensures
            final(self).wf(),
            r is Ok <==> old(self).kits.next_id < MAX_ID,
            r matches Ok(k) ==> {
                &&& k@ == fresh(old(self).kits.next_id, owner, new_kit(*p), now)
                &&& final(self).kits@ == old(self).kits@.push(k@)
                &&& final(self).kits.next_id == old(self).kits.next_id + 1
                &&& *final(self) == (Inventory { kits: final(self).kits, ..*old(self) })
            },
            r matches Err(e) ==> e == StoreError::StorageFault && *final(self) == *old(self),
    {
        self.kits.insert(owner, KitData::from_payload(p), now)
    }

    pub fn get_kit(&self, owner: i64, id: i64) -> (r: Result<Kit, StoreError>)
        requires
            self.wf(),
        ensures
            r is Ok <==> owns(self.kits@, owner, id),
            r matches Ok(k) ==> k@ == self.kits@[position(self.kits@, owner, id)],
            r matches Err(e) ==> e == StoreError::NotFound,
    {
        self.kits.get(owner, id)
    }

    /// The kits of `owner` in creation order, narrowed to `q.status` if given.
    pub fn list_kits(&self, owner: i64, q: &KitQuery) -> (r: Vec<Kit>)
        requires
            self.wf(),
        ensures
            rows_view(r@) == kit_listing(self.kits@, owner, q.status),
    {
        let mut out: Vec<Kit> = Vec::new();
        let mut i: usize = 0;
        while i < self.kits.rows.len()
            invariant
                i <= self.kits.rows.len(),
                rows_view(out@) == kit_listing(self.kits@.take(i as int), owner, q.status),
            decreases self.kits.rows.len() - i,
        {
            let row = &self.kits.rows[i];
            let keep = row.user_id == owner && match q.status {
                None => true,
                Some(s) => s == row.data.status,
            };
            proof {
                let s = self.kits@.take(i as int + 1);
                assert(s.drop_last() =~= self.kits@.take(i as int));
                assert(s.last() == row@);
                reveal(Seq::filter);
            }
            if keep {
                out.push(row.duplicate());
            }
            assert(rows_view(out@) =~= kit_listing(self.kits@.take(i as int + 1), owner, q.status));
            i = i + 1;
        }
        assert(self.kits@.take(self.kits@.len() as int) =~= self.kits@);
        out
    }

    /// Overwrites the fields given in `p`, keeps the others.
    pub fn update_kit(&mut self, owner: i64, id: i64, p: &UpdateKitPayload, now: i64) -> (r: Result<
        Kit,
        StoreError,
    >)
        requires
            old(self).wf(),
        ensures
            final(self).wf(),
            r is Ok <==> owns(old(self).kits@, owner, id),
            r matches Ok(k) ==> {
                let i = position(old(self).kits@, owner, id);
                let row = old(self).kits@[i];
                &&& k@ == touched(row, patched_kit(row.data, *p), now)
                &&& final(self).kits@ == old(self).kits@.update(i, k@)
                &&& final(self).kits.next_id == old(self).kits.next_id
                &&& *final(self) == (Inventory { kits: final(self).kits, ..*old(self) })
            },
            r matches Err(e) ==> e == StoreError::NotFound && *final(self) == *old(self),
    {
        let cur = self.kits.get(owner, id)?;
        self.kits.replace(owner, id, cur.data.patched(p), now)
    }

    /// Sets the status; any status may follow any other.
    pub fn update_kit_status(
        &mut self,
        owner: i64,
        id: i64,
        p: &UpdateStatusPayload,
        now: i64,
    ) -> (r: Result<Kit, StoreError>)
        requires
            old(self).wf(),
        ensures
            final(self).wf(),
            r is Ok <==> owns(old(self).kits@, owner, id),
            r matches Ok(k) ==> {
                let i = position(old(self).kits@, owner, id);
                let row = old(self).kits@[i];
                &&& k@ == touched(row, KitData { status: p.status, ..row.data }, now)
                &&& final(self).kits@ == old(self).kits@.update(i, k@)
                &&& final(self).kits.next_id == old(self).kits.next_id
                &&& *final(self) == (Inventory { kits: final(self).kits, ..*old(self) })
            },
            r matches Err(e) ==> e == StoreError::NotFound && *final(self) == *old(self),
    {
        let cur = self.kits.get(owner, id)?;
        self.kits.replace(owner, id, cur.data.with_status(p.status), now)
    }

    pub fn delete_kit(&mut self, owner: i64, id: i64) -> (r: Result<(), StoreError>)
        requires
            old(self).wf(),
        ensures
            final(self).wf(),
            r is Ok <==> owns(old(self).kits@, owner, id),
            r is Ok ==> {
                &&& final(self).kits@ == old(self).kits@.remove(position(old(self).kits@, owner, id))
                &&& final(self).kits.next_id == old(self).kits.next_id
                &&& *final(self) == (Inventory { kits: final(self).kits, ..*old(self) })
            },
            r matches Err(e) ==> e == StoreError::NotFound && *final(self) == *old(self),
    {
        self.kits.remove(owner, id)
    }

    /// A kit of `owner` with the runners of `owner` under it.
    pub fn get_kit_with_runners(&self, owner: i64, id: i64) -> (r: Result<KitWithRunners, StoreError>)
        requires
            self.wf(),
        ensures
            r is Ok <==> owns(self.kits@, owner, id),
            r matches Ok(kr) ==> {
                &&& kr.kit@ == self.kits@[position(self.kits@, owner, id)]
                &&& rows_view(kr.runners@) == selection::<RunnerData>(self.runners@, owner, Some(id))
            },
            r matches Err(e) ==> e == StoreError::NotFound,
    {
        let kit = self.kits.get(owner, id)?;
        let runners = self.runners.select(owner, Some(id));
        Ok(KitWithRunners { kit, runners })
    }

    // ----- sub-assemblies -----
    pub fn create_sub_assembly(&mut self, owner: i64, p: &CreateSubAssemblyPayload, now: i64) -> (r: Result<
        SubAssembly,
        StoreError,
    >)
        requires
            old(self).wf(),
        ensures
            final(self).wf(),
            r is Ok <==> owns(old(self).kits@, owner, p.kit_id) && old(self).sub_assemblies.next_id < MAX_ID,
            r matches Ok(x) ==> {
                &&& x@ == fresh(old(self).sub_assemblies.next_id, owner, new_sub_assembly(*p), now)
                &&& final(self).sub_assemblies@ == old(self).sub_assemblies@.push(x@)
                &&& final(self).sub_assemblies.next_id == old(self).sub_assemblies.next_id + 1
                &&& *final(self) == (Inventory { sub_assemblies: final(self).sub_assemblies, ..*old(self) })
            },
            r matches Err(e) ==> e == (if owns(old(self).kits@, owner, p.kit_id) { StoreError::StorageFault } else { StoreError::NotFound }) && *final(self) == *old(self),
    {
        if !self.kits.contains(owner, p.kit_id) {
            return Err(StoreError::NotFound);
        }
        self.sub_assemblies.insert(owner, SubAssemblyData::from_payload(p), now)
    }

    pub fn get_sub_assembly_by_id(&self, owner: i64, id: i64) -> (r: Result<SubAssembly, StoreError>)
        requires
            self.wf(),
        ensures
            r is Ok <==> owns(self.sub_assemblies@, owner, id),
            r matches Ok(x) ==> x@ == self.sub_assemblies@[position(self.sub_assemblies@, owner, id)],
            r matches Err(e) ==> e == StoreError::NotFound,
    {
        self.sub_assemblies.get(owner, id)
    }

    /// The sub-assemblies of `owner` under `parent`, in creation order.
    pub fn get_all_sub_assemblies_for_kit(&self, owner: i64, parent: i64) -> (r: Vec<SubAssembly>)
        requires
            self.wf(),
        ensures
            rows_view(r@) == selection::<SubAssemblyData>(self.sub_assemblies@, owner, Some(parent)),
    {
        self.sub_assemblies.select(owner, Some(parent))
    }

    /// Overwrites the fields given in `p`, keeps the others.
    pub fn update_sub_assembly(&mut self, owner: i64, id: i64, p: &UpdateSubAssemblyPayload, now: i64) -> (r: Result<
        SubAssembly,
        StoreError,
    >)
        requires
            old(self).wf(),
        ensures
            final(self).wf(),
            r is Ok <==> owns(old(self).sub_assemblies@, owner, id) && refers_to(old(self).kits@, owner, p.kit_id),
            r matches Ok(x) ==> {
                let i = position(old(self).sub_assemblies@, owner, id);
                let row = old(self).sub_assemblies@[i];
                &&& x@ == touched(row, patched_sub_assembly(row.data, *p), now)
                &&& final(self).sub_assemblies@ == old(self).sub_assemblies@.update(i, x@)
                &&& final(self).sub_assemblies.next_id == old(self).sub_assemblies.next_id
                &&& *final(self) == (Inventory { sub_assemblies: final(self).sub_assemblies, ..*old(self) })
            },
            r matches Err(e) ==> e == StoreError::NotFound && *final(self) == *old(self),
    {
        if !check_ref(&self.kits, owner, p.kit_id) {
            return Err(StoreError::NotFound);
        }
        let cur = self.sub_assemblies.get(owner, id)?;
        self.sub_assemblies.replace(owner, id, cur.data.patched(p), now)
    }

    pub fn delete_sub_assembly(&mut self, owner: i64, id: i64) -> (r: Result<(), StoreError>)
        requires
            old(self).wf(),
        ensures
            final(self).wf(),
            r is Ok <==> owns(old(self).sub_assemblies@, owner, id),
            r is Ok ==> {
                &&& final(self).sub_assemblies@ == old(self).sub_assemblies@.remove(position(old(self).sub_assemblies@, owner, id))
                &&& final(self).sub_assemblies.next_id == old(self).sub_assemblies.next_id
                &&& *final(self) == (Inventory { sub_assemblies: final(self).sub_assemblies, ..*old(self) })
            },
            r matches Err(e) ==> e == StoreError::NotFound && *final(self) == *old(self),
    {
        self.sub_assemblies.remove(owner, id)
    }

    // ----- kit parts -----
    pub fn create_kit_part(&mut self, owner: i64, p: &CreateKitPartPayload, now: i64) -> (r: Result<
        KitPart,
        StoreError,
    >)
        requires
            old(self).wf(),
        ensures
            final(self).wf(),
            r is Ok <==> owns(old(self).kits@, owner, p.kit_id) && owns(old(self).sub_assemblies@, owner, p.sub_assembly_id) && old(self).kit_parts.next_id < MAX_ID,
            r matches Ok(x) ==> {
                &&& x@ == fresh(old(self).kit_parts.next_id, owner, new_kit_part(*p), now)
                &&& final(self).kit_parts@ == old(self).kit_parts@.push(x@)
                &&& final(self).kit_parts.next_id == old(self).kit_parts.next_id + 1
                &&& *final(self) == (Inventory { kit_parts: final(self).kit_parts, ..*old(self) })
            },
            r matches Err(e) ==> e == (if owns(old(self).kits@, owner, p.kit_id) && owns(old(self).sub_assemblies@, owner, p.sub_assembly_id) { StoreError::StorageFault } else { StoreError::NotFound }) && *final(self) == *old(self),
    {
        if !self.kits.contains(owner, p.kit_id) {
            return Err(StoreError::NotFound);
        }
        if !self.sub_assemblies.contains(owner, p.sub_assembly_id) {
            return Err(StoreError::NotFound);
        }
        self.kit_parts.insert(owner, KitPartData::from_payload(p), now)
    }

    pub fn get_kit_part_by_id(&self, owner: i64, id: i64) -> (r: Result<KitPart, StoreError>)
        requires
            self.wf(),
        ensures
            r is Ok <==> owns(self.kit_parts@, owner, id),
            r matches Ok(x) ==> x@ == self.kit_parts@[position(self.kit_parts@, owner, id)],
            r matches Err(e) ==> e == StoreError::NotFound,
    {
        self.kit_parts.get(owner, id)
    }

    /// The kit parts of `owner` under `parent`, in creation order.
    pub fn get_all_kit_parts_for_sub_assembly(&self, owner: i64, parent: i64) -> (r: Vec<KitPart>)
        requires
            self.wf(),
        ensures
            rows_view(r@) == selection::<KitPartData>(self.kit_parts@, owner, Some(parent)),
    {
        self.kit_parts.select(owner, Some(parent))
    }

    /// Overwrites the fields given in `p`, keeps the others.
    pub fn update_kit_part(&mut self, owner: i64, id: i64, p: &UpdateKitPartPayload, now: i64) -> (r: Result<
        KitPart,
        StoreError,
    >)
        requires
            old(self).wf(),
        ensures
            final(self).wf(),
            r is Ok <==> owns(old(self).kit_parts@, owner, id),
            r matches Ok(x) ==> {
                let i = position(old(self).kit_parts@, owner, id);
                let row = old(self).kit_parts@[i];
                &&& x@ == touched(row, patched_kit_part(row.data, *p), now)
                &&& final(self).kit_parts@ == old(self).kit_parts@.update(i, x@)
                &&& final(self).kit_parts.next_id == old(self).kit_parts.next_id
                &&& *final(self) == (Inventory { kit_parts: final(self).kit_parts, ..*old(self) })
            },
            r matches Err(e) ==> e == StoreError::NotFound && *final(self) == *old(self),
    {
        let cur = self.kit_parts.get(owner, id)?;
        self.kit_parts.replace(owner, id, cur.data.patched(p), now)
    }

    pub fn delete_kit_part(&mut self, owner: i64, id: i64) -> (r: Result<(), StoreError>)
        requires
            old(self).wf(),
        ensures
            final(self).wf(),
            r is Ok <==> owns(old(self).kit_parts@, owner, id),
            r is Ok ==> {
                &&& final(self).kit_parts@ == old(self).kit_parts@.remove(position(old(self).kit_parts@, owner, id))
                &&& final(self).kit_parts.next_id == old(self).kit_parts.next_id
                &&& *final(self) == (Inventory { kit_parts: final(self).kit_parts, ..*old(self) })
            },
            r matches Err(e) ==> e == StoreError::NotFound && *final(self) == *old(self),
    {
        self.kit_parts.remove(owner, id)
    }

    // ----- runners -----
    pub fn create_runner(&mut self, owner: i64, p: &CreateRunnerPayload, now: i64) -> (r: Result<
        Runner,
        StoreError,
    >)
        requires
            old(self).wf(),
        ensures
            final(self).wf(),
            r is Ok <==> owns(old(self).kits@, owner, p.kit_id) && owns(old(self).colors@, owner, p.color_id) && old(self).runners.next_id < MAX_ID,
            r matches Ok(x) ==> {
                &&& x@ == fresh(old(self).runners.next_id, owner, new_runner(*p), now)
                &&& final(self).runners@ == old(self).runners@.push(x@)
                &&& final(self).runners.next_id == old(self).runners.next_id + 1
                &&& *final(self) == (Inventory { runners: final(self).runners, ..*old(self) })
            },
            r matches Err(e) ==> e == (if owns(old(self).kits@, owner, p.kit_id) && owns(old(self).colors@, owner, p.color_id) { StoreError::StorageFault } else { StoreError::NotFound }) && *final(self) == *old(self),
    {
        if !self.kits.contains(owner, p.kit_id) {
            return Err(StoreError::NotFound);
        }
        if !self.colors.contains(owner, p.color_id) {
            return Err(StoreError::NotFound);
        }
        self.runners.insert(owner, RunnerData::from_payload(p), now)
    }

    pub fn get_runner_by_id(&self, owner: i64, id: i64) -> (r: Result<Runner, StoreError>)
        requires
            self.wf(),
        ensures
            r is Ok <==> owns(self.runners@, owner, id),
            r matches Ok(x) ==> x@ == self.runners@[position(self.runners@, owner, id)],
            r matches Err(e) ==> e == StoreError::NotFound,
    {
        self.runners.get(owner, id)
    }

    /// The runners of `owner` under `parent`, in creation order.
    pub fn get_all_runners_for_kit(&self, owner: i64, parent: i64) -> (r: Vec<Runner>)
        requires
            self.wf(),
        ensures
            rows_view(r@) == selection::<RunnerData>(self.runners@, owner, Some(parent)),
    {
        self.runners.select(owner, Some(parent))
    }

    /// Overwrites the fields given in `p`, keeps the others.
    pub fn update_runner(&mut self, owner: i64, id: i64, p: &UpdateRunnerPayload, now: i64) -> (r: Result<
        Runner,
        StoreError,
    >)
        requires
            old(self).wf(),
        ensures
            final(self).wf(),
            r is Ok <==> owns(old(self).runners@, owner, id) && amount_fits(*p) && refers_to(old(self).kits@, owner, p.kit_id) && refers_to(old(self).colors@, owner, p.color_id),
            r matches Ok(x) ==> {
                let i = position(old(self).runners@, owner, id);
                let row = old(self).runners@[i];
                &&& x@ == touched(row, patched_runner(row.data, *p), now)
                &&& final(self).runners@ == old(self).runners@.update(i, x@)
                &&& final(self).runners.next_id == old(self).runners.next_id
                &&& *final(self) == (Inventory { runners: final(self).runners, ..*old(self) })
            },
            r matches Err(e) ==> e == (if !amount_fits(*p) { StoreError::ValidationFailure } else { StoreError::NotFound }) && *final(self) == *old(self),
    {
        if !p.amount_fits() {
            return Err(StoreError::ValidationFailure);
        }
        if !check_ref(&self.kits, owner, p.kit_id) {
            return Err(StoreError::NotFound);
        }
        if !check_ref(&self.colors, owner, p.color_id) {
            return Err(StoreError::NotFound);
        }
        let cur = self.runners.get(owner, id)?;
        self.runners.replace(owner, id, cur.data.patched(p), now)
    }

    pub fn delete_runner(&mut self, owner: i64, id: i64) -> (r: Result<(), StoreError>)
        requires
            old(self).wf(),
        ensures
            final(self).wf(),
            r is Ok <==> owns(old(self).runners@, owner, id),
            r is Ok ==> {
                &&& final(self).runners@ == old(self).runners@.remove(position(old(self).runners@, owner, id))
                &&& final(self).runners.next_id == old(self).runners.next_id
                &&& *final(self) == (Inventory { runners: final(self).runners, ..*old(self) })
            },
            r matches Err(e) ==> e == StoreError::NotFound && *final(self) == *old(self),
    {
        self.runners.remove(owner, id)
    }

    // ----- colors -----
    pub fn create_color(&mut self, owner: i64, p: &CreateColorPayload, now: i64) -> (r: Result<
        Color,
        StoreError,
    >)
        requires
            old(self).wf(),
        ensures
            final(self).wf(),
            r is Ok <==> old(self).colors.next_id < MAX_ID,
            r matches Ok(x) ==> {
                &&& x@ == fresh(old(self).colors.next_id, owner, new_color(*p), now)
                &&& final(self).colors@ == old(self).colors@.push(x@)
                &&& final(self).colors.next_id == old(self).colors.next_id + 1
                &&& *final(self) == (Inventory { colors: final(self).colors, ..*old(self) })
            },
            r matches Err(e) ==> e == StoreError::StorageFault && *final(self) == *old(self),
    {
        self.colors.insert(owner, ColorData::from_payload(p), now)
    }

    pub fn get_color_by_id(&self, owner: i64, id: i64) -> (r: Result<Color, StoreError>)
        requires
            self.wf(),
        ensures
            r is Ok <==> owns(self.colors@, owner, id),
            r matches Ok(x) ==> x@ == self.colors@[position(self.colors@, owner, id)],
            r matches Err(e) ==> e == StoreError::NotFound,
    {
        self.colors.get(owner, id)
    }

    /// The colors of `owner`, in creation order.
    pub fn get_colors(&self, owner: i64) -> (r: Vec<Color>)
        requires
            self.wf(),
        ensures
            rows_view(r@) == selection::<ColorData>(self.colors@, owner, None),
    {
        self.colors.select(owner, None)
    }

    /// Overwrites the fields given in `p`, keeps the others.
    pub fn update_color(&mut self, owner: i64, id: i64, p: &UpdateColorPayload, now: i64) -> (r: Result<
        Color,
        StoreError,
    >)
        requires
            old(self).wf(),
        ensures
            final(self).wf(),
            r is Ok <==> owns(old(self).colors@, owner, id),
            r matches Ok(x) ==> {
                let i = position(old(self).colors@, owner, id);
                let row = old(self).colors@[i];
                &&& x@ == touched(row, patched_color(row.data, *p), now)
                &&& final(self).colors@ == old(self).colors@.update(i, x@)
                &&& final(self).colors.next_id == old(self).colors.next_id
                &&& *final(self) == (Inventory { colors: final(self).colors, ..*old(self) })
            },
            r matches Err(e) ==> e == StoreError::NotFound && *final(self) == *old(self),
    {
        let cur = self.colors.get(owner, id)?;
        self.colors.replace(owner, id, cur.data.patched(p), now)
    }

    pub fn delete_color(&mut self, owner: i64, id: i64) -> (r: Result<(), StoreError>)
        requires
            old(self).wf(),
        ensures
            final(self).wf(),
            r is Ok <==> owns(old(self).colors@, owner, id),
            r is Ok ==> {
                &&& final(self).colors@ == old(self).colors@.remove(position(old(self).colors@, owner, id))
                &&& final(self).colors.next_id == old(self).colors.next_id
                &&& *final(self) == (Inventory { colors: final(self).colors, ..*old(self) })
            },
            r matches Err(e) ==> e == StoreError::NotFound && *final(self) == *old(self),
    {
        self.colors.remove(owner, id)
    }

    // ----- games -----
    pub fn create_steam_game(&mut self, owner: i64, p: &CreateSteamAppGamePayload, now: i64) -> (r: Result<
        SteamGame,
        StoreError,
    >)
        requires
            old(self).wf(),
        ensures
            final(self).wf(),
            r is Ok <==> old(self).steam_games.next_id < MAX_ID,
            r matches Ok(x) ==> {
                &&& x@ == fresh(old(self).steam_games.next_id, owner, new_steam_game(*p), now)
                &&& final(self).steam_games@ == old(self).steam_games@.push(x@)
                &&& final(self).steam_games.next_id == old(self).steam_games.next_id + 1
                &&& *final(self) == (Inventory { steam_games: final(self).steam_games, ..*old(self) })
            },
            r matches Err(e) ==> e == StoreError::StorageFault && *final(self) == *old(self),
    {
        self.steam_games.insert(owner, SteamGameData::from_payload(p), now)
    }

    pub fn get_steam_game(&self, owner: i64, id: i64) -> (r: Result<SteamGame, StoreError>)
        requires
            self.wf(),
        ensures
            r is Ok <==> owns(self.steam_games@, owner, id),
            r matches Ok(x) ==> x@ == self.steam_games@[position(self.steam_games@, owner, id)],
            r matches Err(e) ==> e == StoreError::NotFound,
    {
        self.steam_games.get(owner, id)
    }

    /// The games of `owner`, newest first: by identifier, descending.
    pub fn list_steam_games(&self, owner: i64) -> (r: Vec<SteamGame>)
        requires
            self.wf(),
        ensures
            rows_view(r@) == reversed(selection::<SteamGameData>(self.steam_games@, owner, None)),
    {
        let sel = self.steam_games.select(owner, None);
        let n = sel.len();
        let mut out: Vec<SteamGame> = Vec::new();
        let mut k: usize = 0;
        while k < n
            invariant
                n == sel.len(),
                k <= n,
                rows_view(out@) == reversed(rows_view(sel@)).take(k as int),
            decreases n - k,
        {
            let row = sel[n - 1 - k].duplicate();
            let ghost prev = out@;
            out.push(row);
            assert(rows_view(out@) =~= reversed(rows_view(sel@)).take(k as int + 1)) by {
                assert(rows_view(out@) =~= rows_view(prev).push(sel@[n - 1 - k]@));
            }
            k = k + 1;
        }
        assert(reversed(rows_view(sel@)).take(n as int) =~= reversed(rows_view(sel@)));
        out
    }

    /// Overwrites the fields given in `p`, keeps the others.
    pub fn update_steam_game(&mut self, owner: i64, id: i64, p: &UpdateSteamAppGamePayload, now: i64) -> (r: Result<
        SteamGame,
        StoreError,
    >)
        requires
            old(self).wf(),
        ensures
            final(self).wf(),
            r is Ok <==> owns(old(self).steam_games@, owner, id),
            r matches Ok(x) ==> {
                let i = position(old(self).steam_games@, owner, id);
                let row = old(self).steam_games@[i];
                &&& x@ == touched(row, patched_steam_game(row.data, *p), now)
                &&& final(self).steam_games@ == old(self).steam_games@.update(i, x@)
                &&& final(self).steam_games.next_id == old(self).steam_games.next_id
                &&& *final(self) == (Inventory { steam_games: final(self).steam_games, ..*old(self) })
            },
            r matches Err(e) ==> e == StoreError::NotFound && *final(self) == *old(self),
    {
        let cur = self.steam_games.get(owner, id)?;
        self.steam_games.replace(owner, id, cur.data.patched(p), now)
    }

    pub fn delete_steam_game(&mut self, owner: i64, id: i64) -> (r: Result<(), StoreError>)
        requires
            old(self).wf(),
        ensures
            final(self).wf(),
            r is Ok <==> owns(old(self).steam_games@, owner, id),
            r is Ok ==> {
                &&& final(self).steam_games@ == old(self).steam_games@.remove(position(old(self).steam_games@, owner, id))
                &&& final(self).steam_games.next_id == old(self).steam_games.next_id
                &&& *final(self) == (Inventory { steam_games: final(self).steam_games, ..*old(self) })
            },
            r matches Err(e) ==> e == StoreError::NotFound && *final(self) == *old(self),
    {
        self.steam_games.remove(owner, id)
    }

    /// Marks a kit part of `owner` as cut or not.
    pub fn update_kit_part_is_cut(&mut self, owner: i64, id: i64, is_cut: bool, now: i64) -> (r: Result<
        KitPart,
        StoreError,
    >)
        requires
            old(self).wf(),
        ensures
            final(self).wf(),
            r is Ok <==> owns(old(self).kit_parts@, owner, id),
            r matches Ok(x) ==> {
                let i = position(old(self).kit_parts@, owner, id);
                let row = old(self).kit_parts@[i];
                &&& x@ == touched(row, KitPartData { is_cut, ..row.data }, now)
                &&& final(self).kit_parts@ == old(self).kit_parts@.update(i, x@)
                &&& final(self).kit_parts.next_id == old(self).kit_parts.next_id
                &&& *final(self) == (Inventory { kit_parts: final(self).kit_parts, ..*old(self) })
            },
            r matches Err(e) ==> e == StoreError::NotFound && *final(self) == *old(self),
    {
        let p = UpdateKitPartPayload { code: None, is_cut: Some(is_cut) };
        self.update_kit_part(owner, id, &p, now)
    }

    /// Marks a runner of `owner` as used or not.
    pub fn update_runner_is_used(
        &mut self,
        owner: i64,
        id: i64,
        p: &UpdateIsUsedPayload,
        now: i64,
    ) -> (r: Result<Runner, StoreError>)
        requires
            old(self).wf(),
        ensures
            final(self).wf(),
            r is Ok <==> owns(old(self).runners@, owner, id),
            r matches Ok(x) ==> {
                let i = position(old(self).runners@, owner, id);
                let row = old(self).runners@[i];
                &&& x@ == touched(row, RunnerData { is_used: p.is_used, ..row.data }, now)
                &&& final(self).runners@ == old(self).runners@.update(i, x@)
                &&& final(self).runners.next_id == old(self).runners.next_id
                &&& *final(self) == (Inventory { runners: final(self).runners, ..*old(self) })
            },
            r matches Err(e) ==> e == StoreError::NotFound && *final(self) == *old(self),
    {
        let cur = self.runners.get(owner, id)?;
        self.runners.replace(owner, id, cur.data.with_used(p.is_used), now)
    }

    /// All runners of `owner`, in creation order.
    pub fn get_all_runners(&self, owner: i64) -> (r: Vec<Runner>)
        requires
            self.wf(),
        ensures
            rows_view(r@) == selection::<RunnerData>(self.runners@, owner, None),
    {
        self.runners.select(owner, None)
    }

    /// The runners of `owner` under kit `kit_id`, in creation order, each with
    /// its color when that color is one of `owner`'s, `None` otherwise.
    pub fn get_all_runners_with_color_for_kit(&self, owner: i64, kit_id: i64) -> (r: Vec<
        RunnerWithColor,
    >)
        requires
            self.wf(),
        ensures
            r@.map_values(|x: RunnerWithColor| x.runner@) == selection::<RunnerData>(
                self.runners@,
                owner,
                Some(kit_id),
            ),
            forall|k: int|
                0 <= k < r@.len() ==> (#[trigger] r@[k]).color == color_of(
                    self.colors,
                    owner,
                    r@[k].runner.data.color_id,
                ),
    {
        let runners = self.runners.select(owner, Some(kit_id));
        let ghost sel = rows_view(runners@);
        let mut out: Vec<RunnerWithColor> = Vec::new();
        let mut i: usize = 0;
        while i < runners.len()
            invariant
                self.wf(),
                i <= runners.len(),
                sel == rows_view(runners@),
                out@.map_values(|x: RunnerWithColor| x.runner@) == sel.take(i as int),
                forall|k: int|
                    0 <= k < out@.len() ==> (#[trigger] out@[k]).color == color_of(
                        self.colors,
                        owner,
                        out@[k].runner.data.color_id,
                    ),
            decreases runners.len() - i,
        {
            let ghost prev = out@;
            assert(sel[i as int] == runners@[i as int]@);
            let color = match self.colors.find(owner, runners[i].data.color_id) {
                Some(c) => Some(RunnerColor::from_color(&self.colors.rows[c])),
                None => None,
            };
            let runner = runners[i].duplicate();
            out.push(RunnerWithColor { runner, color });
            assert(out@.map_values(|x: RunnerWithColor| x.runner@) =~= prev.map_values(
                |x: RunnerWithColor| x.runner@,
            ).push(sel[i as int]));
            assert(sel.take(i as int + 1) =~= sel.take(i as int).push(sel[i as int]));
            i = i + 1;
        }
        assert(sel.take(sel.len() as int) =~= sel);
        out
    }

    /// A kit part of `owner` with its requirements.
    pub fn get_kit_part_by_id_with_requirements(&self, owner: i64, id: i64) -> (r: Result<
        KitPartWithRequirements,
        StoreError,
    >)
        requires
            self.wf(),
        ensures
            r is Ok <==> owns(self.kit_parts@, owner, id),
            r matches Ok(x) ==> {
                &&& x.kit_part@ == self.kit_parts@[position(self.kit_parts@, owner, id)]
                &&& rows_view(x.requirements@) == selection::<RequirementData>(
                    self.requirements@,
                    owner,
                    Some(id),
                )
            },
            r matches Err(e) ==> e == StoreError::NotFound,
    {
        let kit_part = self.kit_parts.get(owner, id)?;
        let requirements = self.requirements.select(owner, Some(id));
        Ok(KitPartWithRequirements { kit_part, requirements })
    }

    /// A kit part of `owner` with the sub-assembly of `owner` it belongs to.
    pub fn get_kit_part_with_sub_assembly(&self, owner: i64, id: i64) -> (r: Result<
        KitPartWithSubAssembly,
        StoreError,
    >)
        requires
            self.wf(),
        ensures
            r is Ok <==> owns(self.kit_parts@, owner, id) && owns(
                self.sub_assemblies@,
                owner,
                self.kit_parts@[position(self.kit_parts@, owner, id)].data.sub_assembly_id,
            ),
            r matches Ok(x) ==> {
                let part = self.kit_parts@[position(self.kit_parts@, owner, id)];
                &&& x.kit_part@ == part
                &&& x.sub_assembly@ == self.sub_assemblies@[position(
                    self.sub_assemblies@,
                    owner,
                    part.data.sub_assembly_id,
                )]
            },
            r matches Err(e) ==> e == StoreError::NotFound,
    {
        let kit_part = self.kit_parts.get(owner, id)?;
        let sub_assembly = self.sub_assemblies.get(owner, kit_part.data.sub_assembly_id)?;
        Ok(KitPartWithSubAssembly { kit_part, sub_assembly })
    }

    /// The requirements of `owner` under kit part `kit_part_id`, in creation
    /// order, each with its runner when that runner is one of `owner`'s,
    /// `None` otherwise.
    pub fn get_all_requirements_with_join_runner_for_kit_part(&self, owner: i64, kit_part_id: i64) -> (r: Vec<
        KitPartRequirementWithRunner,
    >)
        requires
            self.wf(),
        ensures
            r@.map_values(|x: KitPartRequirementWithRunner| x.requirement@) == selection::<
                RequirementData,
            >(self.requirements@, owner, Some(kit_part_id)),
            forall|k: int|
                0 <= k < r@.len() ==> ((#[trigger] r@[k]).runner is Some <==> owns(
                    self.runners@,
                    owner,
                    r@[k].requirement.data.runner_id,
                )),
            forall|k: int|
                0 <= k < r@.len() ==> ((#[trigger] r@[k]).runner matches Some(x) ==> x@ == self.runners@[position(
                    self.runners@,
                    owner,
                    r@[k].requirement.data.runner_id,
                )]),
    {
        let reqs = self.requirements.select(owner, Some(kit_part_id));
        let ghost sel = rows_view(reqs@);
        let mut out: Vec<KitPartRequirementWithRunner> = Vec::new();
        let mut i: usize = 0;
        while i < reqs.len()
            invariant
                self.wf(),
                i <= reqs.len(),
                sel == rows_view(reqs@),
                out@.map_values(|x: KitPartRequirementWithRunner| x.requirement@) == sel.take(i as int),
                forall|k: int|
                    0 <= k < out@.len() ==> ((#[trigger] out@[k]).runner is Some <==> owns(
                        self.runners@,
                        owner,
                        out@[k].requirement.data.runner_id,
                    )),
                forall|k: int|
                    0 <= k < out@.len() ==> ((#[trigger] out@[k]).runner matches Some(x) ==> x@
                        == self.runners@[position(self.runners@, owner, out@[k].requirement.data.runner_id)]),
            decreases reqs.len() - i,
        {
            let ghost prev = out@;
            assert(sel[i as int] == reqs@[i as int]@);
            let runner = match self.runners.get(owner, reqs[i].data.runner_id) {
                Ok(x) => Some(x),
                Err(_) => None,
            };
            let requirement = reqs[i].duplicate();
            out.push(KitPartRequirementWithRunner { requirement, runner });
            assert(out@.map_values(|x: KitPartRequirementWithRunner| x.requirement@) =~= prev.map_values(
                |x: KitPartRequirementWithRunner| x.requirement@,
            ).push(sel[i as int]));
            assert(sel.take(i as int + 1) =~= sel.take(i as int).push(sel[i as int]));
            i = i + 1;
        }
        assert(sel.take(sel.len() as int) =~= sel);
        out
    }

    /// The kit parts of `owner` in kit `kit_id`, in creation order, each with
    /// its sub-assembly when that is one of `owner`'s (`None` otherwise) and
    /// its requirements of `owner`.
    pub fn get_all_kit_parts_for_kit_with_requirements(&self, owner: i64, kit_id: i64) -> (r: Vec<
        KitPartWithSubAssemblyAndRequirements,
    >)
        requires
            self.wf(),
        ensures
            r@.map_values(|x: KitPartWithSubAssemblyAndRequirements| x.kit_part@) == self.kit_parts@.filter(
                part_in_kit(owner, kit_id),
            ),
            forall|k: int|
                0 <= k < r@.len() ==> {
                    &&& ((#[trigger] r@[k]).sub_assembly is Some <==> owns(
                        self.sub_assemblies@,
                        owner,
                        r@[k].kit_part.data.sub_assembly_id,
                    ))
                    &&& (r@[k].sub_assembly matches Some(sa) ==> sa@ == self.sub_assemblies@[position(
                        self.sub_assemblies@,
                        owner,
                        r@[k].kit_part.data.sub_assembly_id,
                    )])
                    &&& rows_view(r@[k].requirements@) == selection::<RequirementData>(
                        self.requirements@,
                        owner,
                        Some(r@[k].kit_part.id),
                    )
                },
    {
        let mut out: Vec<KitPartWithSubAssemblyAndRequirements> = Vec::new();
        let mut i: usize = 0;
        while i < self.kit_parts.rows.len()
            invariant
                self.wf(),
                i <= self.kit_parts.rows.len(),
                out@.map_values(|x: KitPartWithSubAssemblyAndRequirements| x.kit_part@) == self.kit_parts@.take(
                    i as int,
                ).filter(part_in_kit(owner, kit_id)),
                forall|k: int|
                    0 <= k < out@.len() ==> {
                        &&& ((#[trigger] out@[k]).sub_assembly is Some <==> owns(
                            self.sub_assemblies@,
                            owner,
                            out@[k].kit_part.data.sub_assembly_id,
                        ))
                        &&& (out@[k].sub_assembly matches Some(sa) ==> sa@ == self.sub_assemblies@[position(
                            self.sub_assemblies@,
                            owner,
                            out@[k].kit_part.data.sub_assembly_id,
                        )])
                        &&& rows_view(out@[k].requirements@) == selection::<RequirementData>(
                            self.requirements@,
                            owner,
                            Some(out@[k].kit_part.id),
                        )
                    },
            decreases self.kit_parts.rows.len() - i,
        {
            proof {
                lemma_filter_step(self.kit_parts@, i as int, part_in_kit(owner, kit_id));
            }
            let ghost prev = out@;
            let part = &self.kit_parts.rows[i];
            assert(self.kit_parts@[i as int] == part@);
            if part.user_id == owner && part.data.kit_id == kit_id {
                let sub_assembly = match self.sub_assemblies.get(owner, part.data.sub_assembly_id) {
                    Ok(sa) => Some(sa),
                    Err(_) => None,
                };
                let requirements = self.requirements.select(owner, Some(part.id));
                let kit_part = part.duplicate();
                out.push(KitPartWithSubAssemblyAndRequirements { kit_part, sub_assembly, requirements });
                assert(out@.map_values(|x: KitPartWithSubAssemblyAndRequirements| x.kit_part@) =~= prev.map_values(
                    |x: KitPartWithSubAssemblyAndRequirements| x.kit_part@,
                ).push(part@));
            }
            i = i + 1;
        }
        assert(self.kit_parts@.take(self.kit_parts@.len() as int) =~= self.kit_parts@);
        out
    }
}

} // verus!
