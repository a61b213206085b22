use vstd::prelude::*;

use crate::table::{Record, Row};
use crate::text::pick_text;

verus! {

/// What a sub-assembly row stores: its name and the kit it belongs to.
pub struct SubAssemblyData {
    pub name: String,
    pub kit_id: i64,
}

impl View for SubAssemblyData {
    type V = SubAssemblyData;

    open spec fn view(&self) -> SubAssemblyData {
        *self
    }
}

impl Record for SubAssemblyData {
    open spec fn parent_of(v: SubAssemblyData) -> Option<i64> {
        Some(v.kit_id)
    }

    fn duplicate(&self) -> (r: SubAssemblyData) {
        SubAssemblyData { name: self.name.clone(), kit_id: self.kit_id }
    }

    fn parent(&self) -> (r: Option<i64>) {
        Some(self.kit_id)
    }
}

/// A stored sub-assembly.
pub type SubAssembly = Row<SubAssemblyData>;

pub struct CreateSubAssemblyPayload {
    pub name: String,
    pub kit_id: i64,
}

/// A partial update: each field given overwrites the stored one.
pub struct UpdateSubAssemblyPayload {
    pub name: Option<String>,
    pub kit_id: Option<i64>,
}

/// Lists the sub-assemblies of one kit.
pub struct KitIdQuery {
    pub kit_id: i64,
}

pub open spec fn new_sub_assembly(p: CreateSubAssemblyPayload) -> SubAssemblyData {
    SubAssemblyData { name: p.name, kit_id: p.kit_id }
}

pub open spec fn patched_sub_assembly(d: SubAssemblyData, p: UpdateSubAssemblyPayload) -> SubAssemblyData {
    SubAssemblyData {
        name: match p.name {
            Some(n) => n,
            None => d.name,
        },
        kit_id: match p.kit_id {
            Some(k) => k,
            None => d.kit_id,
        },
    }
}

impl SubAssemblyData {
    pub fn from_payload(p: &CreateSubAssemblyPayload) -> (r: SubAssemblyData)
        ensures
            r == new_sub_assembly(*p),
    {
        SubAssemblyData { name: p.name.clone(), kit_id: p.kit_id }
    }

    pub fn patched(&self, p: &UpdateSubAssemblyPayload) -> (r: SubAssemblyData)
        ensures
            r == patched_sub_assembly(*self, *p),
    {
        let kit_id = match p.kit_id {
            Some(k) => k,
            None => self.kit_id,
        };
        SubAssemblyData { name: pick_text(&p.name, &self.name), kit_id }
    }
}

} // verus!
