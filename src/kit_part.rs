use vstd::prelude::*;

use crate::requirement::KitPartRequirement;
use crate::sub_assembly::SubAssembly;
use crate::table::{Record, Row};
use crate::text::{copy_opt, pick_opt};

verus! {

/// What a kit-part row stores: its code, whether it has been cut from its
/// runner, and where it belongs.
pub struct KitPartData {
    pub code: Option<String>,
    pub is_cut: bool,
    pub kit_id: i64,
    pub sub_assembly_id: i64,
}

impl View for KitPartData {
    type V = KitPartData;

    open spec fn view(&self) -> KitPartData {
        *self
    }
}

impl Record for KitPartData {
    open spec fn parent_of(v: KitPartData) -> Option<i64> {
        Some(v.sub_assembly_id)
    }

    fn duplicate(&self) -> (r: KitPartData) {
        KitPartData {
            code: copy_opt(&self.code),
            is_cut: self.is_cut,
            kit_id: self.kit_id,
            sub_assembly_id: self.sub_assembly_id,
        }
    }

    fn parent(&self) -> (r: Option<i64>) {
        Some(self.sub_assembly_id)
    }
}

/// A stored kit part.
pub type KitPart = Row<KitPartData>;

/// A kit part with the sub-assembly it belongs to and its requirements.
pub struct KitPartWithSubAssemblyAndRequirements {
    pub kit_part: KitPart,
    pub sub_assembly: Option<SubAssembly>,
    pub requirements: Vec<KitPartRequirement>,
}

/// A kit part with the sub-assembly it belongs to.
pub struct KitPartWithSubAssembly {
    pub kit_part: KitPart,
    pub sub_assembly: SubAssembly,
}

pub struct CreateKitPartPayload {
    pub code: Option<String>,
    pub kit_id: i64,
    pub sub_assembly_id: i64,
}

/// A partial update: each field given overwrites the stored one.
pub struct UpdateKitPartPayload {
    pub code: Option<String>,
    pub is_cut: Option<bool>,
}

/// Lists the kit parts of one sub-assembly.
pub struct SubAssemblyIdQuery {
    pub sub_assembly_id: i64,
}

/// A new kit part starts out not cut.
pub open spec fn new_kit_part(p: CreateKitPartPayload) -> KitPartData {
    KitPartData { code: p.code, is_cut: false, kit_id: p.kit_id, sub_assembly_id: p.sub_assembly_id }
}

pub open spec fn patched_kit_part(d: KitPartData, p: UpdateKitPartPayload) -> KitPartData {
    KitPartData {
        code: match p.code {
            Some(c) => Some(c),
            None => d.code,
        },
        is_cut: match p.is_cut {
            Some(b) => b,
            None => d.is_cut,
        },
        ..d
    }
}

impl KitPartData {
    pub fn from_payload(p: &CreateKitPartPayload) -> (r: KitPartData)
        ensures
            r == new_kit_part(*p),
    {
        KitPartData {
            code: copy_opt(&p.code),
            is_cut: false,
            kit_id: p.kit_id,
            sub_assembly_id: p.sub_assembly_id,
        }
    }

    pub fn patched(&self, p: &UpdateKitPartPayload) -> (r: KitPartData)
        ensures
            r == patched_kit_part(*self, *p),
    {
        let is_cut = match p.is_cut {
            Some(b) => b,
            None => self.is_cut,
        };
        KitPartData {
            code: pick_opt(&p.code, &self.code),
            is_cut,
            kit_id: self.kit_id,
            sub_assembly_id: self.sub_assembly_id,
        }
    }
}

} // verus!
