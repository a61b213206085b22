use vstd::prelude::*;

use crate::color::RunnerColor;
use crate::table::{Record, Row};
use crate::text::pick_text;

verus! {

/// What a runner row stores: a plastic frame of parts of one color in a kit.
pub struct RunnerData {
    pub name: String,
    pub kit_id: i64,
    pub color_id: i64,
    pub amount: i32,
    pub is_used: bool,
}

impl View for RunnerData {
    type V = RunnerData;

    open spec fn view(&self) -> RunnerData {
        *self
    }
}

impl Record for RunnerData {
    open spec fn parent_of(v: RunnerData) -> Option<i64> {
        Some(v.kit_id)
    }

    fn duplicate(&self) -> (r: RunnerData) {
        RunnerData {
            name: self.name.clone(),
            kit_id: self.kit_id,
            color_id: self.color_id,
            amount: self.amount,
            is_used: self.is_used,
        }
    }

    fn parent(&self) -> (r: Option<i64>) {
        Some(self.kit_id)
    }
}

/// A stored runner.
pub type Runner = Row<RunnerData>;

/// A stored runner together with its color.
pub struct RunnerWithColor {
    pub runner: Runner,
    pub color: Option<RunnerColor>,
}

pub struct CreateRunnerPayload {
    pub name: String,
    pub kit_id: i64,
    pub color_id: i64,
    pub amount: i32,
}

/// A partial update: each field given overwrites the stored one.
pub struct UpdateRunnerPayload {
    pub name: Option<String>,
    pub kit_id: Option<i64>,
    pub color_id: Option<i64>,
    pub amount: Option<i64>,
}

pub struct UpdateIsUsedPayload {
    pub is_used: bool,
}

/// A new runner starts out unused.
pub open spec fn new_runner(p: CreateRunnerPayload) -> RunnerData {
    RunnerData { name: p.name, kit_id: p.kit_id, color_id: p.color_id, amount: p.amount, is_used: false }
}

/// The amount of an update fits the stored 32-bit column.
pub open spec fn amount_fits(p: UpdateRunnerPayload) -> bool {
    match p.amount {
        Some(a) => i32::MIN <= a <= i32::MAX,
        None => true,
    }
}

pub open spec fn patched_runner(d: RunnerData, p: UpdateRunnerPayload) -> RunnerData {
    RunnerData {
        name: match p.name {
            Some(n) => n,
            None => d.name,
        },
        kit_id: match p.kit_id {
            Some(k) => k,
            None => d.kit_id,
        },
        color_id: match p.color_id {
            Some(c) => c,
            None => d.color_id,
        },
        amount: match p.amount {
            Some(a) => a as i32,
            None => d.amount,
        },
        is_used: d.is_used,
    }
}

impl UpdateRunnerPayload {
    pub fn amount_fits(&self) -> (r: bool)
        ensures
            r == amount_fits(*self),
    {
        match self.amount {
            Some(a) => i32::MIN as i64 <= a && a <= i32::MAX as i64,
            None => true,
        }
    }
}

impl RunnerData {
    pub fn from_payload(p: &CreateRunnerPayload) -> (r: RunnerData)
        ensures
            r == new_runner(*p),
    {
        RunnerData {
            name: p.name.clone(),
            kit_id: p.kit_id,
            color_id: p.color_id,
            amount: p.amount,
            is_used: false,
        }
    }

    pub fn patched(&self, p: &UpdateRunnerPayload) -> (r: RunnerData)
        requires
            amount_fits(*p),
        ensures
            r == patched_runner(*self, *p),
    {
        let kit_id = match p.kit_id {
            Some(k) => k,
            None => self.kit_id,
        };
        let color_id = match p.color_id {
            Some(c) => c,
            None => self.color_id,
        };
        let amount = match p.amount {
            Some(a) => a as i32,
            None => self.amount,
        };
        RunnerData {
            name: pick_text(&p.name, &self.name),
            kit_id,
            color_id,
            amount,
            is_used: self.is_used,
        }
    }

    pub fn with_used(&self, is_used: bool) -> (r: RunnerData)
        ensures
            r == (RunnerData { is_used, ..*self }),
    {
        RunnerData {
            name: self.name.clone(),
            kit_id: self.kit_id,
            color_id: self.color_id,
            amount: self.amount,
            is_used,
        }
    }
}

} // verus!
