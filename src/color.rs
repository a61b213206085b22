use vstd::prelude::*;

use crate::table::{Record, Row};
use crate::text::pick_text;

verus! {

/// What a color row stores.
pub struct ColorData {
    pub name: String,
    pub code: String,
    pub hex: String,
    pub is_clear: bool,
    pub is_multi: bool,
}

impl View for ColorData {
    type V = ColorData;

    open spec fn view(&self) -> ColorData {
        *self
    }
}

impl Record for ColorData {
    open spec fn parent_of(v: ColorData) -> Option<i64> {
        None
    }

    fn duplicate(&self) -> (r: ColorData) {
        ColorData {
            name: self.name.clone(),
            code: self.code.clone(),
            hex: self.hex.clone(),
            is_clear: self.is_clear,
            is_multi: self.is_multi,
        }
    }

    fn parent(&self) -> (r: Option<i64>) {
        None
    }
}

/// A stored color.
pub type Color = Row<ColorData>;

/// A new color; the flags default to `false`.
pub struct CreateColorPayload {
    pub name: String,
    pub code: String,
    pub hex: String,
    pub is_clear: Option<bool>,
    pub is_multi: Option<bool>,
}

/// A partial update: each field given overwrites the stored one.
pub struct UpdateColorPayload {
    pub name: Option<String>,
    pub code: Option<String>,
    pub hex: Option<String>,
    pub is_clear: Option<bool>,
    pub is_multi: Option<bool>,
}

/// A color as it appears nested in a runner.
pub struct RunnerColor {
    pub id: i64,
    pub name: String,
    pub code: String,
    pub hex: String,
    pub is_clear: bool,
    pub is_multi: bool,
}

pub open spec fn flag_or(given: Option<bool>, current: bool) -> bool {
    match given {
        Some(b) => b,
        None => current,
    }
}

pub open spec fn text_or(given: Option<String>, current: String) -> String {
    match given {
        Some(s) => s,
        None => current,
    }
}

pub open spec fn new_color(p: CreateColorPayload) -> ColorData {
    ColorData {
        name: p.name,
        code: p.code,
        hex: p.hex,
        is_clear: flag_or(p.is_clear, false),
        is_multi: flag_or(p.is_multi, false),
    }
}

pub open spec fn patched_color(d: ColorData, p: UpdateColorPayload) -> ColorData {
    ColorData {
        name: text_or(p.name, d.name),
        code: text_or(p.code, d.code),
        hex: text_or(p.hex, d.hex),
        is_clear: flag_or(p.is_clear, d.is_clear),
        is_multi: flag_or(p.is_multi, d.is_multi),
    }
}

pub fn pick_flag(given: Option<bool>, current: bool) -> (r: bool)
    ensures
        r == flag_or(given, current),
{
    match given {
        Some(b) => b,
        None => current,
    }
}

impl ColorData {
    pub fn from_payload(p: &CreateColorPayload) -> (r: ColorData)
        ensures
            r == new_color(*p),
    {
        ColorData {
            name: p.name.clone(),
            code: p.code.clone(),
            hex: p.hex.clone(),
            is_clear: pick_flag(p.is_clear, false),
            is_multi: pick_flag(p.is_multi, false),
        }
    }

    pub fn patched(&self, p: &UpdateColorPayload) -> (r: ColorData)
        ensures
            r == patched_color(*self, *p),
    {
        ColorData {
            name: pick_text(&p.name, &self.name),
            code: pick_text(&p.code, &self.code),
            hex: pick_text(&p.hex, &self.hex),
            is_clear: pick_flag(p.is_clear, self.is_clear),
            is_multi: pick_flag(p.is_multi, self.is_multi),
        }
    }
}

impl RunnerColor {
    pub open spec fn of(c: Color) -> RunnerColor {
        RunnerColor {
            id: c.id,
            name: c.data.name,
            code: c.data.code,
            hex: c.data.hex,
            is_clear: c.data.is_clear,
            is_multi: c.data.is_multi,
        }
    }

    pub fn from_color(c: &Color) -> (r: RunnerColor)
        ensures
            r == RunnerColor::of(*c),
    {
        RunnerColor {
            id: c.id,
            name: c.data.name.clone(),
            code: c.data.code.clone(),
            hex: c.data.hex.clone(),
            is_clear: c.data.is_clear,
            is_multi: c.data.is_multi,
        }
    }
}

} // verus!
