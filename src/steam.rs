use vstd::prelude::*;

use crate::color::flag_or;
use crate::color::pick_flag;
use crate::table::{Record, Row};
use crate::text::{copy_opt, pick_opt, pick_text};

verus! {

/// What a tracked store game row stores.
pub struct SteamGameData {
    pub app_id: i64,
    pub name: String,
    pub steam_db_url: Option<String>,
    pub is_buy: bool,
}

impl View for SteamGameData {
    type V = SteamGameData;

    open spec fn view(&self) -> SteamGameData {
        *self
    }
}

impl Record for SteamGameData {
    open spec fn parent_of(v: SteamGameData) -> Option<i64> {
        None
    }

    fn duplicate(&self) -> (r: SteamGameData) {
        SteamGameData {
            app_id: self.app_id,
            name: self.name.clone(),
            steam_db_url: copy_opt(&self.steam_db_url),
            is_buy: self.is_buy,
        }
    }

    fn parent(&self) -> (r: Option<i64>) {
        None
    }
}

/// A stored game.
pub type SteamGame = Row<SteamGameData>;

pub struct CreateSteamAppGamePayload {
    pub app_id: u32,
    pub name: String,
    pub steam_db_url: Option<String>,
}

/// A partial update: each field given overwrites the stored one.
pub struct UpdateSteamAppGamePayload {
    pub name: Option<String>,
    pub steam_db_url: Option<String>,
    pub is_buy: Option<bool>,
}

/// A new game starts out not bought.
pub open spec fn new_steam_game(p: CreateSteamAppGamePayload) -> SteamGameData {
    SteamGameData { app_id: p.app_id as i64, name: p.name, steam_db_url: p.steam_db_url, is_buy: false }
}

pub open spec fn patched_steam_game(d: SteamGameData, p: UpdateSteamAppGamePayload) -> SteamGameData {
    SteamGameData {
        app_id: d.app_id,
        name: match p.name {
            Some(n) => n,
            None => d.name,
        },
        steam_db_url: match p.steam_db_url {
            Some(u) => Some(u),
            None => d.steam_db_url,
        },
        is_buy: flag_or(p.is_buy, d.is_buy),
    }
}

impl SteamGameData {
    pub fn from_payload(p: &CreateSteamAppGamePayload) -> (r: SteamGameData)
        ensures
            r == new_steam_game(*p),
    {
        SteamGameData {
            app_id: p.app_id as i64,
            name: p.name.clone(),
            steam_db_url: copy_opt(&p.steam_db_url),
            is_buy: false,
        }
    }

    pub fn patched(&self, p: &UpdateSteamAppGamePayload) -> (r: SteamGameData)
        ensures
            r == patched_steam_game(*self, *p),
    {
        SteamGameData {
            app_id: self.app_id,
            name: pick_text(&p.name, &self.name),
            steam_db_url: pick_opt(&p.steam_db_url, &self.steam_db_url),
            is_buy: pick_flag(p.is_buy, self.is_buy),
        }
    }
}

} // verus!
