use vstd::prelude::*;

use crate::error::StoreError;
use crate::table::{Record, Row};
use crate::text::same_text;

verus! {

/// Where a kit stands in its build. Any state may follow any other.
#[derive(Debug, Clone, Copy, PartialEq, Eq, Structural)]
pub enum KitStatus {
    Pending,
    InProgress,
    Done,
}

/// The grade line a kit belongs to.
#[derive(Debug, Clone, Copy, PartialEq, Eq, Structural)]
pub enum KitGrade {
    Eg,
    Hg,
    Rg,
    Mg,
    Mgsd,
    Pg,
    Other,
}

/// The stored spelling of each status.
pub open spec fn status_text(s: KitStatus) -> Seq<char> {
    match s {
        KitStatus::Pending => "pending"@,
        KitStatus::InProgress => "in_progress"@,
        KitStatus::Done => "done"@,
    }
}

/// The stored spelling of each grade.
pub open spec fn grade_text(g: KitGrade) -> Seq<char> {
    match g {
        KitGrade::Eg => "eg"@,
        KitGrade::Hg => "hg"@,
        KitGrade::Rg => "rg"@,
        KitGrade::Mg => "mg"@,
        KitGrade::Mgsd => "mgsd"@,
        KitGrade::Pg => "pg"@,
        KitGrade::Other => "other"@,
    }
}

/// The status whose stored spelling is `t`, if any.
pub open spec fn status_named(t: Seq<char>) -> Option<KitStatus> {
    if t == "pending"@ {
        Some(KitStatus::Pending)
    } else if t == "in_progress"@ {
        Some(KitStatus::InProgress)
    } else if t == "done"@ {
        Some(KitStatus::Done)
    } else {
        None
    }
}

/// The grade whose stored spelling is `t`, if any.
pub open spec fn grade_named(t: Seq<char>) -> Option<KitGrade> {
    if t == "eg"@ {
        Some(KitGrade::Eg)
    } else if t == "hg"@ {
        Some(KitGrade::Hg)
    } else if t == "rg"@ {
        Some(KitGrade::Rg)
    } else if t == "mg"@ {
        Some(KitGrade::Mg)
    } else if t == "mgsd"@ {
        Some(KitGrade::Mgsd)
    } else if t == "pg"@ {
        Some(KitGrade::Pg)
    } else if t == "other"@ {
        Some(KitGrade::Other)
    } else {
        None
    }
}

/// Each status reads back from its stored spelling.
pub proof fn lemma_status_text_round_trip(k: KitStatus)
    ensures
        status_named(status_text(k)) == Some(k),
{
    reveal_strlit("pending");
    reveal_strlit("in_progress");
    reveal_strlit("done");
    assert("pending"@[0] == 'p' && "in_progress"@[0] == 'i' && "done"@[0] == 'd');
}

/// Each grade reads back from its stored spelling.
pub proof fn lemma_grade_text_round_trip(g: KitGrade)
    ensures
        grade_named(grade_text(g)) == Some(g),
{
    reveal_strlit("eg");
    reveal_strlit("hg");
    reveal_strlit("rg");
    reveal_strlit("mg");
    reveal_strlit("mgsd");
    reveal_strlit("pg");
    reveal_strlit("other");
    assert("eg"@[0] == 'e' && "hg"@[0] == 'h' && "rg"@[0] == 'r' && "pg"@[0] == 'p' && "other"@[0] == 'o');
    assert("mg"@[0] == 'm' && "mgsd"@[0] == 'm' && "mg"@.len() == 2 && "mgsd"@.len() == 4);
}

impl KitStatus {
    pub fn as_str(&self) -> (r: &'static str)
        ensures
            r@ == status_text(*self),
    {
        match self {
            KitStatus::Pending => "pending",
            KitStatus::InProgress => "in_progress",
            KitStatus::Done => "done",
        }
    }

    /// The status spelled `s`; `ValidationFailure` for any other text.
    pub fn parse(s: &str) -> (r: Result<KitStatus, StoreError>)
        ensures
            r matches Ok(k) ==> status_named(s@) == Some(k),
            r is Err <==> status_named(s@) is None,
            r matches Err(e) ==> e == StoreError::ValidationFailure,
    {
        proof {
            reveal_strlit("pending");
            reveal_strlit("in_progress");
            reveal_strlit("done");
        }
        if same_text(s, "pending") {
            Ok(KitStatus::Pending)
        } else if same_text(s, "in_progress") {
            Ok(KitStatus::InProgress)
        } else if same_text(s, "done") {
            Ok(KitStatus::Done)
        } else {
            Err(StoreError::ValidationFailure)
        }
    }
}

impl KitGrade {
    pub fn as_str(&self) -> (r: &'static str)
        ensures
            r@ == grade_text(*self),
    {
        match self {
            KitGrade::Eg => "eg",
            KitGrade::Hg => "hg",
            KitGrade::Rg => "rg",
            KitGrade::Mg => "mg",
            KitGrade::Mgsd => "mgsd",
            KitGrade::Pg => "pg",
            KitGrade::Other => "other",
        }
    }

    /// The grade spelled `s`; `ValidationFailure` for any other text.
    pub fn parse(s: &str) -> (r: Result<KitGrade, StoreError>)
        ensures
            r matches Ok(g) ==> grade_named(s@) == Some(g),
            r is Err <==> grade_named(s@) is None,
            r matches Err(e) ==> e == StoreError::ValidationFailure,
    {
        proof {
            reveal_strlit("eg");
            reveal_strlit("hg");
            reveal_strlit("rg");
            reveal_strlit("mg");
            reveal_strlit("mgsd");
            reveal_strlit("pg");
            reveal_strlit("other");
        }
        if same_text(s, "eg") {
            Ok(KitGrade::Eg)
        } else if same_text(s, "hg") {
            Ok(KitGrade::Hg)
        } else if same_text(s, "rg") {
            Ok(KitGrade::Rg)
        } else if same_text(s, "mg") {
            Ok(KitGrade::Mg)
        } else if same_text(s, "mgsd") {
            Ok(KitGrade::Mgsd)
        } else if same_text(s, "pg") {
            Ok(KitGrade::Pg)
        } else if same_text(s, "other") {
            Ok(KitGrade::Other)
        } else {
            Err(StoreError::ValidationFailure)
        }
    }
}

/// What a kit row stores besides its bookkeeping.
pub struct KitData {
    pub name: String,
    pub grade: KitGrade,
    pub status: KitStatus,
}

impl View for KitData {
    type V = KitData;

    open spec fn view(&self) -> KitData {
        *self
    }
}

impl Record for KitData {
    open spec fn parent_of(v: KitData) -> Option<i64> {
        None
    }

    fn duplicate(&self) -> (r: KitData) {
        KitData { name: self.name.clone(), grade: self.grade, status: self.status }
    }

    fn parent(&self) -> (r: Option<i64>) {
        None
    }
}

/// A stored kit.
pub type Kit = Row<KitData>;

pub struct CreateKitPayload {
    pub name: String,
    pub grade: KitGrade,
}

/// A partial update: each field given overwrites the stored one.
pub struct UpdateKitPayload {
    pub name: Option<String>,
    pub grade: Option<KitGrade>,
}

pub struct UpdateStatusPayload {
    pub status: KitStatus,
}

/// Narrows a kit listing to one status.
pub struct KitQuery {
    pub status: Option<KitStatus>,
}

/// A new kit always starts out pending, whatever the caller wanted.
pub open spec fn new_kit(p: CreateKitPayload) -> KitData {
    KitData { name: p.name, grade: p.grade, status: KitStatus::Pending }
}

pub open spec fn patched_kit(d: KitData, p: UpdateKitPayload) -> KitData {
    KitData {
        name: match p.name {
            Some(n) => n,
            None => d.name,
        },
        grade: match p.grade {
            Some(g) => g,
            None => d.grade,
        },
        status: d.status,
    }
}

impl KitData {
    pub fn from_payload(p: &CreateKitPayload) -> (r: KitData)
        ensures
            r == new_kit(*p),
    {
        KitData { name: p.name.clone(), grade: p.grade, status: KitStatus::Pending }
    }

    pub fn patched(&self, p: &UpdateKitPayload) -> (r: KitData)
        ensures
            r == patched_kit(*self, *p),
    {
        let name = match &p.name {
            Some(n) => n.clone(),
            None => self.name.clone(),
        };
        let grade = match p.grade {
            Some(g) => g,
            None => self.grade,
        };
        KitData { name, grade, status: self.status }
    }

    pub fn with_status(&self, status: KitStatus) -> (r: KitData)
        ensures
            r == (KitData { status, ..*self }),
    {
        KitData { name: self.name.clone(), grade: self.grade, status }
    }
}

} // verus!
