//! The records the corpus scan produces: one entry per discovered version
//! file, and one assembled record per law.

use crate::date::Date;
use vstd::prelude::*;

verus! {

/// One on-disk version of a law: where the file lives, the law id, the
/// version's date and the version identifier from the file name.
#[derive(Debug, Hash, Eq)]
pub struct LawPatchInfo {
    /// Name of the directory the file lies in.
    pub dir_name: String,
    /// Name of the version file.
    pub file_name: String,
    /// Law id the version belongs to.
    pub id: String,
    /// Date the version was promulgated or amended.
    pub patch_date: Date,
    /// Version identifier from the file name.
    pub patch_id: String,
}

impl LawPatchInfo {
    /// Field-wise equality, strings by their characters.
    pub open spec fn eq_spec_fields(self, other: LawPatchInfo) -> bool {
        &&& self.dir_name@ == other.dir_name@
        &&& self.file_name@ == other.file_name@
        &&& self.id@ == other.id@
        &&& self.patch_date.eq_spec_fields(other.patch_date)
        &&& self.patch_id@ == other.patch_id@
    }
}

impl Clone for LawPatchInfo {
    fn clone(&self) -> (r: Self)
        ensures
            r == *self,
    {
        LawPatchInfo {
            dir_name: self.dir_name.clone(),
            file_name: self.file_name.clone(),
            id: self.id.clone(),
            patch_date: self.patch_date,
            patch_id: self.patch_id.clone(),
        }
    }
}

impl PartialEq for LawPatchInfo {
    fn eq(&self, other: &LawPatchInfo) -> (r: bool) {
        self.dir_name == other.dir_name && self.file_name == other.file_name && self.id == other.id
            && self.patch_date == other.patch_date && self.patch_id == other.patch_id
    }
}

impl vstd::std_specs::cmp::PartialEqSpecImpl for LawPatchInfo {
    open spec fn obeys_eq_spec() -> bool {
        true
    }

    open spec fn eq_spec(&self, other: &LawPatchInfo) -> bool {
        self.eq_spec_fields(*other)
    }
}

/// The assembled record for one law: its promulgation date, the path of the
/// file its fields were read from, its name, its law number, its id, and the
/// full list of known versions.
#[derive(Debug)]
pub struct LawData {
    /// Promulgation date.
    pub date: Date,
    /// Path of the version file the fields were extracted from.
    pub file: String,
    /// Law name (title).
    pub name: String,
    /// Law number.
    pub num: String,
    /// Law id.
    pub id: String,
    /// Known versions of the law.
    pub patch: Vec<LawPatchInfo>,
}

impl Clone for LawData {
    fn clone(&self) -> (r: Self)
        ensures
            r.date == self.date,
            r.file@ == self.file@,
            r.name@ == self.name@,
            r.num@ == self.num@,
            r.id@ == self.id@,
            r.patch@ == self.patch@,
    {
        let mut patch: Vec<LawPatchInfo> = Vec::new();
        let mut i: usize = 0;
        while i < self.patch.len()
            invariant
                0 <= i <= self.patch@.len(),
                patch@ =~= self.patch@.subrange(0, i as int),
            decreases self.patch@.len() - i,
        {
            patch.push(self.patch[i].clone());
            i += 1;
        }
        proof {
            assert(self.patch@.subrange(0, self.patch@.len() as int) =~= self.patch@);
        }
        LawData {
            date: self.date,
            file: self.file.clone(),
            name: self.name.clone(),
            num: self.num.clone(),
            id: self.id.clone(),
            patch,
        }
    }
}

/// One row of the external identifier registry: the canonical id and name
/// of a law, keyed in the registry by its law number.
#[derive(Debug, Hash, Eq)]
pub struct LawId {
    /// Canonical law id.
    pub id: String,
    /// Canonical law name.
    pub name: String,
}

impl Clone for LawId {
    fn clone(&self) -> (r: Self)
        ensures
            r == *self,
    {
        LawId { id: self.id.clone(), name: self.name.clone() }
    }
}

impl PartialEq for LawId {
    fn eq(&self, other: &LawId) -> (r: bool) {
        self.id == other.id && self.name == other.name
    }
}

impl vstd::std_specs::cmp::PartialEqSpecImpl for LawId {
    open spec fn obeys_eq_spec() -> bool {
        true
    }

    open spec fn eq_spec(&self, other: &LawId) -> bool {
        self.id@ == other.id@ && self.name@ == other.name@
    }
}

} // verus!
