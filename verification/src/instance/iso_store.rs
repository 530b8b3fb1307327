//! The ISO Store: a separate, read-only directory of installation and boot media. It shares
//! the name and containment rules of the Image Store and has no operation that writes.

use vstd::prelude::*;

use crate::instance::store_path;
use crate::instance::store_path::{
    DirItem, StoreEntry, StoreError, StoreLabels, StoreSnapshot,
};

verus! {

/// The wording of the ISO Store.
pub open spec fn iso_wording() -> store_path::LabelTexts {
    store_path::LabelTexts { store: "ISO Store"@, entry: "ISO"@, env_var: "QMP_MCP_ISO_DIR"@ }
}

/// The labels of the ISO Store.
pub fn iso_labels() -> (r: StoreLabels)
    ensures
        r@ == iso_wording(),
{
    StoreLabels { store: "ISO Store", entry: "ISO", env_var: "QMP_MCP_ISO_DIR" }
}

/// Validate that an ISO name is a single, safe path segment.
pub fn assert_valid_iso_name(name: &str) -> (r: Result<(), StoreError>)
    ensures
        store_path::refused(r, store_path::name_problem(name@, iso_wording())),
{
    store_path::assert_valid_store_name(name, &iso_labels())
}

/// Resolve an ISO name against the ISO Store and return its safe path, or a refusal.
pub fn resolve_iso_path(name: &str, store_dir: &str, snapshot: &StoreSnapshot) -> (r: Result<
    String,
    StoreError,
>)
    ensures
        store_path::path_agrees(
            r,
            store_path::resolution(name@, store_dir@, iso_wording(), *snapshot),
        ),
{
    store_path::resolve_in_store(name, store_dir, &iso_labels(), snapshot)
}

/// The store directory and the ISO media present in it, by name.
#[derive(Debug, Clone, PartialEq, Eq)]
pub struct IsoListing {
    /// The ISO Store directory, as configured.
    pub store: String,
    /// The ISO media present in the Store, sorted by name.
    pub isos: Vec<StoreEntry>,
}

/// The read-only ISO Store.
#[derive(Debug, Clone)]
pub struct IsoStore {
    /// The configured ISO Store directory.
    pub dir: String,
}

impl IsoStore {
    /// Construct a read-only ISO Store over the given directory.
    pub fn new(dir: String) -> (r: IsoStore)
        ensures
            r.dir@ == dir@,
    {
        IsoStore { dir }
    }

    /// List the ISOs in the Store from what was found when its directory was read.
    pub fn list(&self, found: Option<Vec<DirItem>>) -> (r: Result<IsoListing, StoreError>)
        ensures
            match (found, r) {
                (None, Err(e)) => e.0@ == store_path::missing_store(self.dir@, iso_wording()),
                (Some(items), Ok(l)) => l.store@ == self.dir@ && store_path::entry_texts(l.isos@)
                    == store_path::listing(items@),
                _ => false,
            },
    {
        match store_path::list_store_files(self.dir.as_str(), &iso_labels(), found) {
            Ok(isos) => Ok(IsoListing { store: self.dir.clone(), isos }),
            Err(e) => Err(e),
        }
    }
}

/// What is said of the ISO Store is said of ISOs, and names the setting of that store.
pub proof fn iso_wording_is_of_isos()
    ensures
        iso_wording().store == "ISO Store"@,
        iso_wording().entry == "ISO"@,
        iso_wording().env_var == "QMP_MCP_ISO_DIR"@,
{
}

} // verus!
