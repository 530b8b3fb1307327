//! The boundary that both stores share. Images and ISOs are referenced by name only, never
//! by host path: a name is a single safe segment, and it resolves to a path directly inside
//! the store's real directory, never through a symbolic link that leads out of it.

use vstd::prelude::*;

use crate::config;
use crate::text;

verus! {

/// Raised for any store-boundary violation.
#[derive(Debug, Clone, PartialEq, Eq)]
pub struct StoreError(pub String);

/// Per-store wording that makes the messages of this boundary actionable.
#[derive(Debug, Clone, Copy)]
pub struct StoreLabels {
    /// The store's display name, e.g. `Image Store` or `ISO Store`.
    pub store: &'static str,
    /// The noun for a single entry, e.g. `Disk image` or `ISO`.
    pub entry: &'static str,
    /// The variable that configures the store directory.
    pub env_var: &'static str,
}

/// The texts of a store's labels.
pub struct LabelTexts {
    /// The store's display name.
    pub store: Seq<char>,
    /// The noun for a single entry.
    pub entry: Seq<char>,
    /// The variable that configures the store directory.
    pub env_var: Seq<char>,
}

impl View for StoreLabels {
    type V = LabelTexts;

    open spec fn view(&self) -> LabelTexts {
        LabelTexts { store: self.store@, entry: self.entry@, env_var: self.env_var@ }
    }
}

/// The rule for store names, as error messages show it.
pub const VALID_STORE_NAME: &'static str = "^[A-Za-z0-9][A-Za-z0-9._-]*$";

/// How a name that breaks the rule is explained.
pub const STORE_NAME_HELP: &'static str =
    " — a single segment of letters, digits, dot, underscore, or hyphen, with no leading hyphen and no comma, '=', ':', or spaces (these could inject QEMU -drive properties).";

/// A result without a value agrees with the message that the specification gives, if any.
pub open spec fn refused(r: Result<(), StoreError>, problem: Option<Seq<char>>) -> bool {
    match (r, problem) {
        (Ok(_), None) => true,
        (Err(e), Some(m)) => e.0@ == m,
        _ => false,
    }
}

/// A path, or a refusal, is what the specification gives.
pub open spec fn path_agrees(
    r: Result<String, StoreError>,
    s: Result<Seq<char>, Seq<char>>,
) -> bool {
    match (r, s) {
        (Ok(p), Ok(q)) => p@ == q,
        (Err(e), Err(m)) => e.0@ == m,
        _ => false,
    }
}

// ---------------------------------------------------------------------------
// Names
// ---------------------------------------------------------------------------

/// What is wrong with a store name, if anything.
pub open spec fn name_problem(name: Seq<char>, labels: LabelTexts) -> Option<Seq<char>> {
    if text::is_blank(name) {
        Some(labels.entry + " name must be a non-empty string."@)
    } else if name.contains('\0') {
        Some(labels.entry + " name \""@ + name + "\" contains a NUL byte."@)
    } else if name[0] == '/' {
        Some(
            labels.entry + " name \""@ + name + "\" must be a bare name inside the "@ + labels.store
                + ", not an absolute path."@,
        )
    } else if name == "."@ || name == ".."@ {
        Some(labels.entry + " name \""@ + name + "\" is not a valid file name."@)
    } else if name.contains('/') || name.contains('\\') {
        Some(
            labels.entry + " name \""@ + name
                + "\" must not contain a path separator; subdirectories are not allowed in the "@
                + labels.store + "."@,
        )
    } else if !text::is_safe_name(name) {
        Some(
            labels.entry + " name \""@ + name + "\" must match "@ + VALID_STORE_NAME@
                + STORE_NAME_HELP@,
        )
    } else {
        None
    }
}

/// Whether `name` is a single safe segment.
pub fn is_valid_store_name(name: &str) -> (r: bool)
    ensures
        r == text::is_safe_name(name@),
{
    text::safe_name(name)
}

/// Validate that a store name is a single, safe path segment.
pub fn assert_valid_store_name(name: &str, labels: &StoreLabels) -> (r: Result<(), StoreError>)
    ensures
        refused(r, name_problem(name@, labels@)),
{
    let entry = labels.entry;
    if text::blank(name) {
        return Err(StoreError(text::cat2(entry, " name must be a non-empty string.")));
    }
    proof {
        text::lemma_blank_empty(name@);
    }
    if text::contains_char(name, '\0') {
        return Err(StoreError(text::cat4(entry, " name \"", name, "\" contains a NUL byte.")));
    }
    let chars = text::to_chars(name);
    if chars[0] == '/' {
        let mut m = text::cat5(
            entry,
            " name \"",
            name,
            "\" must be a bare name inside the ",
            labels.store,
        );
        m.append(", not an absolute path.");
        return Err(StoreError(m));
    }
    if text::str_eq(name, ".") || text::str_eq(name, "..") {
        return Err(
            StoreError(text::cat4(entry, " name \"", name, "\" is not a valid file name.")),
        );
    }
    if text::contains_char(name, '/') || text::contains_char(name, '\\') {
        let mut m = text::cat5(
            entry,
            " name \"",
            name,
            "\" must not contain a path separator; subdirectories are not allowed in the ",
            labels.store,
        );
        m.append(".");
        return Err(StoreError(m));
    }
    if !is_valid_store_name(name) {
        let mut m = text::cat5(entry, " name \"", name, "\" must match ", VALID_STORE_NAME);
        m.append(STORE_NAME_HELP);
        return Err(StoreError(m));
    }
    Ok(())
}

// ---------------------------------------------------------------------------
// Containment
// ---------------------------------------------------------------------------

/// What lies at a name inside a store.
#[derive(Debug, Clone, PartialEq, Eq)]
pub enum Leaf {
    /// A symbolic link whose target does not exist.
    Dangling,
    /// An entry whose real, symlink-free path is this one.
    Real(String),
}

/// What lies at a name, by the text of its path.
pub enum LeafText {
    /// A symbolic link whose target does not exist.
    Dangling,
    /// An entry with its real path.
    Real(Seq<char>),
}

impl View for Leaf {
    type V = LeafText;

    open spec fn view(&self) -> LeafText {
        match *self {
            Leaf::Dangling => LeafText::Dangling,
            Leaf::Real(p) => LeafText::Real(p@),
        }
    }
}

/// What is known of a store directory: its real path, when it exists and is accessible, and
/// the entries in it. A name that is not recorded does not exist.
#[derive(Debug, Clone)]
pub struct StoreSnapshot {
    /// The directory's real, symlink-free path, or `None` when it is missing.
    pub real_dir: Option<String>,
    /// The entries in the directory, each with what lies there.
    pub leaves: Vec<(String, Leaf)>,
}

/// What the first entry recorded under `name` holds, if there is one.
pub open spec fn leaf_in(leaves: Seq<(String, Leaf)>, name: Seq<char>) -> Option<LeafText>
    decreases leaves.len(),
{
    if leaves.len() == 0 {
        None
    } else if leaves[0].0@ == name {
        Some(leaves[0].1@)
    } else {
        leaf_in(leaves.skip(1), name)
    }
}

impl StoreSnapshot {
    /// The snapshot of a store directory that is missing.
    pub fn missing() -> (r: StoreSnapshot)
        ensures
            r.real_dir is None,
            r.leaves@.len() == 0,
    {
        StoreSnapshot { real_dir: None, leaves: Vec::new() }
    }

    /// What lies at `name`, if anything.
    pub open spec fn at(self, name: Seq<char>) -> Option<LeafText> {
        leaf_in(self.leaves@, name)
    }

    /// What lies at `name`, if anything.
    pub fn leaf(&self, name: &str) -> (r: Option<&Leaf>)
        ensures
            match r {
                Some(l) => self.at(name@) == Some(l@),
                None => self.at(name@) is None,
            },
    {
        let mut i: usize = 0;
        assert(self.leaves@.skip(0) =~= self.leaves@);
        while i < self.leaves.len()
            invariant
                i <= self.leaves.len(),
                leaf_in(self.leaves@.skip(i as int), name@) == self.at(name@),
            decreases self.leaves.len() - i,
        {
            assert(self.leaves@.skip(i as int).skip(1) =~= self.leaves@.skip(i + 1));
            if text::str_eq(self.leaves[i].0.as_str(), name) {
                return Some(&self.leaves[i].1);
            }
            i = i + 1;
        }
        None
    }
}

/// The message for a store directory that is missing.
pub open spec fn missing_store(dir: Seq<char>, labels: LabelTexts) -> Seq<char> {
    labels.store + " directory \""@ + dir
        + "\" does not exist or is not accessible. Create it or set "@ + labels.env_var
        + " to an existing directory."@
}

/// A real path is the store's real path or lies below it.
pub open spec fn is_within(target: Seq<char>, store: Seq<char>) -> bool {
    target == store || text::has_prefix(target, config::path_join(store, Seq::empty()))
}

/// The path of a name in a store, or why there is none.
pub open spec fn resolution(
    name: Seq<char>,
    dir: Seq<char>,
    labels: LabelTexts,
    snapshot: StoreSnapshot,
) -> Result<Seq<char>, Seq<char>> {
    match name_problem(name, labels) {
        Some(m) => Err(m),
        None => match snapshot.real_dir {
            None => Err(missing_store(dir, labels)),
            Some(store) => {
                let candidate = config::path_join(store@, name);
                match snapshot.at(name) {
                    None => Ok(candidate),
                    Some(LeafText::Dangling) => Err(
                        labels.entry + " \""@ + name
                            + "\" is a dangling symlink; refusing to follow it out of the "@
                            + labels.store + "."@,
                    ),
                    Some(LeafText::Real(target)) => if target != candidate && !is_within(target, store@) {
                        Err(
                            labels.entry + " \""@ + name + "\" resolves outside the "@
                                + labels.store + " (symlink escape); refusing."@,
                        )
                    } else {
                        Ok(candidate)
                    },
                }
            },
        },
    }
}

/// The error for a store directory that is missing.
pub fn store_missing(dir: &str, labels: &StoreLabels) -> (r: StoreError)
    ensures
        r.0@ == missing_store(dir@, labels@),
{
    let mut m = text::cat5(
        labels.store,
        " directory \"",
        dir,
        "\" does not exist or is not accessible. Create it or set ",
        labels.env_var,
    );
    m.append(" to an existing directory.");
    StoreError(m)
}

/// Resolve a name against a store directory and return its safe path, or a refusal: the
/// name is a single safe segment, the store exists, and what lies at the name, if anything,
/// is inside the store's real directory.
pub fn resolve_in_store(
    name: &str,
    store_dir: &str,
    labels: &StoreLabels,
    snapshot: &StoreSnapshot,
) -> (r: Result<String, StoreError>)
    ensures
        path_agrees(r, resolution(name@, store_dir@, labels@, *snapshot)),
{
    match assert_valid_store_name(name, labels) {
        Ok(()) => {},
        Err(e) => return Err(e),
    }
    let real_store = match &snapshot.real_dir {
        Some(d) => d.as_str(),
        None => return Err(store_missing(store_dir, labels)),
    };
    let candidate = config::join(real_store, name);
    match snapshot.leaf(name) {
        None => Ok(candidate),
        Some(Leaf::Dangling) => {
            let mut m = text::cat5(
                labels.entry,
                " \"",
                name,
                "\" is a dangling symlink; refusing to follow it out of the ",
                labels.store,
            );
            m.append(".");
            Err(StoreError(m))
        },
        Some(Leaf::Real(target)) => {
            let below = config::join(real_store, "");
            proof {
                reveal_strlit("");
                assert(""@ =~= Seq::<char>::empty());
            }
            let contained = text::str_eq(target.as_str(), real_store) || text::starts_with(
                target.as_str(),
                below.as_str(),
            );
            if !text::str_eq(target.as_str(), candidate.as_str()) && !contained {
                let mut m = text::cat5(
                    labels.entry,
                    " \"",
                    name,
                    "\" resolves outside the ",
                    labels.store,
                );
                m.append(" (symlink escape); refusing.");
                Err(StoreError(m))
            } else {
                Ok(candidate)
            }
        },
    }
}

// ---------------------------------------------------------------------------
// Listing
// ---------------------------------------------------------------------------

/// A single regular file present in a store.
#[derive(Debug, Clone, PartialEq, Eq)]
pub struct StoreEntry {
    /// The bare name to reference this entry by inside its store.
    pub name: String,
    /// On-disk (host) size in bytes.
    pub size_bytes: u64,
}

/// An entry found while reading a store directory.
#[derive(Debug, Clone, PartialEq, Eq)]
pub struct DirItem {
    /// The entry's name.
    pub name: String,
    /// Whether it is a regular file; symbolic links and directories are not.
    pub is_file: bool,
    /// Its size in bytes, or `None` when it vanished before it could be examined.
    pub size_bytes: Option<u64>,
}

/// A listed entry by its texts.
pub open spec fn entry_texts(v: Seq<StoreEntry>) -> Seq<(Seq<char>, u64)> {
    v.map_values(|e: StoreEntry| (e.name@, e.size_bytes))
}

/// The position after the last entry whose name is not after `name`.
pub open spec fn place(entries: Seq<(Seq<char>, u64)>, name: Seq<char>) -> int
    decreases entries.len(),
{
    if entries.len() == 0 || !text::precedes(name, entries.last().0) {
        entries.len() as int
    } else {
        place(entries.drop_last(), name)
    }
}

/// The listing of what was found: the regular files that could be examined, by name.
pub open spec fn listing(found: Seq<DirItem>) -> Seq<(Seq<char>, u64)>
    decreases found.len(),
{
    if found.len() == 0 {
        Seq::empty()
    } else {
        let before = listing(found.drop_last());
        let item = found.last();
        match item.size_bytes {
            Some(size) if item.is_file => before.insert(
                place(before, item.name@),
                (item.name@, size),
            ),
            _ => before,
        }
    }
}

proof fn lemma_place_bounds(entries: Seq<(Seq<char>, u64)>, name: Seq<char>)
    ensures
        0 <= place(entries, name) <= entries.len(),
    decreases entries.len(),
{
    if entries.len() > 0 && text::precedes(name, entries.last().0) {
        lemma_place_bounds(entries.drop_last(), name);
    }
}

/// List the regular files of a store directory, sorted by name, from what was found when it
/// was read, or `None` when it could not be read. Symbolic links and directories are
/// skipped, as are files that vanished in between; a missing store fails closed.
pub fn list_store_files(
    dir: &str,
    labels: &StoreLabels,
    found: Option<Vec<DirItem>>,
) -> (r: Result<Vec<StoreEntry>, StoreError>)
    ensures
        match (found, r) {
            (None, Err(e)) => e.0@ == missing_store(dir@, labels@),
            (Some(items), Ok(entries)) => entry_texts(entries@) == listing(items@),
            _ => false,
        },
{
    let items = match found {
        None => return Err(store_missing(dir, labels)),
        Some(items) => items,
    };
    let mut out: Vec<StoreEntry> = Vec::new();
    let mut i: usize = 0;
    assert(items@.take(0) =~= Seq::<DirItem>::empty());
    assert(entry_texts(out@) =~= listing(items@.take(0)));
    while i < items.len()
        invariant
            i <= items.len(),
            entry_texts(out@) == listing(items@.take(i as int)),
        decreases items.len() - i,
    {
        assert(items@.take(i + 1).drop_last() =~= items@.take(i as int));
        let item = &items[i];
        if item.is_file {
            if let Some(size_bytes) = item.size_bytes {
                let ghost before = entry_texts(out@);
                let mut at: usize = out.len();
                assert(before.take(at as int) =~= before);
                while at > 0 && text::text_before(item.name.as_str(), out[at - 1].name.as_str())
                    invariant
                        at <= out.len(),
                        before == entry_texts(out@),
                        place(before.take(at as int), item.name@) == place(before, item.name@),
                    decreases at,
                {
                    assert(before.take(at as int).drop_last() =~= before.take(at - 1));
                    assert(before.take(at as int).last().0 == out@[at - 1].name@);
                    at = at - 1;
                }
                proof {
                    lemma_place_bounds(before, item.name@);
                    if at > 0 {
                        assert(before.take(at as int).last().0 == out@[at - 1].name@);
                    }
                }
                out.insert(at, StoreEntry { name: item.name.clone(), size_bytes });
                assert(entry_texts(out@) =~= before.insert(at as int, (item.name@, size_bytes)));
            }
        }
        i = i + 1;
    }
    assert(items@.take(items@.len() as int) =~= items@);
    Ok(out)
}

// ---------------------------------------------------------------------------
// Laws
// ---------------------------------------------------------------------------

/// A name that the boundary accepts can neither leave the store nor carry an option: it
/// holds no separator, comma, equals sign, colon, white space or NUL, starts with neither a
/// dash nor a dot, and is neither `.` nor `..`.
pub proof fn accepted_names_are_inert(name: Seq<char>, labels: LabelTexts)
    requires
        name_problem(name, labels) is None,
    ensures
        name.len() > 0,
        forall|i: int|
            0 <= i < name.len() ==> {
                let c = #[trigger] name[i];
                c != '/' && c != '\\' && c != ',' && c != '=' && c != ':' && c != '\0'
                    && !text::is_white_space(c)
            },
        name[0] != '-',
        name[0] != '.',
{
    assert forall|i: int| 0 <= i < name.len() implies {
        let c = #[trigger] name[i];
        c != '/' && c != '\\' && c != ',' && c != '=' && c != ':' && c != '\0'
            && !text::is_white_space(c)
    } by {
        assert(text::is_name_char(name[i]));
    }
}

/// A resolved path is the accepted name directly inside the store's real directory.
pub proof fn resolved_paths_stay_inside(
    name: Seq<char>,
    dir: Seq<char>,
    labels: LabelTexts,
    snapshot: StoreSnapshot,
    path: Seq<char>,
)
    requires
        resolution(name, dir, labels, snapshot) == Ok::<Seq<char>, Seq<char>>(path),
    ensures
        snapshot.real_dir is Some,
        path == config::path_join(snapshot.real_dir->0@, name),
        is_within(path, snapshot.real_dir->0@),
        snapshot.at(name) matches Some(leaf) ==> leaf matches LeafText::Real(target) && is_within(
            target,
            snapshot.real_dir->0@,
        ),
{
    let store = snapshot.real_dir->0@;
    let below = config::path_join(store, Seq::empty());
    assert("/"@.len() == 1) by {
        reveal_strlit("/");
    }
    assert(path.take(below.len() as int) =~= below);
}

/// Every listed name comes before, or is equal to, each name listed after it.
pub proof fn listings_are_sorted(found: Seq<DirItem>)
    ensures
        forall|i: int, j: int|
            0 <= i < j < listing(found).len() ==> !text::precedes(
                (#[trigger] listing(found)[j]).0,
                (#[trigger] listing(found)[i]).0,
            ),
    decreases found.len(),
{
    if found.len() > 0 {
        listings_are_sorted(found.drop_last());
        let before = listing(found.drop_last());
        let item = found.last();
        if item.is_file && item.size_bytes is Some {
            let p = place(before, item.name@);
            lemma_place_bounds(before, item.name@);
            lemma_place_splits(before, item.name@);
            let after = before.insert(p, (item.name@, item.size_bytes->0));
            assert forall|i: int, j: int| 0 <= i < j < after.len() implies !text::precedes(
                (#[trigger] after[j]).0,
                (#[trigger] after[i]).0,
            ) by {
                if i == p {
                    assert(after[j] == before[j - 1]);
                    assert(text::precedes(item.name@, before[j - 1].0));
                    text::precedes_is_asymmetric(item.name@, before[j - 1].0);
                } else if j == p {
                    assert(after[i] == before[i]);
                } else {
                    let i0 = if i < p {
                        i
                    } else {
                        i - 1
                    };
                    let j0 = if j < p {
                        j
                    } else {
                        j - 1
                    };
                    assert(after[i] == before[i0]);
                    assert(after[j] == before[j0]);
                }
            }
        }
    }
}

proof fn lemma_place_splits(entries: Seq<(Seq<char>, u64)>, name: Seq<char>)
    requires
        forall|i: int, j: int|
            0 <= i < j < entries.len() ==> !text::precedes(
                (#[trigger] entries[j]).0,
                (#[trigger] entries[i]).0,
            ),
    ensures
        forall|i: int|
            0 <= i < place(entries, name) ==> !text::precedes(name, (#[trigger] entries[i]).0),
        forall|i: int|
            place(entries, name) <= i < entries.len() ==> text::precedes(
                name,
                (#[trigger] entries[i]).0,
            ),
    decreases entries.len(),
{
    if entries.len() > 0 {
        let last = entries.last().0;
        if text::precedes(name, last) {
            let init = entries.drop_last();
            assert forall|i: int, j: int| 0 <= i < j < init.len() implies !text::precedes(
                (#[trigger] init[j]).0,
                (#[trigger] init[i]).0,
            ) by {
                assert(init[j] == entries[j]);
                assert(init[i] == entries[i]);
            }
            lemma_place_splits(init, name);
            lemma_place_bounds(init, name);
            assert forall|i: int| 0 <= i < place(entries, name) implies !text::precedes(
                name,
                (#[trigger] entries[i]).0,
            ) by {
                assert(init[i] == entries[i]);
            }
            assert forall|i: int| place(entries, name) <= i < entries.len() implies text::precedes(
                name,
                (#[trigger] entries[i]).0,
            ) by {
                if i < init.len() {
                    assert(init[i] == entries[i]);
                }
            }
        } else {
            assert forall|i: int| 0 <= i < entries.len() implies !text::precedes(
                name,
                (#[trigger] entries[i]).0,
            ) by {
                if text::precedes(name, entries[i].0) && i < entries.len() - 1 {
                    assert(!text::precedes(entries[entries.len() - 1].0, entries[i].0));
                    text::precedes_is_transitive(name, entries[i].0, last);
                }
            }
        }
    }
}

/// The regular files that were found and could be examined, each with its name and size, in
/// the order in which they were found.
pub open spec fn files_found(found: Seq<DirItem>) -> Seq<(Seq<char>, u64)> {
    found.filter(|item: DirItem| item.is_file && item.size_bytes is Some).map_values(
        |item: DirItem| (item.name@, item.size_bytes->0),
    )
}

/// A listing is a permutation of the regular files found: a name and a size are listed exactly
/// as often as a regular file with that name and that size was found.
pub proof fn listings_are_the_files_found(found: Seq<DirItem>)
    ensures
        listing(found).to_multiset() == files_found(found).to_multiset(),
        listing(found).len() == files_found(found).len(),
    decreases found.len(),
{
    broadcast use vstd::seq_lib::group_to_multiset_ensures;

    reveal(Seq::filter);
    if found.len() > 0 {
        let init = found.drop_last();
        let item = found.last();
        listings_are_the_files_found(init);
        let before = listing(init);
        if item.is_file && item.size_bytes is Some {
            let e = (item.name@, item.size_bytes->0);
            lemma_place_bounds(before, item.name@);
            let p = place(before, item.name@);
            vstd::seq_lib::to_multiset_insert(before, p, e);
            assert(files_found(found) =~= files_found(init).push(e));
            assert(listing(found).to_multiset() =~= files_found(found).to_multiset());
        } else {
            assert(files_found(found) =~= files_found(init));
        }
    } else {
        assert(files_found(found) =~= listing(found));
    }
}

/// What lies at a name is what the first entry recorded under it holds; nothing lies at a name
/// that is not recorded.
pub proof fn leaves_are_looked_up_by_name(snapshot: StoreSnapshot, name: Seq<char>, i: int)
    requires
        0 <= i <= snapshot.leaves@.len(),
        forall|j: int| 0 <= j < i ==> (#[trigger] snapshot.leaves@[j]).0@ != name,
    ensures
        i == snapshot.leaves@.len() ==> snapshot.at(name) is None,
        i < snapshot.leaves@.len() && snapshot.leaves@[i].0@ == name ==> snapshot.at(name) == Some(
            snapshot.leaves@[i].1@,
        ),
{
    lemma_leaf_in(snapshot.leaves@, name, i);
}

proof fn lemma_leaf_in(leaves: Seq<(String, Leaf)>, name: Seq<char>, i: int)
    requires
        0 <= i <= leaves.len(),
        forall|j: int| 0 <= j < i ==> (#[trigger] leaves[j]).0@ != name,
    ensures
        i == leaves.len() ==> leaf_in(leaves, name) is None,
        i < leaves.len() && leaves[i].0@ == name ==> leaf_in(leaves, name) == Some(leaves[i].1@),
    decreases i,
{
    if i > 0 {
        assert(leaves[0].0@ != name);
        assert forall|j: int| 0 <= j < i - 1 implies (#[trigger] leaves.skip(1)[j]).0@ != name by {
            assert(leaves.skip(1)[j] == leaves[j + 1]);
        }
        lemma_leaf_in(leaves.skip(1), name, i - 1);
    }
}

/// The names that the boundary accepts are exactly those that begin with an ASCII letter or
/// digit and go on with those, dots, underscores and hyphens. Every other one is refused with a
/// message that begins with the noun for an entry.
pub proof fn safe_names_are_accepted(name: Seq<char>, labels: LabelTexts)
    ensures
        name_problem(name, labels) is None <==> {
            &&& name.len() > 0
            &&& name[0] != '.' && name[0] != '_' && name[0] != '-'
            &&& forall|i: int|
                0 <= i < name.len() ==> (('0' <= #[trigger] name[i] && name[i] <= '9') || ('A'
                    <= name[i] && name[i] <= 'Z') || ('a' <= name[i] && name[i] <= 'z') || name[i]
                    == '.' || name[i] == '_' || name[i] == '-')
        },
        name_problem(name, labels) matches Some(m) ==> text::has_prefix(m, labels.entry),
{
    text::safe_names(name);
    let cut = text::trimming_takes_white_space_only(name);
    reveal_strlit(".");
    reveal_strlit("..");
    if text::is_safe_name(name) {
        assert(text::is_name_char(name[0]));
        assert(!text::is_white_space(name[0]));
        assert forall|c: char| name.contains(c) implies text::is_name_char(c) by {
            let i = name.index_of(c);
            assert(text::is_name_char(name[i]));
        }
        assert(name != "."@ && name != ".."@);
    }
    if let Some(m) = name_problem(name, labels) {
        assert(m.take(labels.entry.len() as int) =~= labels.entry);
    }
}

/// A safe name resolves wherever the store exists and what lies at the name, if anything, is
/// in the store's real directory. A dangling link, and an entry whose real path is neither the
/// directory nor below it, are refused.
pub proof fn contained_names_resolve(
    name: Seq<char>,
    dir: Seq<char>,
    labels: LabelTexts,
    snapshot: StoreSnapshot,
)
    requires
        text::is_safe_name(name),
        snapshot.real_dir is Some,
    ensures
        snapshot.at(name) is None ==> resolution(name, dir, labels, snapshot) is Ok,
        snapshot.at(name) == Some(LeafText::Dangling) ==> resolution(name, dir, labels, snapshot)
            is Err,
        snapshot.at(name) matches Some(LeafText::Real(target)) ==> (resolution(
            name,
            dir,
            labels,
            snapshot,
        ) is Ok <==> is_within(target, snapshot.real_dir->0@)),
{
    text::safe_names(name);
    safe_names_are_accepted(name, labels);
    let store = snapshot.real_dir->0@;
    if let Some(LeafText::Real(target)) = snapshot.at(name) {
        if target == config::path_join(store, name) {
            assert(resolution(name, dir, labels, snapshot) == Ok::<Seq<char>, Seq<char>>(target));
            resolved_paths_stay_inside(name, dir, labels, snapshot, target);
        }
    }
}

/// Nothing resolves in a store that does not exist, and the refusal names the directory and
/// the variable that sets it.
pub proof fn missing_stores_resolve_nothing(
    name: Seq<char>,
    dir: Seq<char>,
    labels: LabelTexts,
    snapshot: StoreSnapshot,
)
    requires
        snapshot.real_dir is None,
    ensures
        resolution(name, dir, labels, snapshot) is Err,
        text::has_infix(missing_store(dir, labels), dir),
        text::has_infix(missing_store(dir, labels), labels.env_var),
        name_problem(name, labels) is None ==> resolution(name, dir, labels, snapshot)->Err_0
            == missing_store(dir, labels),
{
    let m = missing_store(dir, labels);
    let a = labels.store + " directory \""@;
    let b = "\" does not exist or is not accessible. Create it or set "@ + labels.env_var
        + " to an existing directory."@;
    assert(m =~= a + dir + b);
    text::parts_are_found(a, dir, b, m);
    let c = labels.store + " directory \""@ + dir
        + "\" does not exist or is not accessible. Create it or set "@;
    assert(m =~= c + labels.env_var + " to an existing directory."@);
    text::parts_are_found(c, labels.env_var, " to an existing directory."@, m);
}

/// A path is within a directory where it is the directory, or begins with it and goes on with
/// a slash: a sibling whose name begins alike is outside.
pub proof fn containment_is_by_segments(target: Seq<char>, store: Seq<char>)
    requires
        store.len() > 0,
        store.last() != '/',
    ensures
        is_within(target, store) <==> (target == store || (target.len() > store.len()
            && target.take(store.len() as int) == store && target[store.len() as int] == '/')),
{
    reveal_strlit("/");
    let below = config::path_join(store, Seq::empty());
    assert(below =~= store.push('/'));
    if text::has_prefix(target, below) {
        assert(target.take(store.len() as int) =~= below.take(store.len() as int));
        assert(below.take(store.len() as int) =~= store);
        assert(target.take(below.len() as int)[store.len() as int] == '/');
    }
    if target.len() > store.len() && target.take(store.len() as int) == store
        && target[store.len() as int] == '/' {
        assert forall|i: int| 0 <= i < below.len() implies target.take(below.len() as int)[i]
            == below[i] by {
            if i < store.len() {
                assert(target.take(store.len() as int)[i] == store[i]);
            }
        }
        assert(target.take(below.len() as int) =~= below);
    }
}

/// A listed entry is seen with the name and the size that it has.
pub proof fn entries_are_seen_whole(v: Seq<StoreEntry>)
    ensures
        entry_texts(v).len() == v.len(),
        forall|i: int|
            0 <= i < v.len() ==> (#[trigger] entry_texts(v)[i]).0 == v[i].name@ && entry_texts(
                v,
            )[i].1 == v[i].size_bytes,
{
}

/// A name that is not accepted is refused because it is blank, or else for a NUL, for being
/// absolute, for being a dot name, for a separator, or for any other character.
pub proof fn names_are_refused_for_what_is_wrong(name: Seq<char>, labels: LabelTexts)
    ensures
        ({
            let r = name_problem(name, labels);
            let lead = labels.entry + " name \""@ + name;
            let nul = name.contains('\0');
            let dots = name == "."@ || name == ".."@;
            let parted = name.contains('/') || name.contains('\\');
            &&& text::is_blank(name) ==> r == Some(
                labels.entry + " name must be a non-empty string."@,
            )
            &&& !text::is_blank(name) && nul ==> r == Some(lead + "\" contains a NUL byte."@)
            &&& !text::is_blank(name) && !nul && name[0] == '/' ==> r == Some(
                lead + "\" must be a bare name inside the "@ + labels.store
                    + ", not an absolute path."@,
            )
            &&& !text::is_blank(name) && !nul && name[0] != '/' && dots ==> r == Some(
                lead + "\" is not a valid file name."@,
            )
            &&& !text::is_blank(name) && !nul && name[0] != '/' && !dots && parted ==> r == Some(
                lead
                    + "\" must not contain a path separator; subdirectories are not allowed in the "@
                    + labels.store + "."@,
            )
            &&& !text::is_blank(name) && !nul && name[0] != '/' && !dots && !parted
                && !text::is_safe_name(name) ==> r == Some(
                lead + "\" must match "@ + VALID_STORE_NAME@ + STORE_NAME_HELP@,
            )
        }),
{
}

/// A name that is accepted but does not resolve is refused because there is no store, or because it
/// is a link that leads nowhere, or because it leads out of the store.
pub proof fn escapes_are_refused_plainly(
    name: Seq<char>,
    dir: Seq<char>,
    labels: LabelTexts,
    snapshot: StoreSnapshot,
)
    ensures
        ({
            let r = resolution(name, dir, labels, snapshot);
            let store = snapshot.real_dir->0@;
            let fine = name_problem(name, labels) is None && snapshot.real_dir is Some;
            &&& name_problem(name, labels) matches Some(m) ==> r == Err::<Seq<char>, Seq<char>>(m)
            &&& fine && snapshot.at(name) == Some(LeafText::Dangling) ==> r == Err::<
                Seq<char>,
                Seq<char>,
            >(
                labels.entry + " \""@ + name
                    + "\" is a dangling symlink; refusing to follow it out of the "@ + labels.store
                    + "."@,
            )
            &&& fine ==> (snapshot.at(name) matches Some(LeafText::Real(target)) ==> (target
                != config::path_join(store, name) && !is_within(target, store)) ==> r == Err::<
                Seq<char>,
                Seq<char>,
            >(
                labels.entry + " \""@ + name + "\" resolves outside the "@ + labels.store
                    + " (symlink escape); refusing."@,
            ))
            &&& fine && r is Ok ==> r->Ok_0 == config::path_join(store, name)
        }),
{
}

/// Within the root, or a directory that is written with a slash at its end, is what begins with it.
pub proof fn everything_is_within_the_root(target: Seq<char>, store: Seq<char>)
    requires
        store.len() > 0,
        store.last() == '/',
    ensures
        is_within(target, store) <==> store.is_prefix_of(target),
{
    assert(config::path_join(store, Seq::empty()) =~= store);
    if store.len() <= target.len() {
        assert(target.take(store.len() as int) =~= target.subrange(0, store.len() as int));
    }
    if target == store {
        assert(target.subrange(0, target.len() as int) =~= target);
    }
}

/// What is said of a check or a path is all that it gives, and so it is of what lies at a name and
/// of the wording.
pub proof fn outcomes_are_seen_whole(
    r: Result<(), StoreError>,
    problem: Option<Seq<char>>,
    x: Result<String, StoreError>,
    y: Result<Seq<char>, Seq<char>>,
    leaf: Leaf,
    labels: StoreLabels,
)
    ensures
        refused(r, problem) <==> (r is Ok && problem is None) || (r is Err && problem is Some
            && r->Err_0.0@ == problem->0),
        path_agrees(x, y) <==> (x is Ok && y is Ok && x->Ok_0@ == y->Ok_0) || (x is Err && y is Err
            && x->Err_0.0@ == y->Err_0),
        leaf is Dangling <==> leaf@ == LeafText::Dangling,
        leaf matches Leaf::Real(p) ==> leaf@ == LeafText::Real(p@),
        labels@.store == labels.store@,
        labels@.entry == labels.entry@,
        labels@.env_var == labels.env_var@,
{
}

} // verus!
