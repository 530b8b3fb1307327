//! The catalog of installable OS images that the download tool can fetch, each keyed by a
//! short id and carrying one or more mirror URLs.

use vstd::prelude::*;

use crate::config;
use crate::instance::store_path;
use crate::instance::store_path::StoreLabels;
use crate::text;

verus! {

/// One installable OS image in the catalog.
#[derive(Debug, Clone, PartialEq, Eq)]
pub struct CatalogEntry {
    /// Short stable key the image is selected by.
    pub id: String,
    /// Human-facing distribution name.
    pub name: String,
    /// Optional edition or variant note.
    pub edition: Option<String>,
    /// Optional guest architecture the image targets.
    pub arch: Option<String>,
    /// The bare name the image is saved as inside the ISO Store.
    pub filename: String,
    /// One or more download URLs, tried in order until one succeeds.
    pub mirrors: Vec<String>,
}

/// A validated catalog and where it came from.
#[derive(Debug, Clone)]
pub struct Catalog {
    /// `built-in`, or the path of the catalog file.
    pub source: String,
    /// The validated entries, in catalog order.
    pub entries: Vec<CatalogEntry>,
}

/// Raised when a catalog cannot be read or fails validation.
#[derive(Debug, Clone, PartialEq, Eq)]
pub struct CatalogError(pub String);

/// The wording for the file names of a catalog.
pub open spec fn catalog_wording() -> store_path::LabelTexts {
    store_path::LabelTexts {
        store: "ISO Store"@,
        entry: "Catalog ISO filename"@,
        env_var: "QMP_MCP_ISO_DIR"@,
    }
}

/// The labels for the file names of a catalog.
pub fn catalog_file_labels() -> (r: StoreLabels)
    ensures
        r@ == catalog_wording(),
{
    StoreLabels { store: "ISO Store", entry: "Catalog ISO filename", env_var: "QMP_MCP_ISO_DIR" }
}

/// The quoted and escaped form that `Debug` gives a text.
pub uninterp spec fn debug_form(s: Seq<char>) -> Seq<char>;

/// The `Debug` formatting of a string slice. Trusted to depend on the text alone.
#[verifier::external_body]
fn debug_text(s: &str) -> (r: String)
    ensures
        r@ == debug_form(s@),
{
    format!("{:?}", s)
}

// ---------------------------------------------------------------------------
// Looking up
// ---------------------------------------------------------------------------

/// The first entry with an id.
pub open spec fn entry_of(entries: Seq<CatalogEntry>, id: Seq<char>) -> Option<CatalogEntry>
    decreases entries.len(),
{
    if entries.len() == 0 {
        None
    } else if entries[0].id@ == id {
        Some(entries[0])
    } else {
        entry_of(entries.skip(1), id)
    }
}

/// The ids of entries.
pub open spec fn ids(entries: Seq<CatalogEntry>) -> Seq<Seq<char>> {
    entries.map_values(|e: CatalogEntry| e.id@)
}

impl Catalog {
    /// Find the entry with the given id, if any.
    pub fn find(&self, id: &str) -> (r: Option<&CatalogEntry>)
        ensures
            match r {
                Some(e) => entry_of(self.entries@, id@) == Some(*e),
                None => entry_of(self.entries@, id@) is None,
            },
    {
        let mut i: usize = 0;
        let ghost all = self.entries@;
        assert(all.skip(0) =~= all);
        while i < self.entries.len()
            invariant
                all == self.entries@,
                i <= self.entries.len(),
                entry_of(all.skip(i as int), id@) == entry_of(all, id@),
            decreases self.entries.len() - i,
        {
            assert(all.skip(i as int).skip(1) =~= all.skip(i + 1));
            assert(all.skip(i as int)[0] == all[i as int]);
            if text::str_eq(self.entries[i].id.as_str(), id) {
                return Some(&self.entries[i]);
            }
            i = i + 1;
        }
        None
    }

    /// The available ids, separated by commas.
    pub fn ids_hint(&self) -> (r: String)
        ensures
            r@ == text::joined(ids(self.entries@), ", "@),
    {
        let mut list: Vec<String> = Vec::new();
        let mut i: usize = 0;
        while i < self.entries.len()
            invariant
                i <= self.entries.len(),
                list.len() == i,
                forall|j: int|
                    0 <= j < i ==> (#[trigger] list@[j])@ == self.entries@[j].id@,
            decreases self.entries.len() - i,
        {
            list.push(self.entries[i].id.clone());
            i = i + 1;
        }
        assert(text::texts(list@) =~= ids(self.entries@));
        text::join_strings(&list, ", ")
    }
}

// ---------------------------------------------------------------------------
// Validation
// ---------------------------------------------------------------------------

/// Whether an id is a single safe token.
pub fn is_valid_id(id: &str) -> (r: bool)
    ensures
        r == text::is_safe_name(id@),
{
    text::safe_name(id)
}

/// An `http` or `https` URL without white space or control characters.
pub open spec fn is_mirror(url: Seq<char>) -> bool {
    &&& text::has_prefix(url, "http://"@) || text::has_prefix(url, "https://"@)
    &&& forall|i: int|
        0 <= i < url.len() ==> !text::is_white_space(#[trigger] url[i]) && !text::is_control(url[i])
}

fn is_valid_mirror(url: &str) -> (r: bool)
    ensures
        r == is_mirror(url@),
{
    if !text::starts_with(url, "http://") && !text::starts_with(url, "https://") {
        return false;
    }
    let x = text::to_chars(url);
    let mut i: usize = 0;
    while i < x.len()
        invariant
            i <= x.len(),
            x@ == url@,
            forall|j: int|
                0 <= j < i ==> !text::is_white_space(#[trigger] x@[j]) && !text::is_control(x@[j]),
        decreases x.len() - i,
    {
        if text::white_space(x[i]) || text::control(x[i]) {
            assert(text::is_white_space(url@[i as int]) || text::is_control(url@[i as int]));
            return false;
        }
        i = i + 1;
    }
    true
}

/// How the messages about an entry start.
pub open spec fn entry_lead(id: Seq<char>, source: Seq<char>) -> Seq<char> {
    "ISO catalog entry \""@ + id + "\" ("@ + source + ")"@
}

fn entry_message(id: &str, source: &str, rest: &str) -> (r: String)
    ensures
        r@ == entry_lead(id@, source@) + rest@,
{
    let mut m = text::cat5("ISO catalog entry \"", id, "\" (", source, ")");
    m.append(rest);
    m
}

/// Why the mirrors of an entry are refused, if they are: the first one that is.
pub open spec fn mirrors_problem(id: Seq<char>, source: Seq<char>, mirrors: Seq<String>) -> Option<
    Seq<char>,
>
    decreases mirrors.len(),
{
    if mirrors.len() == 0 {
        None
    } else if !is_mirror(mirrors[0]@) {
        Some(
            entry_lead(id, source) + (" has an invalid mirror URL "@ + debug_form(mirrors[0]@)
                + " — mirrors must be http(s) URLs with no whitespace."@),
        )
    } else {
        mirrors_problem(id, source, mirrors.skip(1))
    }
}

/// An earlier entry has the id of entry `n`.
pub open spec fn is_duplicate(entries: Seq<CatalogEntry>, n: int) -> bool {
    exists|j: int| 0 <= j < n && (#[trigger] entries[j]).id@ == entries[n].id@
}

/// Why entry `n` is refused, if it is.
pub open spec fn entry_problem(entries: Seq<CatalogEntry>, n: int, source: Seq<char>) -> Option<
    Seq<char>,
> {
    let e = entries[n];
    if !text::is_safe_name(e.id@) {
        Some(
            "ISO catalog ("@ + source + ") has an invalid id "@ + debug_form(e.id@)
                + " — ids must be a single token of letters, digits, dot, underscore, or hyphen."@,
        )
    } else if is_duplicate(entries, n) {
        Some("ISO catalog ("@ + source + ") has a duplicate id \""@ + e.id@ + "\"."@)
    } else if text::is_blank(e.name@) {
        Some(entry_lead(e.id@, source) + " has an empty name."@)
    } else if store_path::name_problem(e.filename@, catalog_wording()) is Some {
        Some(
            entry_lead(e.id@, source) + (" has an invalid filename: "@ + store_path::name_problem(
                e.filename@,
                catalog_wording(),
            )->0),
        )
    } else if e.mirrors@.len() == 0 {
        Some(entry_lead(e.id@, source) + " has no mirrors (expected at least one URL)."@)
    } else {
        mirrors_problem(e.id@, source, e.mirrors@)
    }
}

/// Why the entries from `n` on are refused, if they are: the first one that is.
pub open spec fn entries_problem(entries: Seq<CatalogEntry>, n: int, source: Seq<char>) -> Option<
    Seq<char>,
>
    decreases entries.len() - n,
{
    if n >= entries.len() {
        None
    } else {
        config::first(
            entry_problem(entries, n, source),
            entries_problem(entries, n + 1, source),
        )
    }
}

/// Why a decoded catalog document is refused, if it is.
pub open spec fn catalog_problem(
    decoded: Result<Vec<CatalogEntry>, String>,
    source: Seq<char>,
) -> Option<Seq<char>> {
    match decoded {
        Err(e) => Some("ISO catalog ("@ + source + ") is not valid JSON: "@ + e@),
        Ok(entries) => if entries@.len() == 0 {
            Some(
                "ISO catalog ("@ + source
                    + ") contains no entries (expected a non-empty \"isos\" array)."@,
            )
        } else {
            entries_problem(entries@, 0, source)
        },
    }
}

fn check_mirrors(id: &str, source: &str, mirrors: &Vec<String>) -> (r: Result<(), CatalogError>)
    ensures
        match r {
            Ok(_) => mirrors_problem(id@, source@, mirrors@) is None,
            Err(e) => mirrors_problem(id@, source@, mirrors@) == Some(e.0@),
        },
{
    let mut i: usize = 0;
    assert(mirrors@.skip(0) =~= mirrors@);
    while i < mirrors.len()
        invariant
            i <= mirrors.len(),
            mirrors_problem(id@, source@, mirrors@.skip(i as int)) == mirrors_problem(
                id@,
                source@,
                mirrors@,
            ),
        decreases mirrors.len() - i,
    {
        assert(mirrors@.skip(i as int).skip(1) =~= mirrors@.skip(i + 1));
        let url = mirrors[i].as_str();
        if !is_valid_mirror(url) {
            let quoted = debug_text(url);
            let rest = text::cat3(
                " has an invalid mirror URL ",
                quoted.as_str(),
                " — mirrors must be http(s) URLs with no whitespace.",
            );
            return Err(CatalogError(entry_message(id, source, rest.as_str())));
        }
        i = i + 1;
    }
    Ok(())
}

fn has_earlier_id(entries: &Vec<CatalogEntry>, n: usize) -> (r: bool)
    requires
        n < entries.len(),
    ensures
        r == is_duplicate(entries@, n as int),
{
    let mut j: usize = 0;
    while j < n
        invariant
            j <= n < entries.len(),
            forall|k: int| 0 <= k < j ==> (#[trigger] entries@[k]).id@ != entries@[n as int].id@,
        decreases n - j,
    {
        if text::str_eq(entries[j].id.as_str(), entries[n].id.as_str()) {
            return true;
        }
        j = j + 1;
    }
    false
}

fn check_entry(entries: &Vec<CatalogEntry>, n: usize, source: &str) -> (r: Result<(), CatalogError>)
    requires
        n < entries.len(),
    ensures
        match r {
            Ok(_) => entry_problem(entries@, n as int, source@) is None,
            Err(e) => entry_problem(entries@, n as int, source@) == Some(e.0@),
        },
{
    let entry = &entries[n];
    let id = entry.id.as_str();
    if !is_valid_id(id) {
        let quoted = debug_text(id);
        return Err(
            CatalogError(
                text::cat5(
                    "ISO catalog (",
                    source,
                    ") has an invalid id ",
                    quoted.as_str(),
                    " — ids must be a single token of letters, digits, dot, underscore, or hyphen.",
                ),
            ),
        );
    }
    if has_earlier_id(entries, n) {
        return Err(
            CatalogError(text::cat5("ISO catalog (", source, ") has a duplicate id \"", id, "\".")),
        );
    }
    if text::blank(entry.name.as_str()) {
        return Err(CatalogError(entry_message(id, source, " has an empty name.")));
    }
    if let Err(e) = store_path::assert_valid_store_name(
        entry.filename.as_str(),
        &catalog_file_labels(),
    ) {
        let rest = text::cat2(" has an invalid filename: ", e.0.as_str());
        return Err(CatalogError(entry_message(id, source, rest.as_str())));
    }
    if entry.mirrors.len() == 0 {
        return Err(
            CatalogError(
                entry_message(id, source, " has no mirrors (expected at least one URL)."),
            ),
        );
    }
    check_mirrors(id, source, &entry.mirrors)
}

/// Validate a catalog from its decoded document, tagging it with `source` for reports. An
/// undecodable document comes as the decoder's message. Fails closed on an empty list, a
/// duplicate or invalid id, a blank name, a file name that is not a safe ISO-Store leaf, or
/// a mirror that is not an `http(s)` URL.
pub fn parse_catalog(decoded: Result<Vec<CatalogEntry>, String>, source: &str) -> (r: Result<
    Catalog,
    CatalogError,
>)
    ensures
        match r {
            Ok(c) => {
                &&& catalog_problem(decoded, source@) is None
                &&& c.source@ == source@
                &&& c.entries == decoded->Ok_0
            },
            Err(e) => catalog_problem(decoded, source@) == Some(e.0@),
        },
{
    let entries = match decoded {
        Err(e) => {
            return Err(
                CatalogError(
                    text::cat4("ISO catalog (", source, ") is not valid JSON: ", e.as_str()),
                ),
            );
        },
        Ok(entries) => entries,
    };
    if entries.len() == 0 {
        return Err(
            CatalogError(
                text::cat3(
                    "ISO catalog (",
                    source,
                    ") contains no entries (expected a non-empty \"isos\" array).",
                ),
            ),
        );
    }
    let mut n: usize = 0;
    while n < entries.len()
        invariant
            n <= entries.len(),
            catalog_problem(decoded, source@) == entries_problem(entries@, n as int, source@),
        decreases entries.len() - n,
    {
        match check_entry(&entries, n, source) {
            Ok(()) => {},
            Err(e) => return Err(e),
        }
        n = n + 1;
    }
    Ok(Catalog { source: source.to_string(), entries })
}

/// Load the catalog: the built-in document, or the one read from the file at `path`. A
/// configured file that could not be read (`read` holds the reason) fails closed.
pub fn load_catalog(
    path: Option<&str>,
    read: Result<Result<Vec<CatalogEntry>, String>, String>,
) -> (r: Result<Catalog, CatalogError>)
    ensures
        match read {
            Ok(decoded) => {
                let source = match path {
                    Some(p) => p@,
                    None => "built-in"@,
                };
                match r {
                    Ok(c) => catalog_problem(decoded, source) is None && c.source@ == source
                        && c.entries == decoded->Ok_0,
                    Err(e) => catalog_problem(decoded, source) == Some(e.0@),
                }
            },
            Err(why) => r matches Err(e) && e.0@ == unreadable(
                match path {
                    Some(p) => p@,
                    None => "built-in"@,
                },
                why@,
            ),
        },
{
    let source = match path {
        Some(p) => p,
        None => "built-in",
    };
    match read {
        Ok(decoded) => parse_catalog(decoded, source),
        Err(why) => Err(
            CatalogError(
                text::cat5(
                    "cannot read ISO catalog \"",
                    source,
                    "\" (QMP_MCP_ISO_CATALOG): ",
                    why.as_str(),
                    ". Point it at a readable JSON file, or leave it unset to use the built-in list.",
                ),
            ),
        ),
    }
}

/// The message for a catalog file that cannot be read.
pub open spec fn unreadable(path: Seq<char>, why: Seq<char>) -> Seq<char> {
    "cannot read ISO catalog \""@ + path + "\" (QMP_MCP_ISO_CATALOG): "@ + why
        + ". Point it at a readable JSON file, or leave it unset to use the built-in list."@
}

// ---------------------------------------------------------------------------
// Laws
// ---------------------------------------------------------------------------

proof fn lemma_accepted_entry(entries: Seq<CatalogEntry>, from: int, n: int, source: Seq<char>)
    requires
        0 <= from <= n < entries.len(),
        entries_problem(entries, from, source) is None,
    ensures
        entry_problem(entries, n, source) is None,
    decreases n - from,
{
    if from < n {
        lemma_accepted_entry(entries, from + 1, n, source);
    }
}

proof fn lemma_accepted_mirror(id: Seq<char>, source: Seq<char>, mirrors: Seq<String>, i: int)
    requires
        0 <= i < mirrors.len(),
        mirrors_problem(id, source, mirrors) is None,
    ensures
        is_mirror(mirrors[i]@),
    decreases mirrors.len(),
{
    if i > 0 {
        lemma_accepted_mirror(id, source, mirrors.skip(1), i - 1);
    }
}

/// In an accepted catalog no two entries share an id, every file name is a safe leaf of the
/// ISO Store, and every entry has at least one mirror, all of them `http(s)` URLs.
pub proof fn accepted_catalogs_are_safe(entries: Vec<CatalogEntry>, source: Seq<char>)
    requires
        catalog_problem(Ok(entries), source) is None,
    ensures
        forall|i: int, j: int|
            0 <= i < j < entries@.len() ==> (#[trigger] entries@[i]).id@ != (
            #[trigger] entries@[j]).id@,
        forall|i: int|
            0 <= i < entries@.len() ==> text::is_safe_name((#[trigger] entries@[i]).filename@)
                && entries@[i].mirrors@.len() > 0,
        forall|i: int, k: int|
            0 <= i < entries@.len() && 0 <= k < entries@[i].mirrors@.len() ==> is_mirror(
                (#[trigger] entries@[i].mirrors@[k])@,
            ),
{
    let es = entries@;
    assert forall|i: int, j: int| 0 <= i < j < es.len() implies (#[trigger] es[i]).id@ != (
    #[trigger] es[j]).id@ by {
        lemma_accepted_entry(es, 0, j, source);
    }
    assert forall|i: int| 0 <= i < es.len() implies text::is_safe_name(
        (#[trigger] es[i]).filename@,
    ) && es[i].mirrors@.len() > 0 by {
        lemma_accepted_entry(es, 0, i, source);
    }
    assert forall|i: int, k: int|
        0 <= i < es.len() && 0 <= k < es[i].mirrors@.len() implies is_mirror(
        (#[trigger] es[i].mirrors@[k])@,
    ) by {
        lemma_accepted_entry(es, 0, i, source);
        lemma_accepted_mirror(es[i].id@, source, es[i].mirrors@, k);
    }
}

proof fn lemma_mirrors_accepted(id: Seq<char>, source: Seq<char>, mirrors: Seq<String>)
    requires
        forall|i: int| 0 <= i < mirrors.len() ==> is_mirror((#[trigger] mirrors[i])@),
    ensures
        mirrors_problem(id, source, mirrors) is None,
    decreases mirrors.len(),
{
    if mirrors.len() > 0 {
        assert(is_mirror(mirrors[0]@));
        assert forall|i: int| 0 <= i < mirrors.skip(1).len() implies is_mirror(
            (#[trigger] mirrors.skip(1)[i])@,
        ) by {
            assert(mirrors.skip(1)[i] == mirrors[i + 1]);
        }
        lemma_mirrors_accepted(id, source, mirrors.skip(1));
    }
}

proof fn lemma_entries_accepted(entries: Seq<CatalogEntry>, n: int, source: Seq<char>)
    requires
        0 <= n,
        forall|i: int| n <= i < entries.len() ==> #[trigger] entry_problem(entries, i, source)
            is None,
    ensures
        entries_problem(entries, n, source) is None,
    decreases entries.len() - n,
{
    if n < entries.len() {
        assert(entry_problem(entries, n, source) is None);
        lemma_entries_accepted(entries, n + 1, source);
    }
}

/// A mirror is an address that begins with `http://` or `https://` and holds neither white
/// space nor control characters.
pub proof fn mirrors_are_http_addresses(url: Seq<char>)
    ensures
        is_mirror(url) <==> {
            &&& (url.len() >= 7 && url.take(7) == "http://"@) || (url.len() >= 8 && url.take(8)
                == "https://"@)
            &&& forall|i: int|
                0 <= i < url.len() ==> !text::is_white_space(#[trigger] url[i])
                    && !text::is_control(url[i])
        },
{
    reveal_strlit("http://");
    reveal_strlit("https://");
}

/// An entry of a catalog is in order where its id and its file name are safe, its name is not
/// blank, it has mirrors and all of them are addresses, and no entry before it has its id.
pub open spec fn is_in_order(entries: Seq<CatalogEntry>, i: int) -> bool {
    &&& text::is_safe_name(entries[i].id@)
    &&& forall|j: int| 0 <= j < i ==> (#[trigger] entries[j]).id@ != entries[i].id@
    &&& !text::is_blank(entries[i].name@)
    &&& text::is_safe_name(entries[i].filename@)
    &&& entries[i].mirrors@.len() > 0
    &&& forall|k: int|
        0 <= k < entries[i].mirrors@.len() ==> is_mirror((#[trigger] entries[i].mirrors@[k])@)
}

proof fn lemma_entry_in_order(entries: Seq<CatalogEntry>, i: int, source: Seq<char>)
    requires
        0 <= i < entries.len(),
    ensures
        entry_problem(entries, i, source) is None <==> is_in_order(entries, i),
{
    let e = entries[i];
    store_path::safe_names_are_accepted(e.filename@, catalog_wording());
    text::safe_names(e.filename@);
    if is_in_order(entries, i) {
        lemma_mirrors_accepted(e.id@, source, e.mirrors@);
    }
    if entry_problem(entries, i, source) is None {
        assert forall|k: int| 0 <= k < e.mirrors@.len() implies is_mirror(
            (#[trigger] e.mirrors@[k])@,
        ) by {
            lemma_accepted_mirror(e.id@, source, e.mirrors@, k);
        }
        assert forall|j: int| 0 <= j < i implies (#[trigger] entries[j]).id@ != entries[i].id@ by {
            assert(!is_duplicate(entries, i));
        }
    }
}

/// A catalog is accepted exactly where it could be decoded, is not empty, and each of its
/// entries is in order.
pub proof fn catalogs_are_accepted_by_their_entries(
    decoded: Result<Vec<CatalogEntry>, String>,
    source: Seq<char>,
)
    ensures
        catalog_problem(decoded, source) is None <==> (decoded matches Ok(entries) && entries@.len()
            > 0 && forall|i: int|
            0 <= i < entries@.len() ==> #[trigger] is_in_order(entries@, i)),
{
    if let Ok(entries) = decoded {
        if catalog_problem(decoded, source) is None {
            assert forall|i: int| 0 <= i < entries@.len() implies #[trigger] is_in_order(
                entries@,
                i,
            ) by {
                lemma_accepted_entry(entries@, 0, i, source);
                lemma_entry_in_order(entries@, i, source);
            }
        }
        if forall|i: int| 0 <= i < entries@.len() ==> #[trigger] is_in_order(entries@, i) {
            assert forall|i: int| 0 <= i < entries@.len() implies #[trigger] entry_problem(
                entries@,
                i,
                source,
            ) is None by {
                assert(is_in_order(entries@, i));
                lemma_entry_in_order(entries@, i, source);
            }
            lemma_entries_accepted(entries@, 0, source);
        }
    }
}

/// The entry of an id is the first one that has it; an id that no entry has, has none.
pub proof fn entries_are_looked_up_by_id(entries: Seq<CatalogEntry>, id: Seq<char>, i: int)
    requires
        0 <= i <= entries.len(),
        forall|j: int| 0 <= j < i ==> (#[trigger] entries[j]).id@ != id,
    ensures
        i == entries.len() ==> entry_of(entries, id) is None,
        i < entries.len() && entries[i].id@ == id ==> entry_of(entries, id) == Some(entries[i]),
        ids(entries).len() == entries.len(),
        forall|k: int| 0 <= k < entries.len() ==> #[trigger] ids(entries)[k] == entries[k].id@,
    decreases i,
{
    if i > 0 {
        assert(entries[0].id@ != id);
        assert forall|j: int| 0 <= j < i - 1 implies (#[trigger] entries.skip(1)[j]).id@ != id by {
            assert(entries.skip(1)[j] == entries[j + 1]);
        }
        entries_are_looked_up_by_id(entries.skip(1), id, i - 1);
    }
}

/// An entry that is not in order is refused for its id, or else because an earlier one has the id,
/// or else for its name, its file name, or its mirrors: that there are none, or the first that is
/// no address. The refusal names the source and the entry.
pub proof fn entries_are_refused_for_what_is_wrong(
    entries: Seq<CatalogEntry>,
    n: int,
    source: Seq<char>,
    k: int,
)
    requires
        0 <= n < entries.len(),
    ensures
        ({
            let e = entries[n];
            let r = entry_problem(entries, n, source);
            let lead = "ISO catalog entry \""@ + e.id@ + "\" ("@ + source + ")"@;
            let twice = exists|j: int| 0 <= j < n && (#[trigger] entries[j]).id@ == e.id@;
            let file = store_path::name_problem(e.filename@, catalog_wording());
            let named = text::is_safe_name(e.id@) && !twice && !text::is_blank(e.name@);
            &&& !text::is_safe_name(e.id@) ==> r == Some(
                "ISO catalog ("@ + source + ") has an invalid id "@ + debug_form(e.id@)
                    + " — ids must be a single token of letters, digits, dot, underscore, or hyphen."@,
            )
            &&& text::is_safe_name(e.id@) && twice ==> r == Some(
                "ISO catalog ("@ + source + ") has a duplicate id \""@ + e.id@ + "\"."@,
            )
            &&& text::is_safe_name(e.id@) && !twice && text::is_blank(e.name@) ==> r == Some(
                lead + " has an empty name."@,
            )
            &&& named && file is Some ==> r == Some(
                lead + (" has an invalid filename: "@ + file->0),
            )
            &&& named && file is None && e.mirrors@.len() == 0 ==> r == Some(
                lead + " has no mirrors (expected at least one URL)."@,
            )
            &&& named && file is None && 0 <= k < e.mirrors@.len() && !is_mirror(e.mirrors@[k]@) && (
            forall|i: int| 0 <= i < k ==> is_mirror((#[trigger] e.mirrors@[i])@)) ==> r == Some(
                lead + (" has an invalid mirror URL "@ + debug_form(e.mirrors@[k]@)
                    + " — mirrors must be http(s) URLs with no whitespace."@),
            )
        }),
{
    let e = entries[n];
    if 0 <= k < e.mirrors@.len() && !is_mirror(e.mirrors@[k]@) && (forall|i: int|
        0 <= i < k ==> is_mirror((#[trigger] e.mirrors@[i])@)) {
        lemma_bad_mirror(e.id@, source, e.mirrors@, k);
    }
}

proof fn lemma_bad_mirror(id: Seq<char>, source: Seq<char>, mirrors: Seq<String>, k: int)
    requires
        0 <= k < mirrors.len(),
        !is_mirror(mirrors[k]@),
        forall|i: int| 0 <= i < k ==> is_mirror((#[trigger] mirrors[i])@),
    ensures
        mirrors_problem(id, source, mirrors) == Some(
            entry_lead(id, source) + (" has an invalid mirror URL "@ + debug_form(mirrors[k]@)
                + " — mirrors must be http(s) URLs with no whitespace."@),
        ),
    decreases mirrors.len(),
{
    if k > 0 {
        let rest = mirrors.skip(1);
        assert(is_mirror(mirrors[0]@));
        assert(rest[k - 1] == mirrors[k]);
        assert forall|i: int| 0 <= i < k - 1 implies is_mirror((#[trigger] rest[i])@) by {
            assert(rest[i] == mirrors[i + 1]);
        }
        lemma_bad_mirror(id, source, rest, k - 1);
    }
}

/// A catalog is refused where it could not be decoded, with the reason; where it is empty; and
/// otherwise for the first entry that is not in order.
pub proof fn the_first_bad_entry_is_reported(
    decoded: Result<Vec<CatalogEntry>, String>,
    source: Seq<char>,
    path: Seq<char>,
    n: int,
)
    ensures
        decoded matches Err(e) ==> catalog_problem(decoded, source) == Some(
            "ISO catalog ("@ + source + ") is not valid JSON: "@ + e@,
        ),
        decoded matches Ok(entries) ==> entries@.len() == 0 ==> catalog_problem(decoded, source)
            == Some(
            "ISO catalog ("@ + source
                + ") contains no entries (expected a non-empty \"isos\" array)."@,
        ),
        decoded matches Ok(entries) ==> 0 <= n < entries@.len() && !is_in_order(entries@, n) && (
        forall|i: int| 0 <= i < n ==> #[trigger] is_in_order(entries@, i)) ==> catalog_problem(
            decoded,
            source,
        ) == entry_problem(entries@, n, source),
        unreadable(path, source) == "cannot read ISO catalog \""@ + path
            + "\" (QMP_MCP_ISO_CATALOG): "@ + source
            + ". Point it at a readable JSON file, or leave it unset to use the built-in list."@,
{
    if let Ok(entries) = decoded {
        if 0 <= n < entries@.len() && !is_in_order(entries@, n) && (forall|i: int|
            0 <= i < n ==> #[trigger] is_in_order(entries@, i)) {
            lemma_bad_entry(entries@, 0, n, source);
        }
    }
}

proof fn lemma_bad_entry(entries: Seq<CatalogEntry>, from: int, n: int, source: Seq<char>)
    requires
        0 <= from <= n < entries.len(),
        !is_in_order(entries, n),
        forall|i: int| 0 <= i < n ==> #[trigger] is_in_order(entries, i),
    ensures
        entries_problem(entries, from, source) == entry_problem(entries, n, source),
    decreases n - from,
{
    lemma_entry_in_order(entries, from, source);
    if from < n {
        assert(is_in_order(entries, from));
        lemma_bad_entry(entries, from + 1, n, source);
    }
}

/// What is said of the file name of an entry is said of catalog file names and the ISO Store.
pub proof fn catalog_wording_is_of_file_names()
    ensures
        catalog_wording().store == "ISO Store"@,
        catalog_wording().entry == "Catalog ISO filename"@,
        catalog_wording().env_var == "QMP_MCP_ISO_DIR"@,
{
}

} // verus!
