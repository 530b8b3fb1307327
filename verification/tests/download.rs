use qmp_mcp::instance::catalog::{Catalog, CatalogEntry};
use qmp_mcp::instance::download::{
    check_content_type, fetch_error, temp_path_for, DownloadAction, DownloadEvent, DownloadManager,
    DownloadManagerOptions, DownloadState, DownloadStatus, FetchError, FetchTrouble,
};
use qmp_mcp::instance::store_path::{Leaf, StoreSnapshot};

const DIR: &str = "/srv/isos";

fn catalog() -> Catalog {
    Catalog {
        source: "test".to_string(),
        entries: vec![CatalogEntry {
            id: "one".to_string(),
            name: "One".to_string(),
            edition: None,
            arch: None,
            filename: "one.iso".to_string(),
            mirrors: vec![
                "https://a/one.iso".to_string(),
                "https://b/one.iso".to_string(),
            ],
        }],
    }
}

fn manager(allow_download: bool) -> DownloadManager {
    DownloadManager::new(DownloadManagerOptions {
        iso_dir: DIR.to_string(),
        allow_download,
        catalog: catalog(),
    })
}

fn store(names: &[&str]) -> StoreSnapshot {
    StoreSnapshot {
        real_dir: Some(DIR.to_string()),
        leaves: names
            .iter()
            .map(|n| (n.to_string(), Leaf::Real(format!("{DIR}/{n}"))))
            .collect(),
    }
}

/// Run the download that was started: each mirror yields bytes, or fails halfway.
fn run(mgr: &mut DownloadManager, pages: &[(&str, Result<u64, &str>)]) -> DownloadStatus {
    run_on(mgr, pages, &mut vec![])
}

/// Run the download that was started, on a disk that holds the given files.
fn run_on(
    mgr: &mut DownloadManager,
    pages: &[(&str, Result<u64, &str>)],
    files: &mut Vec<String>,
) -> DownloadStatus {
    let mut action = mgr.advance(DownloadEvent::Begun);
    loop {
        let event = match action {
            DownloadAction::Fetch { url, temp, discard } => {
                assert_eq!(temp, "/srv/isos/one.iso.part");
                assert!(discard);
                files.retain(|f| *f != temp);
                files.push(temp);
                match pages.iter().find(|(u, _)| *u == url).map(|(_, page)| page) {
                    Some(Ok(bytes)) => {
                        mgr.on_total(Some(*bytes));
                        mgr.on_progress(*bytes);
                        DownloadEvent::Fetched
                    }
                    Some(Err(why)) => DownloadEvent::FetchFailed(FetchError(why.to_string())),
                    None => DownloadEvent::FetchFailed(FetchError("no route".to_string())),
                }
            }
            DownloadAction::Rename { temp, dest } => {
                assert_eq!(temp, "/srv/isos/one.iso.part");
                assert_eq!(dest, "/srv/isos/one.iso");
                files.retain(|f| *f != temp);
                files.push(dest);
                DownloadEvent::Renamed
            }
            DownloadAction::End { temp, discard } => {
                assert_eq!(temp, "/srv/isos/one.iso.part");
                if discard {
                    files.retain(|f| *f != temp);
                }
                let report = mgr.describe();
                assert!(!report.active);
                let done = report.download.unwrap();
                assert_eq!(discard, done.state == DownloadState::Failed);
                return done;
            }
        };
        action = mgr.advance(event);
    }
}

#[test]
fn disabled_gate_fails_closed_naming_the_variable() {
    let mut mgr = manager(false);
    let err = mgr.start("one", &store(&[])).unwrap_err();
    assert!(err.0.contains("QMP_MCP_ALLOW_DOWNLOAD"));
    assert!(!mgr.describe().available);
}

#[test]
fn unknown_id_is_rejected_with_the_available_ids() {
    let mut mgr = manager(true);
    let err = mgr.start("nope", &store(&[])).unwrap_err();
    assert!(err.0.contains("unknown ISO id"));
    assert!(err.0.contains("one"));
}

#[test]
fn existing_file_is_not_overwritten() {
    let mut mgr = manager(true);
    let err = mgr.start("one", &store(&["one.iso"])).unwrap_err();
    assert!(err.0.contains("already present"));
    assert!(!mgr.describe().active);
}

#[test]
fn downloads_the_first_working_mirror_and_renames_atomically() {
    let mut mgr = manager(true);
    let initial = mgr.start("one", &store(&[])).unwrap();
    assert_eq!(initial.state, DownloadState::Downloading);
    let mut files = vec![];
    let done = run_on(&mut mgr, &[("https://a/one.iso", Ok(8))], &mut files);
    assert_eq!(done.state, DownloadState::Completed);
    assert_eq!(done.bytes_downloaded, 8);
    assert_eq!(done.percent, Some(100));
    assert_eq!(done.path, Some("/srv/isos/one.iso".to_string()));
    assert_eq!(done.mirror, Some("https://a/one.iso".to_string()));
    assert_eq!(files, ["/srv/isos/one.iso"]);
}

#[test]
fn falls_over_to_the_second_mirror_when_the_first_fails() {
    let mut mgr = manager(true);
    mgr.start("one", &store(&[])).unwrap();
    let done = run(
        &mut mgr,
        &[
            ("https://a/one.iso", Err("503 from a")),
            ("https://b/one.iso", Ok(6)),
        ],
    );
    assert_eq!(done.state, DownloadState::Completed);
    assert_eq!(done.mirror_index, 1);
    assert_eq!(done.mirrors_total, 2);
    assert_eq!(done.bytes_downloaded, 6);
}

#[test]
fn all_mirrors_failing_marks_failed_and_leaves_no_partial() {
    let mut mgr = manager(true);
    mgr.start("one", &store(&[])).unwrap();
    let mut files = vec![];
    let done = run_on(
        &mut mgr,
        &[
            ("https://a/one.iso", Err("boom a")),
            ("https://b/one.iso", Err("boom b")),
        ],
        &mut files,
    );
    assert_eq!(done.state, DownloadState::Failed);
    assert!(done.error.unwrap().contains("boom b"));
    assert_eq!(done.path, None);
    assert!(files.is_empty(), "left behind: {files:?}");
}

#[test]
fn rejects_a_second_download_while_one_is_in_progress() {
    let mut mgr = manager(true);
    mgr.start("one", &store(&[])).unwrap();
    assert!(mgr.describe().active);
    let err = mgr.start("one", &store(&[])).unwrap_err();
    assert!(err.0.contains("already in progress"));
    let done = run(&mut mgr, &[("https://a/one.iso", Ok(1))]);
    assert_eq!(done.state, DownloadState::Completed);
    assert!(!mgr.describe().active);
    assert!(mgr.start("one", &store(&[])).is_ok());
}

#[test]
fn a_missing_store_refuses_a_download() {
    let mut mgr = manager(true);
    let err = mgr.start("one", &StoreSnapshot::missing()).unwrap_err();
    assert!(err.0.contains("QMP_MCP_ISO_DIR"));
}

#[test]
fn progress_is_a_percentage_of_the_total() {
    let mut mgr = manager(true);
    mgr.start("one", &store(&[])).unwrap();
    mgr.advance(DownloadEvent::Begun);
    mgr.on_progress(10);
    assert_eq!(mgr.describe().download.unwrap().percent, None);
    mgr.on_total(Some(300));
    mgr.on_progress(100);
    let status = mgr.describe().download.unwrap();
    assert_eq!(status.percent, Some(33));
    assert_eq!(status.total_bytes, Some(300));
    mgr.on_progress(400);
    assert_eq!(mgr.describe().download.unwrap().percent, Some(100));
}

#[test]
fn a_rename_that_fails_ends_the_download() {
    let mut mgr = manager(true);
    mgr.start("one", &store(&[])).unwrap();
    mgr.advance(DownloadEvent::Begun);
    mgr.advance(DownloadEvent::Fetched);
    let end = mgr.advance(DownloadEvent::RenameFailed("disk full".to_string()));
    assert!(matches!(end, DownloadAction::End { discard: true, .. }));
    assert_eq!(
        mgr.describe().download.unwrap().error.unwrap(),
        "failed to finalize /srv/isos/one.iso: disk full"
    );
}

#[test]
fn the_report_speaks_of_the_catalog() {
    let mgr = manager(true);
    let report = mgr.describe();
    assert!(report.available);
    assert_eq!(report.catalog_source, "test");
    assert_eq!(report.catalog_count, 1);
    assert_eq!(report.iso_dir, DIR);
    assert!(report.download.is_none());
    assert_eq!(mgr.catalog().entries.len(), 1);
}

#[test]
fn a_web_page_is_no_image() {
    let url = "https://a/one.iso";
    assert!(check_content_type(url, None).is_ok());
    assert!(check_content_type(url, Some("application/octet-stream")).is_ok());
    let err = check_content_type(url, Some("Text/HTML; charset=utf-8")).unwrap_err();
    assert!(err.0.contains(url), "{}", err.0);
}

#[test]
fn fetch_errors_say_what_was_being_done() {
    let said = |trouble| fetch_error("U", "D", trouble).0;
    assert_eq!(said(FetchTrouble::Request("e".into())), "request to U failed: e");
    assert_eq!(said(FetchTrouble::Status("e".into())), "U returned an error status: e");
    assert_eq!(said(FetchTrouble::Create("e".into())), "cannot create D: e");
    assert_eq!(said(FetchTrouble::Stalled), "U stalled (no data for 60s)");
    assert_eq!(said(FetchTrouble::Write("e".into())), "write to D failed: e");
    assert_eq!(said(FetchTrouble::Transfer("e".into())), "download from U failed: e");
    assert_eq!(said(FetchTrouble::Flush("e".into())), "flush D failed: e");
    assert_eq!(temp_path_for("/x/y.iso"), "/x/y.iso.part");
}
