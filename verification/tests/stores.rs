use qmp_mcp::instance::image_store::{
    assert_valid_image_name, qemu_img_outcome, resolve_image_path, CreateImageRequest, ImageFormat,
    ImageStore, ImageStoreOptions,
};
use qmp_mcp::instance::iso_store::{assert_valid_iso_name, resolve_iso_path, IsoStore};
use qmp_mcp::instance::store_path::{
    assert_valid_store_name, list_store_files, resolve_in_store, DirItem, Leaf, StoreLabels,
    StoreSnapshot,
};

const LBL: StoreLabels = StoreLabels {
    store: "Test Store",
    entry: "Test item",
    env_var: "QMP_MCP_TEST_DIR",
};

/// A store directory that exists and is its own real path, with the given entries.
fn store_at(dir: &str, leaves: &[(&str, Leaf)]) -> StoreSnapshot {
    StoreSnapshot {
        real_dir: Some(dir.to_string()),
        leaves: leaves
            .iter()
            .map(|(name, leaf)| (name.to_string(), leaf.clone()))
            .collect(),
    }
}

fn file(name: &str, size: u64) -> DirItem {
    DirItem {
        name: name.to_string(),
        is_file: true,
        size_bytes: Some(size),
    }
}

fn not_a_file(name: &str) -> DirItem {
    DirItem {
        name: name.to_string(),
        is_file: false,
        size_bytes: Some(1),
    }
}

fn images(dir: &str, max_disk_gb: u32) -> ImageStore {
    ImageStore::new(ImageStoreOptions {
        dir: dir.to_string(),
        max_disk_gb,
        qemu_img_binary: None,
    })
}

fn req(name: &str, size_gb: i64, format: ImageFormat) -> CreateImageRequest {
    CreateImageRequest {
        name: name.to_string(),
        size_gb,
        format,
    }
}

#[test]
fn accepts_a_plain_single_segment_name() {
    assert!(assert_valid_store_name("root.qcow2", &LBL).is_ok());
    assert!(assert_valid_store_name("disk-1_v2.raw", &LBL).is_ok());
}

#[test]
fn rejects_empty_absolute_dotdot_separators_and_injection() {
    assert!(assert_valid_store_name("", &LBL).is_err());
    assert!(assert_valid_store_name("   ", &LBL).is_err());
    assert!(assert_valid_store_name("/etc/passwd", &LBL)
        .unwrap_err()
        .0
        .contains("absolute path"));
    assert!(assert_valid_store_name("..", &LBL)
        .unwrap_err()
        .0
        .contains("not a valid file name"));
    assert!(assert_valid_store_name("a/b", &LBL)
        .unwrap_err()
        .0
        .contains("path separator"));
    assert!(assert_valid_store_name("root.qcow2,readonly=on", &LBL).is_err());
    assert!(assert_valid_store_name("-leadingdash", &LBL).is_err());
    assert!(assert_valid_store_name("a\0b", &LBL)
        .unwrap_err()
        .0
        .contains("NUL byte"));
}

#[test]
fn the_messages_name_the_entry_and_the_store() {
    assert_eq!(
        assert_valid_store_name(" ", &LBL).unwrap_err().0,
        "Test item name must be a non-empty string."
    );
    assert_eq!(
        assert_valid_store_name("a\\b", &LBL).unwrap_err().0,
        "Test item name \"a\\b\" must not contain a path separator; subdirectories are not \
         allowed in the Test Store."
    );
    assert_eq!(
        assert_valid_store_name("a b", &LBL).unwrap_err().0,
        "Test item name \"a b\" must match ^[A-Za-z0-9][A-Za-z0-9._-]*$ — a single segment of \
         letters, digits, dot, underscore, or hyphen, with no leading hyphen and no comma, '=', \
         ':', or spaces (these could inject QEMU -drive properties)."
    );
}

#[test]
fn a_name_resolves_onto_the_real_directory() {
    let there = store_at("/real/store", &[("a.img", Leaf::Real("/real/store/a.img".to_string()))]);
    assert_eq!(
        resolve_in_store("a.img", "/link", &LBL, &there).unwrap(),
        "/real/store/a.img"
    );
    assert_eq!(
        resolve_in_store("new.img", "/link", &LBL, &there).unwrap(),
        "/real/store/new.img"
    );
}

#[test]
fn links_out_of_the_store_and_dangling_ones_are_refused() {
    let there = store_at(
        "/real/store",
        &[
            ("out", Leaf::Real("/real/store-sibling/x".to_string())),
            ("in", Leaf::Real("/real/store/sub/x".to_string())),
            ("gone", Leaf::Dangling),
        ],
    );
    assert_eq!(
        resolve_in_store("out", "/s", &LBL, &there).unwrap_err().0,
        "Test item \"out\" resolves outside the Test Store (symlink escape); refusing."
    );
    assert_eq!(
        resolve_in_store("in", "/s", &LBL, &there).unwrap(),
        "/real/store/in"
    );
    assert_eq!(
        resolve_in_store("gone", "/s", &LBL, &there).unwrap_err().0,
        "Test item \"gone\" is a dangling symlink; refusing to follow it out of the Test Store."
    );
}

#[test]
fn a_missing_store_names_its_variable() {
    assert_eq!(
        resolve_in_store("a", "/nowhere", &LBL, &StoreSnapshot::missing())
            .unwrap_err()
            .0,
        "Test Store directory \"/nowhere\" does not exist or is not accessible. Create it or set \
         QMP_MCP_TEST_DIR to an existing directory."
    );
}

#[test]
fn listings_are_sorted_and_skip_what_vanished() {
    let mut vanished = file("c", 1);
    vanished.size_bytes = None;
    let found = vec![file("b", 2), vanished, file("B", 3), file("a", 1)];
    let names: Vec<String> = list_store_files("/s", &LBL, Some(found))
        .unwrap()
        .into_iter()
        .map(|e| e.name)
        .collect();
    assert_eq!(names, vec!["B", "a", "b"]);
}

#[test]
fn resolve_and_name_validation_reject_traversal_absolute_and_injection() {
    assert!(assert_valid_iso_name("debian.iso").is_ok());
    assert!(assert_valid_iso_name("/etc/passwd")
        .unwrap_err()
        .0
        .contains("absolute path"));
    assert!(assert_valid_iso_name("../escape.iso")
        .unwrap_err()
        .0
        .contains("path separator"));
    assert!(assert_valid_iso_name("debian.iso,readonly=off")
        .unwrap_err()
        .0
        .contains("could inject QEMU -drive properties"));
    assert!(resolve_iso_path("..", "/tmp", &store_at("/tmp", &[]))
        .unwrap_err()
        .0
        .contains("ISO name \"..\" is not a valid file name"));
}

#[test]
fn iso_store_list_fails_closed_when_the_store_is_missing() {
    let err = IsoStore::new("/nonexistent/qmp-mcp-iso-store-xyz".to_string())
        .list(None)
        .unwrap_err();
    assert!(err.0.contains("QMP_MCP_ISO_DIR"));
    assert!(err.0.contains("does not exist or is not accessible"));
}

#[test]
fn iso_store_list_reports_only_regular_files_sorted_skipping_symlinks_and_dirs() {
    let found = vec![
        file("ubuntu.iso", 2),
        file("debian.iso", 4),
        not_a_file("subdir"),
        not_a_file("link.iso"),
    ];
    let listing = IsoStore::new("/srv/isos".to_string()).list(Some(found)).unwrap();
    assert_eq!(listing.store, "/srv/isos");
    let names: Vec<&str> = listing.isos.iter().map(|i| i.name.as_str()).collect();
    assert_eq!(names, vec!["debian.iso", "ubuntu.iso"]);
    assert_eq!(listing.isos[0].size_bytes, 4);
    assert_eq!(listing.isos[1].size_bytes, 2);
}

#[test]
fn rejects_over_cap_size_naming_the_variable_and_bounds() {
    let err = images("/srv/images", 10)
        .create(
            &req("big.qcow2", 11, ImageFormat::Qcow2),
            &store_at("/srv/images", &[]),
        )
        .unwrap_err();
    assert!(err.0.contains(
        "Requested disk size 11 GiB exceeds the maximum allowed 10 GiB (QMP_MCP_MAX_DISK_GB)."
    ));
    assert!(err.0.contains("Request 10 GiB or less."));
    assert!(!err.0.is_empty());
}

#[test]
fn rejects_non_positive_size() {
    let err = images("/srv/images", 64)
        .create(
            &req("z.qcow2", 0, ImageFormat::Qcow2),
            &store_at("/srv/images", &[]),
        )
        .unwrap_err();
    assert!(err
        .0
        .contains("Disk size must be a positive integer number of GiB (got 0)."));
    let err = images("/srv/images", 64)
        .create(
            &req("z.qcow2", -3, ImageFormat::Qcow2),
            &store_at("/srv/images", &[]),
        )
        .unwrap_err();
    assert!(err.0.contains("(got -3)."));
}

#[test]
fn rejects_absolute_traversal_and_injection_names() {
    let s = images("/srv/images", 64);
    let there = store_at("/srv/images", &[]);
    assert!(s
        .create(&req("/etc/passwd", 1, ImageFormat::Qcow2), &there)
        .unwrap_err()
        .0
        .contains("absolute path"));
    assert!(s
        .create(&req("../escape.qcow2", 1, ImageFormat::Qcow2), &there)
        .unwrap_err()
        .0
        .contains("path separator"));
    assert!(s
        .create(&req("disk.qcow2,readonly=on", 1, ImageFormat::Qcow2), &there)
        .unwrap_err()
        .0
        .contains("could inject QEMU -drive properties"));
}

#[test]
fn image_store_rejects_symlink_that_escapes_the_store() {
    let err = images("/srv/images", 64)
        .create(
            &req("evil.qcow2", 1, ImageFormat::Qcow2),
            &store_at(
                "/srv/images",
                &[("evil.qcow2", Leaf::Real("/etc/passwd".to_string()))],
            ),
        )
        .unwrap_err();
    assert!(err.0.contains("symlink escape"));
}

#[test]
fn rejects_a_name_that_already_exists() {
    let err = images("/srv/images", 64)
        .create(
            &req("root.qcow2", 1, ImageFormat::Qcow2),
            &store_at(
                "/srv/images",
                &[("root.qcow2", Leaf::Real("/srv/images/root.qcow2".to_string()))],
            ),
        )
        .unwrap_err();
    assert!(err
        .0
        .contains("An image named \"root.qcow2\" already exists in the Image Store."));
}

#[test]
fn image_store_list_fails_closed_when_the_store_is_missing() {
    let s = images("/nonexistent/qmp-mcp-image-store-xyz", 64);
    let err = s.list(None).unwrap_err();
    assert!(err.0.contains("QMP_MCP_IMAGE_DIR"));
    assert!(err.0.contains("does not exist or is not accessible"));
}

#[test]
fn image_store_list_reports_only_regular_files_sorted_skipping_symlinks_and_dirs() {
    let found = vec![
        file("b.raw", 2),
        file("a.qcow2", 4),
        not_a_file("subdir"),
        not_a_file("link.qcow2"),
    ];
    let listing = images("/srv/images", 64).list(Some(found)).unwrap();
    assert_eq!(listing.store, "/srv/images");
    let names: Vec<&str> = listing.images.iter().map(|i| i.name.as_str()).collect();
    assert_eq!(names, vec!["a.qcow2", "b.raw"]);
    assert_eq!(listing.images[0].size_bytes, 4);
    assert_eq!(listing.images[1].size_bytes, 2);
}

#[test]
fn an_accepted_creation_is_a_qemu_img_command() {
    assert!(assert_valid_image_name("disk.qcow2").is_ok());
    let there = store_at("/srv/images", &[]);
    assert_eq!(
        resolve_image_path("disk.qcow2", "/srv/images", &there).unwrap(),
        "/srv/images/disk.qcow2"
    );
    let creation = images("/srv/images", 64)
        .create(&req("disk.qcow2", 1, ImageFormat::Qcow2), &there)
        .unwrap();
    assert_eq!(creation.binary, "qemu-img");
    assert_eq!(
        creation.args,
        vec!["create", "-f", "qcow2", "/srv/images/disk.qcow2", "1G"]
    );
    let image = creation.finish(Ok(())).unwrap();
    assert_eq!(image.name, "disk.qcow2");
    assert_eq!(image.path, "/srv/images/disk.qcow2");
    assert_eq!(image.format, ImageFormat::Qcow2);
    assert_eq!(image.size_gb, 1);
}

#[test]
fn a_failed_creation_says_why() {
    let args = vec!["create".to_string(), "x".to_string()];
    assert_eq!(qemu_img_outcome("qemu-img", &args, true, Some(0), None, "noise"), Ok(()));
    let why = qemu_img_outcome("qemu-img", &args, false, Some(1), None, "  no space \n").unwrap_err();
    assert_eq!(why, "qemu-img create x failed (code=1, signal=null): no space");
    assert_eq!(
        qemu_img_outcome("qemu-img", &args, false, None, Some(9), " ").unwrap_err(),
        "qemu-img create x failed (code=null, signal=9): (no stderr)"
    );
    let creation = images("/srv/images", 64)
        .create(
            &req("disk.raw", 2, ImageFormat::Raw),
            &store_at("/srv/images", &[]),
        )
        .unwrap();
    assert_eq!(
        creation.finish(Err(why)).unwrap_err().0,
        "Failed to create image \"disk.raw\": qemu-img create x failed (code=1, signal=null): no space"
    );
}

#[test]
fn store_tools_surface_failures_actionably() {
    let err = images("/nonexistent/images", 64).list(None).unwrap_err();
    assert!(err.0.contains("QMP_MCP_IMAGE_DIR"));
    let err = IsoStore::new("/nonexistent/isos".to_string())
        .list(None)
        .unwrap_err();
    assert!(err.0.contains("QMP_MCP_ISO_DIR"));
    let err = images("/nonexistent/images", 64)
        .create(
            &req("../escape.qcow2", 1, ImageFormat::Qcow2),
            &StoreSnapshot::missing(),
        )
        .unwrap_err();
    assert!(err.0.contains("path separator"));
}
