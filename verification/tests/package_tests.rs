use neuraloc_core::errors::AppError;
use neuraloc_core::packages::{
    check_download_url, check_install_path, check_installed_file, check_installed_root, check_internet_access,
    check_inventory_entry_path, check_inventory_paths, check_installed_files, first_unsafe_path, ObservedFile, check_offline_archive_file, check_redirect, check_removal,
    check_walked_entry, not_in_catalog_error, not_installed_error, WalkedEntry, approved_download_url, check_archive_identity, check_content_length, check_expected_files,
    check_offline_archive_text, hex_lower, inventory_matches, inventory_path, safe_relative_path,
    safe_windows_name, sort_files_by_path, validate_manifest, DownloadTally, EnginePackageManifest,
    EnginePackageState, ExtractionBudget, FileWriteTally, InstalledPackageFile,
};

fn fixture_manifest(size: u64, sha256: String) -> EnginePackageManifest {
    EnginePackageManifest {
        manifest_version: 1,
        id: "llama.cpp-test-windows-x86_64-cpu".into(),
        engine_id: "llama.cpp".into(),
        version: "test".into(),
        platform: "windows".into(),
        architecture: "x86_64".into(),
        route: "cpu".into(),
        source_url: "https://github.com/example/package.zip".into(),
        archive_file_name: "package.zip".into(),
        archive_size_bytes: size,
        archive_sha256: sha256,
        expected_files: vec!["llama-server.exe".into()],
    }
}

#[test]
fn rejects_windows_device_names_and_alternate_data_streams() {
    assert!(!safe_relative_path("CON.dll"));
    assert!(!safe_relative_path("server.exe:payload"));
    assert!(!safe_relative_path("folder/LPT1.txt"));
    assert!(!safe_relative_path("folder/llam\u{e1}.dll"));
    assert!(safe_relative_path("folder/llama-server.exe"));
    assert!(check_offline_archive_text(r"\\?\C:\package.zip").is_err());
}

#[test]
fn relative_paths_refuse_traversal_roots_and_empty_segments() {
    assert!(!safe_relative_path("../escape.exe"));
    assert!(!safe_relative_path(r"C:\absolute.exe"));
    assert!(!safe_relative_path("/rooted.exe"));
    assert!(!safe_relative_path(""));
    assert!(!safe_relative_path("./bin/ggml.dll"));
    assert!(safe_relative_path("bin/./ggml.dll"));
    assert!(safe_relative_path("bin//ggml.dll"));
    assert!(safe_windows_name("ggml-cpu.dll"));
    assert!(!safe_windows_name("nul"));
    assert!(!safe_windows_name("trailing."));
}

#[test]
fn fixture_manifest_is_valid_and_its_refusals_are_named() {
    let good = fixture_manifest(1024, "a".repeat(64));
    assert!(validate_manifest(&good).is_ok());
    let mut bad = good.clone();
    bad.manifest_version = 2;
    assert_eq!(
        validate_manifest(&bad),
        Err(AppError::EnginePackage("the package manifest version is unsupported".into()))
    );
    let mut bad = good.clone();
    bad.archive_sha256 = "0".repeat(63);
    assert_eq!(validate_manifest(&bad), Err(AppError::EnginePackage("the package SHA-256 is malformed".into())));
    let mut bad = good.clone();
    bad.source_url = "https://example.com/package.zip".into();
    assert_eq!(
        validate_manifest(&bad),
        Err(AppError::EnginePackage("the package URL is not on an approved HTTPS host".into()))
    );
    let mut bad = good.clone();
    bad.expected_files = vec!["llama-server.exe".into(), "LLAMA-SERVER.EXE".into()];
    assert_eq!(
        validate_manifest(&bad),
        Err(AppError::EnginePackage("the package manifest contains an unsafe or duplicate expected path".into()))
    );
}

#[test]
fn download_urls_must_be_plain_https_on_github_hosts() {
    let approved = |text: &str| approved_download_url(&check_download_url(text).unwrap());
    assert!(approved("https://github.com/ggml-org/llama.cpp/releases/x.zip"));
    assert!(approved("https://objects.githubusercontent.com/x.zip"));
    for rejected in ["http://github.com/x.zip", "https://github.com:8443/x.zip", "https://user@github.com/x.zip"] {
        assert_eq!(
            check_download_url(rejected).unwrap_err(),
            AppError::EnginePackage("the package URL is not on an approved HTTPS host".into())
        );
    }
    match check_download_url("not a url") {
        Err(AppError::EnginePackage(detail)) => assert!(detail.starts_with("the package URL is invalid: ")),
        other => panic!("unexpected {other:?}"),
    }
    let parts = check_download_url("https://GitHub.com:443/a").unwrap();
    assert_eq!(parts.port, None);
    assert_eq!(parts.host.as_deref(), Some("github.com"));
}

#[test]
fn downloads_are_counted_against_the_pinned_size_and_digest() {
    assert!(check_content_length(Some(10), 10).is_ok());
    assert!(check_content_length(Some(11), 10).is_err());
    let mut over = DownloadTally::new(10);
    over.add(6).unwrap();
    assert_eq!(
        over.add(5),
        Err(AppError::EnginePackage("the package download exceeded its expected size".into()))
    );
    let mut tally = DownloadTally::new(10);
    tally.add(6).unwrap();
    assert_eq!(
        tally.finish(&"a".repeat(64), &"a".repeat(64)),
        Err(AppError::EnginePackage("download ended at 6 bytes; expected 10".into()))
    );
    tally.add(4).unwrap();
    assert!(tally.finish(&"a".repeat(64), &"a".repeat(64)).is_ok());
    assert!(tally.finish(&"b".repeat(64), &"a".repeat(64)).is_err());
    let manifest = fixture_manifest(10, "a".repeat(64));
    assert!(check_archive_identity(10, &"a".repeat(64), &manifest).is_ok());
    assert!(check_archive_identity(10, &"0".repeat(64), &manifest).is_err());
    assert_eq!(hex_lower(&[0x00, 0xab, 0x7f]), "00ab7f");
}

#[test]
fn extraction_is_bounded_and_refuses_unsafe_entries() {
    let mut budget = ExtractionBudget::new(1024);
    assert!(budget.accept_entry(Some("llama-server.exe"), false, 100).is_ok());
    assert!(budget.accept_entry(None, false, 1).is_err());
    assert!(budget.accept_entry(Some("link.dll"), true, 1).is_err());
    let mut tally = FileWriteTally::new(4);
    tally.add(3).unwrap();
    assert!(tally.finish().is_err());
    tally.add(1).unwrap();
    assert_eq!(tally.finish(), Ok(4));
    assert!(tally.add(1).is_err());
}

fn file(path: &str) -> InstalledPackageFile {
    InstalledPackageFile { path: path.into(), size_bytes: 1, sha256: "a".repeat(64) }
}

#[test]
fn inventories_are_sorted_and_compared_as_sets() {
    let sorted = sort_files_by_path(vec![file("b.dll"), file("a/x.dll"), file("a.exe")]);
    let paths: Vec<&str> = sorted.iter().map(|f| f.path.as_str()).collect();
    assert_eq!(paths, ["a.exe", "a/x.dll", "b.dll"]);
    assert_eq!(inventory_path(r"bin\ggml.dll"), "bin/ggml.dll");
    let files = vec![file("llama-server.exe"), file("ggml.dll")];
    assert!(inventory_matches(&["ggml.dll".to_string(), "llama-server.exe".to_string()], &files));
    assert!(!inventory_matches(&["ggml.dll".to_string(), "untracked.dll".to_string()], &files));
    assert!(check_expected_files(&files, &["llama-server.exe".to_string()]).is_ok());
    assert!(check_expected_files(&files, &["missing.exe".to_string()]).is_err());
}

#[test]
fn package_state_names_round_trip() {
    for state in [
        EnginePackageState::Installing,
        EnginePackageState::Ready,
        EnginePackageState::Invalid,
        EnginePackageState::Missing,
    ] {
        assert_eq!(EnginePackageState::parse(state.as_str()), Some(state));
    }
    assert_eq!(EnginePackageState::parse("READY"), None);
}

#[test]
fn installation_checks_walk_verify_and_remove_safely() {
    assert!(check_installed_root(true, false, true, 1).is_ok());
    assert_eq!(
        check_installed_root(false, false, false, 1),
        Err(AppError::EnginePackage("the installed package directory is missing".into()))
    );
    assert_eq!(
        check_installed_root(true, false, true, 0),
        Err(AppError::EnginePackage("the installed package directory or file inventory is missing".into()))
    );
    assert_eq!(check_walked_entry(1, false, true, false, None), Ok(WalkedEntry::Directory));
    assert_eq!(
        check_walked_entry(2, false, false, true, Some(r"Bin\GGML.dll")),
        Ok(WalkedEntry::File("bin/ggml.dll".into()))
    );
    assert_eq!(
        check_walked_entry(513, false, false, true, Some("a.dll")),
        Err(AppError::EnginePackage("the installed package exceeds its entry limit".into()))
    );
    assert_eq!(
        check_walked_entry(3, true, false, true, Some("a.dll")),
        Err(AppError::EnginePackage("the installed package contains a link or reparse point".into()))
    );
    assert_eq!(
        check_walked_entry(3, false, false, false, Some("pipe")),
        Err(AppError::EnginePackage("the installed package contains a non-file entry".into()))
    );
    let files = vec![file("llama-server.exe")];
    assert!(check_inventory_paths(&["llama-server.exe".to_string()], &files).is_ok());
    assert_eq!(
        check_inventory_paths(&["llama-server.exe".to_string(), "untracked.dll".to_string()], &files),
        Err(AppError::EnginePackage("the installed package contains missing or untracked files".into()))
    );
    assert!(check_inventory_entry_path("../x.dll").is_err());
    assert!(check_installed_file(&files[0], false, true, 1, &"a".repeat(64)).is_ok());
    assert_eq!(
        check_installed_file(&files[0], false, true, 1, &"b".repeat(64)),
        Err(AppError::EnginePackage("installed package file llama-server.exe failed verification".into()))
    );
    assert_eq!(
        check_installed_file(&files[0], true, true, 1, &"a".repeat(64)),
        Err(AppError::EnginePackage("installed package file llama-server.exe is missing or unsafe".into()))
    );
    assert_eq!(check_removal(true, false, false), Ok(false));
    assert_eq!(check_removal(true, true, false), Ok(true));
    assert!(check_removal(false, true, false).is_err());
    assert!(check_removal(true, true, true).is_err());
}

#[test]
fn offline_archives_and_downloads_are_gated() {
    assert!(check_offline_archive_text(r"C:\packages\llama.zip").is_ok());
    assert_eq!(
        check_offline_archive_text(r"C:\packages\..\llama.zip"),
        Err(AppError::InvalidPath("the selected package archive path must be absolute and traversal-free".into()))
    );
    assert_eq!(
        check_offline_archive_text("  "),
        Err(AppError::InvalidPath("the selected package archive path is malformed".into()))
    );
    assert!(check_offline_archive_file(false, false, true, r"C:\packages\llama.ZIP").is_ok());
    assert_eq!(
        check_offline_archive_file(false, false, true, r"C:\packages\llama.tar"),
        Err(AppError::InvalidPath("the selected package must be a regular .zip file".into()))
    );
    assert_eq!(
        check_internet_access(false),
        Err(AppError::EnginePackage("internet access is disabled in Settings".into()))
    );
    assert_eq!(
        not_in_catalog_error("x"),
        AppError::EnginePackage("engine package x is not in the catalog".into())
    );
    assert_eq!(not_installed_error("x"), AppError::EnginePackage("engine package x is not installed".into()));
    assert!(check_install_path(false).is_err());
    assert!(check_download_url("https://github.com/a.zip").is_ok());
    assert_eq!(
        check_download_url("https://example.com/a.zip").unwrap_err(),
        AppError::EnginePackage("the package URL is not on an approved HTTPS host".into())
    );
    assert!(check_redirect(0, "https://objects.githubusercontent.com/a").is_ok());
    assert_eq!(check_redirect(5, "https://github.com/a"), Err("engine package redirect limit exceeded".to_string()));
    assert_eq!(check_redirect(1, "https://example.com/a"), Err("engine package redirect host is not approved".to_string()));
}

use neuraloc_core::packages::{
    failed_install_record, mark_verification_failed, mark_verified, package_ready_for_runtime, pending_record,
    ready_record, reconcile_record,
};

#[test]
fn installation_records_follow_their_lifecycle() {
    let manifest = fixture_manifest(10, "a".repeat(64));
    let pending = pending_record(&manifest, r"C:\data\engines\pkg".into(), None);
    assert_eq!(pending.state, EnginePackageState::Installing);
    assert!(pending.files.is_empty());
    let mut record = ready_record(&manifest, r"C:\data\engines\pkg".into(), vec![file("llama-server.exe")], None, "t1".into());
    assert_eq!(record.state, EnginePackageState::Ready);
    assert_eq!(record.installed_at.as_deref(), Some("t1"));
    assert!(package_ready_for_runtime(&record));
    mark_verification_failed(&mut record, false, "gone".into(), "t2".into());
    assert_eq!(record.state, EnginePackageState::Missing);
    assert_eq!(record.error.as_deref(), Some("gone"));
    assert!(!package_ready_for_runtime(&record));
    mark_verified(&mut record, "t3".into());
    assert_eq!(record.state, EnginePackageState::Ready);
    assert_eq!(record.installed_at.as_deref(), Some("t1"));
    assert_eq!(record.verified_at.as_deref(), Some("t3"));
    let failed = failed_install_record(&manifest, r"C:\data\engines\pkg".into(), None, "bad zip".into(), "t4".into());
    assert_eq!(failed.state, EnginePackageState::Invalid);
    assert_eq!(failed.error.as_deref(), Some("bad zip"));

    let mut interrupted = pending_record(&manifest, r"C:\data\engines\pkg".into(), None);
    assert!(reconcile_record(&mut interrupted, true, true, "t5".into()));
    assert_eq!(interrupted.state, EnginePackageState::Invalid);
    assert_eq!(interrupted.error.as_deref(), Some("the previous package install was interrupted"));
    let mut missing = ready_record(&manifest, r"C:\data\engines\pkg".into(), vec![file("llama-server.exe")], None, "t1".into());
    assert!(reconcile_record(&mut missing, true, false, "t6".into()));
    assert_eq!(missing.state, EnginePackageState::Missing);
    let mut fine = ready_record(&manifest, r"C:\data\engines\pkg".into(), vec![file("llama-server.exe")], None, "t1".into());
    assert!(!reconcile_record(&mut fine, true, true, "t7".into()));
    assert_eq!(fine.verified_at.as_deref(), Some("t1"));
    assert!(reconcile_record(&mut fine, false, true, "t8".into()));
    assert_eq!(fine.error.as_deref(), Some("the stored package path does not match the bundled manifest"));
}

#[test]
fn bundled_manifest_is_valid() {
    let manifest = EnginePackageManifest {
        manifest_version: 1,
        id: "llama.cpp-b9986-windows-x86_64-cpu".into(),
        engine_id: "llama.cpp".into(),
        version: "b9986".into(),
        platform: "windows".into(),
        architecture: "x86_64".into(),
        route: "cpu".into(),
        source_url: "https://github.com/ggml-org/llama.cpp/releases/download/b9986/llama-b9986-bin-win-cpu-x64.zip".into(),
        archive_file_name: "llama-b9986-bin-win-cpu-x64.zip".into(),
        archive_size_bytes: 24_117_248,
        archive_sha256: "3f1c9a7e5d2b8046c1e9f7a3b5d0c2e4f6a8b1d3c5e7f9a0b2c4d6e8f1a3b5c7".into(),
        expected_files: vec!["llama-server.exe".into(), "ggml.dll".into(), "llama.dll".into()],
    };
    assert_eq!(validate_manifest(&manifest), Ok(()));
}

fn inventory_file(path: &str, size: u64, sha256: &str) -> InstalledPackageFile {
    InstalledPackageFile { path: path.into(), size_bytes: size, sha256: sha256.into() }
}

fn seen(size: u64, sha256: &str) -> ObservedFile {
    ObservedFile { is_link: false, is_file: true, size, sha256: sha256.into() }
}

#[test]
fn installed_files_detect_changes_on_disk() {
    let files = vec![inventory_file("llama-server.exe", 14, "aa"), inventory_file("lib/ggml.dll", 3, "bb")];
    assert_eq!(first_unsafe_path(&files), 2);
    assert_eq!(check_installed_files(&files, &[seen(14, "aa"), seen(3, "bb")]), Ok(()));
    assert_eq!(
        check_installed_files(&files, &[seen(8, "cc"), seen(3, "bb")]),
        Err(AppError::EnginePackage("installed package file llama-server.exe failed verification".into()))
    );
    assert_eq!(
        check_installed_files(&files, &[seen(14, "aa"), seen(3, "bc")]),
        Err(AppError::EnginePackage("installed package file lib/ggml.dll failed verification".into()))
    );
    let mut link = seen(3, "bb");
    link.is_link = true;
    assert_eq!(
        check_installed_files(&files, &[seen(14, "aa"), link]),
        Err(AppError::EnginePackage("installed package file lib/ggml.dll is missing or unsafe".into()))
    );
    let unsafe_files = vec![inventory_file("llama-server.exe", 14, "aa"), inventory_file("../x.dll", 1, "dd")];
    assert_eq!(first_unsafe_path(&unsafe_files), 1);
    assert_eq!(
        check_installed_files(&unsafe_files, &[seen(14, "aa")]),
        Err(AppError::EnginePackage("the installed package inventory contains an unsafe path".into()))
    );
}
