use nirapod_audit_core::discover::{
    compile_ignore_set, discover_audit_target, sort_path_list, DiscoverAuditTargetError, TargetEntry,
    WalkedFile,
};

fn walked(root: &str, relative: &str) -> WalkedFile {
    WalkedFile { path: format!("{root}/{relative}"), relative: relative.to_owned() }
}

#[test]
fn discovers_fixture_file_from_directory() {
    let root = "/repo/tests/fixtures/compliant";
    let entry = TargetEntry::Directory(vec![walked(root, "good-header.h")]);
    let target = discover_audit_target(root, entry, &Vec::new()).expect("failed to discover compliant fixture");
    assert_eq!(target.files.len(), 1);
}

#[test]
fn filters_files_with_ignore_globs() {
    let root = "/tmp/nirapod-audit-pipeline-ignore";
    let entry = TargetEntry::Directory(vec![walked(root, "vendor/skip.c"), walked(root, "main.c")]);
    let target = discover_audit_target(root, entry, &vec![String::from("vendor/**")])
        .expect("failed to discover target");
    let expected = format!("{root}/main.c");
    assert_eq!(target.files, vec![expected]);
}

#[test]
fn missing_target_is_reported() {
    let result = discover_audit_target("/nope", TargetEntry::Missing, &Vec::new());
    assert!(matches!(result, Err(DiscoverAuditTargetError::MissingPath(p)) if p == "/nope"));
}

#[test]
fn single_file_target_uses_its_parent_as_root() {
    let target = discover_audit_target("/src/fw/aes.c", TargetEntry::File, &Vec::new()).expect("file target");
    assert_eq!(target.root_dir, "/src/fw");
    assert_eq!(target.files, vec!["/src/fw/aes.c"]);
    let unsupported = discover_audit_target("/src/fw/notes.md", TargetEntry::File, &Vec::new());
    assert!(matches!(unsupported, Err(DiscoverAuditTargetError::NoSupportedFiles(_))));
}

#[test]
fn unsupported_and_empty_directories_have_no_files() {
    let root = "/repo";
    let entry = TargetEntry::Directory(vec![walked(root, "README.md"), walked(root, "build.txt")]);
    assert!(matches!(
        discover_audit_target(root, entry, &Vec::new()),
        Err(DiscoverAuditTargetError::NoSupportedFiles(p)) if p == "/repo"
    ));
    let entry = TargetEntry::Directory(vec![walked(root, "gen/a.c")]);
    assert!(matches!(
        discover_audit_target(root, entry, &vec!["gen/*".to_owned()]),
        Err(DiscoverAuditTargetError::NoSupportedFiles(_))
    ));
}

#[test]
fn invalid_glob_is_an_error() {
    let entry = TargetEntry::Directory(vec![walked("/repo", "a.c")]);
    let result = discover_audit_target("/repo", entry, &vec!["src/[".to_owned()]);
    assert!(matches!(result, Err(DiscoverAuditTargetError::Glob(_))));
    assert!(compile_ignore_set(&vec!["a/**".to_owned(), "b[".to_owned()]).is_err());
    assert!(compile_ignore_set(&vec!["a/**".to_owned()]).is_ok());
}

#[test]
fn files_come_out_in_path_order() {
    let root = "/repo";
    let entry = TargetEntry::Directory(vec![
        walked(root, "src/z.c"),
        walked(root, "include/a.h"),
        walked(root, "src/b.cpp"),
    ]);
    let target = discover_audit_target(root, entry, &Vec::new()).expect("target");
    assert_eq!(target.files, vec!["/repo/include/a.h", "/repo/src/b.cpp", "/repo/src/z.c"]);
    assert_eq!(target.root_dir, "/repo");
}

#[test]
fn path_order_compares_components() {
    let sorted = sort_path_list(vec!["a-c".to_owned(), "a/b".to_owned(), "a".to_owned()]);
    assert_eq!(sorted, vec!["a", "a/b", "a-c"]);
}

#[test]
fn no_ignore_globs_compile_to_an_empty_set() {
    assert!(compile_ignore_set(&Vec::new()).is_ok());
}

#[test]
fn valid_ignore_globs_that_leave_nothing_give_no_supported_files() {
    let entry = TargetEntry::Directory(vec![walked("/repo", "vendor/a.c"), walked("/repo", "vendor/b.h")]);
    let result = discover_audit_target("/repo", entry, &vec!["vendor/**".to_owned()]);
    assert!(matches!(result, Err(DiscoverAuditTargetError::NoSupportedFiles(p)) if p == "/repo"));
}
