use juno::workspace::{
    finish_search, is_text_extension, ContextFiles, FolderScan, WorkspaceError, WorkspaceManager,
};

fn scan(name: Option<&str>, count: usize) -> FolderScan {
    FolderScan { name: name.map(|n| n.to_string()), file_count: count }
}

#[test]
fn add_and_remove_folders() {
    let mut w = WorkspaceManager::new();
    let info = w.add_folder("/tmp/proj", true, true, scan(Some("proj"), 3)).unwrap();
    assert_eq!(info.path, "/tmp/proj");
    assert_eq!(info.name, "proj");
    assert_eq!(info.file_count, 3);
    assert!(info.included);
    let e = w.add_folder("/tmp/proj", true, true, scan(None, 0)).unwrap_err();
    assert_eq!(e.message(), "Folder already added: /tmp/proj");
    let e = w.add_folder("/nope", false, false, scan(None, 0)).unwrap_err();
    assert_eq!(e.message(), "Path does not exist: /nope");
    let e = w.add_folder("/tmp/f.txt", true, false, scan(None, 0)).unwrap_err();
    match e {
        WorkspaceError::NotADirectory(p) => assert_eq!(p, "/tmp/f.txt"),
        other => panic!("{:?}", other),
    }
    let info2 = w.add_folder("/", true, true, scan(None, 5_000_000_000)).unwrap();
    assert_eq!(info2.name, "unnamed");
    assert_eq!(info2.file_count, (5_000_000_000u64 % (1u64 << 32)) as u32);
    assert_eq!(w.folders().len(), 2);
    let listed = w.list_folders(&vec![scan(Some("proj"), 7), scan(None, 1)]);
    assert_eq!(listed.len(), 2);
    assert_eq!(listed[0].file_count, 7);
    assert_eq!(listed[1].name, "unnamed");
    assert!(listed.iter().all(|f| f.included));
    assert_eq!(w.included_paths(), vec!["/tmp/proj".to_string(), "/".to_string()]);
    w.remove_folder("/tmp/proj");
    assert_eq!(w.folders().len(), 1);
    assert_eq!(w.folders()[0].path, "/");
    w.remove_folder("/absent");
    assert_eq!(w.folders().len(), 1);
    assert!(w.folders().iter().all(|f| f.included));
    assert!(w.check_new_folder("/tmp/proj", true, true).is_ok());
}

#[test]
fn text_extensions() {
    for e in ["rs", "py", "dockerfile", "md", "json", "ps1"] {
        assert!(is_text_extension(e), "{}", e);
    }
    for e in ["", "RS", "png", "exe", "Dockerfile"] {
        assert!(!is_text_extension(e), "{}", e);
    }
}

#[test]
fn context_rendering() {
    let mut files = ContextFiles::new();
    assert_eq!(files.render(), "");
    files.add("a.rs".to_string(), "fn main() {}");
    files.add("b.md".to_string(), "# B");
    files.add("a.rs".to_string(), "fn other() {}");
    assert_eq!(
        files.render(),
        "## Workspace Context\n\nThe following files are available in the workspace:\n\n\
### a.rs\n```\nfn other() {}\n```\n\n### b.md\n```\n# B\n```\n\n"
    );
}

#[test]
fn large_file_is_cut() {
    let big = "x".repeat(50_010);
    let mut files = ContextFiles::new();
    files.add("big.txt".to_string(), &big);
    let out = files.render();
    let expected_body = format!("[File too large: 50010 bytes, truncated]\n{}", "x".repeat(50_000));
    assert!(out.contains(&format!("### big.txt\n```\n{}\n```\n\n", expected_body)));
    let exact = "y".repeat(50_000);
    let mut f2 = ContextFiles::new();
    f2.add("e".to_string(), &exact);
    assert!(f2.render().contains(&format!("```\n{}\n```", exact)));
}

#[test]
fn search_results_dedup_and_cap() {
    let found: Vec<String> = ["a", "a", "b", "a", "c", "c"].iter().map(|s| s.to_string()).collect();
    assert_eq!(finish_search(found), vec!["a", "b", "a", "c"]);
    let many: Vec<String> = (0..30).map(|i| format!("f{}", i)).collect();
    let r = finish_search(many);
    assert_eq!(r.len(), 20);
    assert_eq!(r[19], "f19");
    assert!(finish_search(vec![]).is_empty());
}
