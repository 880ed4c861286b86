use alterware_launcher::manifest::CdnFile;
use alterware_launcher::sync::{DirState, SyncTask};

fn entry(name: &str, size: u64, hash: &str) -> CdnFile {
    CdnFile { name: name.to_string(), size, hash: hash.to_string() }
}

fn names(tasks: &[SyncTask]) -> Vec<String> {
    tasks.iter().map(|t| t.name.clone()).collect()
}

#[test]
fn empty_directory_downloads_everything() {
    // manifest [{name:"iw4/iw4x.exe", hash:"ABC123"}], empty target
    let manifest = vec![entry("iw4/iw4x.exe", 10, "ABC123")];
    let local = DirState::new();
    let tasks = alterware_launcher::sync::synchronize(&manifest, "iw4", &local);
    assert_eq!(tasks.len(), 1);
    assert_eq!(tasks[0].name, "iw4/iw4x.exe");
    assert_eq!(tasks[0].rel_path, "iw4x.exe");
}

#[test]
fn matching_digest_case_insensitive_skips_download() {
    // re-running with the file present and a digest differing only in
    // case performs no download
    let manifest = vec![entry("iw4/iw4x.exe", 10, "ABC123")];
    let mut local = DirState::new();
    local.record("iw4x.exe".to_string(), "abc123".to_string());
    let tasks = alterware_launcher::sync::synchronize(&manifest, "iw4", &local);
    assert_eq!(tasks.len(), 0);
}

#[test]
fn corrupted_digest_triggers_one_redownload() {
    // same setup, local digest "abc999": exactly one re-download
    let manifest = vec![entry("iw4/iw4x.exe", 10, "ABC123")];
    let mut local = DirState::new();
    local.record("iw4x.exe".to_string(), "abc999".to_string());
    let tasks = alterware_launcher::sync::synchronize(&manifest, "iw4", &local);
    assert_eq!(tasks.len(), 1);
    assert_eq!(tasks[0].name, "iw4/iw4x.exe");
    assert_eq!(tasks[0].rel_path, "iw4x.exe");
}

#[test]
fn second_run_after_completed_downloads_is_empty() {
    let manifest = vec![
        entry("iw4/iw4x.exe", 10, "AA11"),
        entry("iw4/data/common.ff", 20, "BB22"),
        entry("iw4/readme.txt", 5, "CC33"),
    ];
    let mut local = DirState::new();
    let first = alterware_launcher::sync::synchronize(&manifest, "iw4", &local);
    assert_eq!(first.len(), 3);
    // complete every planned download: each path now carries the
    // manifest digest
    for (task, e) in first.iter().zip(manifest.iter()) {
        local.record(task.rel_path.clone(), e.hash.clone());
    }
    let second = alterware_launcher::sync::synchronize(&manifest, "iw4", &local);
    assert_eq!(second.len(), 0);
}

#[test]
fn repair_restores_exactly_the_damaged_subset() {
    let manifest = vec![
        entry("iw4/a.exe", 1, "A1"),
        entry("iw4/b.dll", 2, "B2"),
        entry("iw4/c.dat", 3, "C3"),
    ];
    let mut local = DirState::new();
    local.record("a.exe".to_string(), "a1".to_string());
    local.record("b.dll".to_string(), "b2".to_string());
    local.record("c.dat".to_string(), "c3".to_string());
    // nothing to do while all digests match
    assert_eq!(alterware_launcher::sync::synchronize(&manifest, "iw4", &local).len(), 0);
    // corrupt one file and lose another
    local.record("b.dll".to_string(), "0000".to_string());
    let mut damaged = DirState::new();
    damaged.record("a.exe".to_string(), "a1".to_string());
    damaged.record("b.dll".to_string(), "0000".to_string());
    let tasks = alterware_launcher::sync::synchronize(&manifest, "iw4", &damaged);
    let got = names(&tasks);
    assert_eq!(got, vec!["iw4/b.dll".to_string(), "iw4/c.dat".to_string()]);
}

#[test]
fn prefix_isolation_between_engines() {
    // iw4 entries never cause writes in a directory synchronized for iw5
    let manifest = vec![
        entry("iw4/iw4x.exe", 10, "AA"),
        entry("iw5/iw5x.exe", 11, "BB"),
        entry("iw5/data/mp.ff", 12, "CC"),
    ];
    let local = DirState::new();
    let tasks = alterware_launcher::sync::synchronize(&manifest, "iw5", &local);
    assert_eq!(names(&tasks), vec!["iw5/iw5x.exe".to_string(), "iw5/data/mp.ff".to_string()]);
    for t in &tasks {
        assert!(t.name.starts_with("iw5/"));
        assert!(!t.rel_path.starts_with("iw4"));
    }
}

#[test]
fn engine_prefix_requires_separator() {
    // an entry of engine "iw44" is not an "iw4" entry
    let manifest = vec![entry("iw44/tool.exe", 1, "DD"), entry("iw4x-extra", 1, "EE")];
    let local = DirState::new();
    let tasks = alterware_launcher::sync::synchronize(&manifest, "iw4", &local);
    assert_eq!(tasks.len(), 0);
}

#[test]
fn nested_rel_paths_are_stripped_of_one_prefix_only() {
    let stripped = alterware_launcher::manifest::local_rel_path("iw4/sub/dir/f.bin", "iw4");
    assert_eq!(stripped, Some("sub/dir/f.bin".to_string()));
    let outside = alterware_launcher::manifest::local_rel_path("iw5/f.bin", "iw4");
    assert_eq!(outside, None);
}

#[test]
fn dir_state_later_record_supersedes() {
    let mut local = DirState::new();
    local.record("f".to_string(), "old".to_string());
    local.record("f".to_string(), "new".to_string());
    assert_eq!(local.lookup(&"f".to_string()), Some(&"new".to_string()));
    assert_eq!(local.lookup(&"g".to_string()), None);
}

#[test]
fn digest_comparison_ignores_ascii_case() {
    assert!(alterware_launcher::text::str_eq_ignore_ascii_case("ABC123", "abc123"));
    assert!(alterware_launcher::text::str_eq_ignore_ascii_case("DeAdBeEf", "dEaDbEeF"));
    assert!(!alterware_launcher::text::str_eq_ignore_ascii_case("abc123", "abc999"));
    assert!(!alterware_launcher::text::str_eq_ignore_ascii_case("abc", "abcd"));
}
