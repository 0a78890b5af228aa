use cc_pulseline::git::{parse_status_output, GitCollector, StubGitCollector};
use cc_pulseline::types::GitSnapshot;

#[test]
fn parse_status_output_counts_files() {
    let porcelain = "\
# branch.oid abc123
# branch.head main
# branch.ab +2 -1
1 M. N... 100644 100644 100644 abc def src/main.rs
1 .M N... 100644 100644 100644 abc def src/lib.rs
1 A. N... 100644 100644 100644 abc def src/new.rs
1 .D N... 100644 100644 100644 abc def src/old.rs
1 D. N... 100644 100644 100644 abc def src/removed.rs
2 R. N... 100644 100644 100644 abc def renamed.rs\told.rs
u UU N... 100644 100644 100644 abc def conflict.rs
? untracked1.rs
? untracked2.rs";

    let mut snapshot = GitSnapshot::default();
    parse_status_output(porcelain, &mut snapshot);

    assert_eq!(snapshot.branch, "main");
    assert_eq!(snapshot.ahead, 2);
    assert_eq!(snapshot.behind, 1);
    assert!(snapshot.dirty);
    assert_eq!(snapshot.modified_count, 4);
    assert_eq!(snapshot.added_count, 1);
    assert_eq!(snapshot.deleted_count, 2);
    assert_eq!(snapshot.untracked_count, 2);
}

#[test]
fn parse_status_output_clean_repo() {
    let porcelain = "\
# branch.oid abc123
# branch.head feature/test
# branch.ab +0 -0";

    let mut snapshot = GitSnapshot::default();
    parse_status_output(porcelain, &mut snapshot);

    assert_eq!(snapshot.branch, "feature/test");
    assert!(!snapshot.dirty);
    assert_eq!(snapshot.modified_count, 0);
    assert_eq!(snapshot.added_count, 0);
    assert_eq!(snapshot.deleted_count, 0);
    assert_eq!(snapshot.untracked_count, 0);
}

#[test]
fn stub_git_collector_returns_preset() {
    let stub = StubGitCollector {
        snapshot: GitSnapshot {
            branch: "test".to_string(),
            dirty: true,
            modified_count: 3,
            ahead: 0,
            behind: 0,
            added_count: 0,
            deleted_count: 0,
            untracked_count: 0,
        },
    };
    let result = stub.collect_git("/any");
    assert_eq!(result.branch, "test");
    assert!(result.dirty);
    assert_eq!(result.modified_count, 3);
}
