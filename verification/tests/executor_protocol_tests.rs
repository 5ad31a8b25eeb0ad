use acsync::sync::{
    EntryReport, Meta, StatReply, SyncError, SyncEvent, SyncExecutor, SyncRequest,
};
use acsync::CustomError;

fn dir_meta() -> Meta {
    Meta { is_dir: true, size: 0, mtime: 1 }
}

/// Walk a fresh executor to the point where it pulls entries.
fn started() -> SyncExecutor {
    let mut ex = SyncExecutor::new("/src".to_string(), "/dst".to_string(), false, false);
    let r = ex.step(SyncEvent::Begin);
    assert!(matches!(r, SyncRequest::Stat(p) if p == "/src"));
    let r = ex.step(SyncEvent::Stat(StatReply::Present(dir_meta())));
    assert!(matches!(r, SyncRequest::Stat(p) if p == "/dst"));
    let r = ex.step(SyncEvent::Stat(StatReply::Present(dir_meta())));
    assert!(matches!(r, SyncRequest::NextEntry));
    ex
}

#[test]
fn an_entry_outside_the_source_fails_fast() {
    let mut ex = started();
    let r = ex.step(SyncEvent::Entry(EntryReport::Item {
        path: "/elsewhere/x".to_string(),
        is_dir: false,
    }));
    assert!(matches!(r, SyncRequest::Aborted(SyncError::PathOutsideSource)));
    assert_eq!(ex.error(), Some(SyncError::PathOutsideSource));
}

#[test]
fn a_failed_probe_of_the_source_aborts() {
    let mut ex = SyncExecutor::new("/src".to_string(), "/dst".to_string(), false, false);
    let r = ex.step(SyncEvent::Begin);
    assert!(matches!(r, SyncRequest::Stat(_)));
    let r = ex.step(SyncEvent::Stat(StatReply::Failed));
    assert!(matches!(r, SyncRequest::Aborted(SyncError::MetadataFailed)));
}

#[test]
fn a_failed_mutation_aborts_the_run() {
    let mut ex = started();
    let r = ex.step(SyncEvent::Entry(EntryReport::Item {
        path: "/src/new.txt".to_string(),
        is_dir: false,
    }));
    // ancestor probe of /dst, then the missing destination file
    assert!(matches!(r, SyncRequest::Stat(p) if p == "/dst"));
    let r = ex.step(SyncEvent::Stat(StatReply::Present(dir_meta())));
    assert!(matches!(r, SyncRequest::Stat(p) if p == "/dst/new.txt"));
    let r = ex.step(SyncEvent::Stat(StatReply::Absent));
    assert!(matches!(r, SyncRequest::Copy { ref from, ref to }
        if from == "/src/new.txt" && to == "/dst/new.txt"));
    let r = ex.step(SyncEvent::Did(false));
    assert!(matches!(r, SyncRequest::Aborted(SyncError::MutationFailed)));
    assert_eq!(ex.stats().files_copied, 0);
}

#[test]
fn a_skipped_traversal_error_pulls_the_next_entry() {
    let mut ex = started();
    let r = ex.step(SyncEvent::Entry(EntryReport::Error));
    assert!(matches!(r, SyncRequest::NextEntry));
    assert_eq!(ex.stats().total_visited, 0);
}

#[test]
fn invalid_input_carries_its_detail() {
    let e = CustomError::InvalidInput("origin argument is missing");
    assert_eq!(e.detail(), "origin argument is missing");
}
