use acsync::fs::{EntryKind, Event, FileSearcher, ReadReply, Request};
use acsync::sync::{
    EntryReport, Meta, StatReply, SyncError, SyncEvent, SyncExecutor, SyncRequest, SyncStats,
};

/// A simulated filesystem with contents, sizes, times and permission
/// bits, shared by the traversal and the replication run.
#[derive(Clone, PartialEq, Debug)]
struct FsEntry {
    path: String,
    is_dir: bool,
    content: String,
    mtime: u64,
    mode: u32,
}

#[derive(Clone, PartialEq, Debug)]
struct World {
    entries: Vec<FsEntry>,
    clock: u64,
}

impl World {
    fn new() -> World {
        World { entries: Vec::new(), clock: 1000 }
    }

    fn dir(&mut self, path: &str, mode: u32) {
        self.entries.push(FsEntry {
            path: path.to_string(),
            is_dir: true,
            content: String::new(),
            mtime: self.clock,
            mode,
        });
    }

    fn file(&mut self, path: &str, content: &str, mtime: u64, mode: u32) {
        self.entries.push(FsEntry {
            path: path.to_string(),
            is_dir: false,
            content: content.to_string(),
            mtime,
            mode,
        });
    }

    fn get(&self, path: &str) -> Option<&FsEntry> {
        self.entries.iter().find(|e| e.path == path)
    }

    fn stat(&self, path: &str) -> StatReply {
        match self.get(path) {
            None => StatReply::Absent,
            Some(e) => StatReply::Present(Meta {
                is_dir: e.is_dir,
                size: e.content.len() as u64,
                mtime: e.mtime,
            }),
        }
    }

    fn parent_exists(&self, path: &str) -> bool {
        match path.rfind('/') {
            None => false,
            Some(0) => true,
            Some(i) => self.get(&path[..i]).is_some(),
        }
    }

    /// Single-level directory creation mirroring the given source
    /// directory's permission bits; fails when the parent is missing.
    fn mkdir(&mut self, path: &str, mirror: &str) -> bool {
        if self.get(path).is_some() || !self.parent_exists(path) {
            return false;
        }
        let mode = match self.get(mirror) {
            Some(m) => m.mode,
            None => return false,
        };
        self.clock += 1;
        let clock = self.clock;
        self.entries.push(FsEntry {
            path: path.to_string(),
            is_dir: true,
            content: String::new(),
            mtime: clock,
            mode,
        });
        true
    }

    /// Byte copy: the destination gets the source's content and a fresh
    /// modification time, nothing else.
    fn copy(&mut self, from: &str, to: &str) -> bool {
        let (content, ok) = match self.get(from) {
            Some(f) if !f.is_dir => (f.content.clone(), true),
            _ => (String::new(), false),
        };
        if !ok || !self.parent_exists(to) {
            return false;
        }
        self.clock += 1;
        let clock = self.clock;
        match self.entries.iter_mut().find(|e| e.path == to) {
            Some(e) => {
                e.content = content;
                e.mtime = clock;
            }
            None => self.entries.push(FsEntry {
                path: to.to_string(),
                is_dir: false,
                content,
                mtime: clock,
                mode: 0o644,
            }),
        }
        true
    }

    fn children(&self, dir: &str) -> Vec<(String, bool)> {
        let prefix = format!("{dir}/");
        self.entries
            .iter()
            .filter(|e| e.path.starts_with(&prefix) && !e.path[prefix.len()..].contains('/'))
            .map(|e| (e.path[prefix.len()..].to_string(), e.is_dir))
            .collect()
    }

    fn kind(&self, path: &str) -> Option<EntryKind> {
        self.get(path).map(|e| {
            if e.is_dir {
                EntryKind::Directory
            } else {
                EntryKind::File
            }
        })
    }
}

struct Listing {
    entries: Vec<(String, bool)>,
    next: usize,
}

/// Pull the next traversal result for the executor.
fn pull(world: &World, it: &mut acsync::fs::IntoIter, listing: &mut Option<Listing>) -> EntryReport {
    let mut ev = Event::Idle;
    loop {
        match it.step(ev) {
            Request::ProbeRoot(p) => ev = Event::RootKind(world.kind(&p)),
            Request::OpenDir(p) => {
                *listing = Some(Listing { entries: world.children(&p), next: 0 });
                ev = Event::Opened(true);
            }
            Request::ReadEntry => {
                let l = listing.as_mut().unwrap();
                if l.next < l.entries.len() {
                    let (name, is_dir) = l.entries[l.next].clone();
                    l.next += 1;
                    ev = Event::Read(ReadReply::Found { name, is_file: !is_dir, is_dir });
                } else {
                    ev = Event::Read(ReadReply::Exhausted);
                }
            }
            Request::Yield(p, k) => {
                return EntryReport::Item { path: p, is_dir: k == EntryKind::Directory };
            }
            Request::YieldError => return EntryReport::Error,
            Request::Done => return EntryReport::End,
        }
    }
}

/// One full replication run over the simulated world.
fn replicate(
    world: &mut World,
    source: &str,
    target: &str,
    confirm: bool,
    dry_run: bool,
    answer: bool,
) -> Result<SyncStats, SyncError> {
    let mut it = FileSearcher::new(source.to_string()).into_iter();
    let mut listing: Option<Listing> = None;
    let mut ex = SyncExecutor::new(source.to_string(), target.to_string(), confirm, dry_run);
    let mut ev = SyncEvent::Begin;
    loop {
        match ex.step(ev) {
            SyncRequest::Stat(p) => ev = SyncEvent::Stat(world.stat(&p)),
            SyncRequest::MakeDir { path, mirror } => {
                ev = SyncEvent::Did(world.mkdir(&path, &mirror));
            }
            SyncRequest::Copy { from, to } => ev = SyncEvent::Did(world.copy(&from, &to)),
            SyncRequest::AskOverride => ev = SyncEvent::Answer(answer),
            SyncRequest::NextEntry => {
                ev = SyncEvent::Entry(pull(world, &mut it, &mut listing));
            }
            SyncRequest::Finished => return Ok(ex.stats()),
            SyncRequest::Aborted(e) => return Err(e),
        }
    }
}

/// The source tree of the scenarios: `a/b.txt` holding "X", and an
/// empty directory `c`.
fn scenario_world() -> World {
    let mut w = World::new();
    w.dir("/src", 0o755);
    w.dir("/src/a", 0o750);
    w.file("/src/a/b.txt", "X", 500, 0o640);
    w.dir("/src/c", 0o700);
    w
}

#[test]
fn fresh_destination_is_replicated_with_permissions() {
    let mut w = scenario_world();
    let stats = replicate(&mut w, "/src", "/dst", false, false, false).unwrap();
    assert_eq!(stats.files_copied, 1);
    assert_eq!(stats.directories_created, 2);
    assert_eq!(stats.files_stale, 0);
    assert_eq!(stats.files_overridden, 0);
    assert_eq!(stats.total_visited, 3);
    assert_eq!(w.get("/dst/a/b.txt").unwrap().content, "X");
    assert_eq!(w.get("/dst/a").unwrap().mode, 0o750);
    assert_eq!(w.get("/dst/c").unwrap().mode, 0o700);
    assert_eq!(w.get("/dst").unwrap().mode, 0o755);
}

#[test]
fn replication_is_idempotent() {
    let mut w = scenario_world();
    let first = replicate(&mut w, "/src", "/dst", false, false, false).unwrap();
    let second = replicate(&mut w, "/src", "/dst", false, false, false).unwrap();
    assert_eq!(second.files_copied, 0);
    assert_eq!(second.directories_created, 0);
    assert_eq!(second.files_overridden, 0);
    assert_eq!(second.total_visited, first.total_visited);
}

#[test]
fn dry_run_mutates_nothing_but_reports_staleness() {
    let mut w = scenario_world();
    w.dir("/dst", 0o755);
    w.dir("/dst/a", 0o750);
    // stale: source is newer and the sizes differ
    w.file("/dst/a/b.txt", "other", 100, 0o640);
    let before = w.clone();
    let stats = replicate(&mut w, "/src", "/dst", false, true, false).unwrap();
    assert_eq!(w, before);
    assert_eq!(stats.files_stale, 1);
    assert_eq!(stats.files_copied, 0);
    assert_eq!(stats.directories_created, 0);
    assert_eq!(stats.files_overridden, 0);
    assert_eq!(stats.total_visited, 3);
}

#[test]
fn same_size_is_identical_even_when_content_differs() {
    let mut w = scenario_world();
    w.dir("/dst", 0o755);
    w.dir("/dst/a", 0o750);
    w.dir("/dst/c", 0o700);
    // same size as "X", older, different byte content
    w.file("/dst/a/b.txt", "Y", 100, 0o640);
    let stats = replicate(&mut w, "/src", "/dst", false, false, false).unwrap();
    assert_eq!(stats.files_stale, 0);
    assert_eq!(stats.files_copied, 0);
    assert_eq!(w.get("/dst/a/b.txt").unwrap().content, "Y");
}

#[test]
fn same_size_and_older_time_is_identical() {
    let mut w = scenario_world();
    w.dir("/dst", 0o755);
    w.dir("/dst/a", 0o750);
    w.dir("/dst/c", 0o700);
    w.file("/dst/a/b.txt", "Z", 100, 0o640);
    let stats = replicate(&mut w, "/src", "/dst", false, false, false).unwrap();
    assert_eq!(stats.files_copied, 0);
    assert_eq!(stats.files_stale, 0);
    assert_eq!(w.get("/dst/a/b.txt").unwrap().content, "Z");
}

#[test]
fn stale_without_question_is_counted_and_left_alone() {
    let mut w = scenario_world();
    w.dir("/dst", 0o755);
    w.dir("/dst/a", 0o750);
    w.dir("/dst/c", 0o700);
    w.file("/dst/a/b.txt", "longer", 100, 0o640);
    let stats = replicate(&mut w, "/src", "/dst", false, false, false).unwrap();
    assert_eq!(stats.files_stale, 1);
    assert_eq!(stats.files_overridden, 0);
    assert_eq!(w.get("/dst/a/b.txt").unwrap().content, "longer");
}

#[test]
fn confirmed_override_copies_the_stale_file() {
    let mut w = scenario_world();
    w.dir("/dst", 0o755);
    w.dir("/dst/a", 0o750);
    w.dir("/dst/c", 0o700);
    w.file("/dst/a/b.txt", "longer", 100, 0o640);
    let stats = replicate(&mut w, "/src", "/dst", true, false, true).unwrap();
    assert_eq!(stats.files_stale, 1);
    assert_eq!(stats.files_overridden, 1);
    assert_eq!(w.get("/dst/a/b.txt").unwrap().content, "X");
}

#[test]
fn declined_override_leaves_the_stale_file() {
    let mut w = scenario_world();
    w.dir("/dst", 0o755);
    w.dir("/dst/a", 0o750);
    w.dir("/dst/c", 0o700);
    w.file("/dst/a/b.txt", "longer", 100, 0o640);
    let stats = replicate(&mut w, "/src", "/dst", true, false, false).unwrap();
    assert_eq!(stats.files_stale, 1);
    assert_eq!(stats.files_overridden, 0);
    assert_eq!(w.get("/dst/a/b.txt").unwrap().content, "longer");
}

#[test]
fn missing_source_aborts_before_any_work() {
    let mut w = World::new();
    w.dir("/dst", 0o755);
    let before = w.clone();
    let err = replicate(&mut w, "/absent", "/dst", false, false, false).unwrap_err();
    assert_eq!(err, SyncError::SourceMissing);
    assert_eq!(w, before);
}

#[test]
fn ancestor_repair_fills_in_pruned_directories() {
    // The engine can skip over an intermediate directory (here: an
    // include pattern keeps only the file), yet the file still lands in
    // a repaired ancestor carrying the source directory's mode.
    let mut w = scenario_world();
    w.dir("/dst", 0o755);
    let mut it = FileSearcher::new("/src".to_string())
        .includes(&["b.txt".to_string()])
        .into_iter();
    let mut listing: Option<Listing> = None;
    let mut ex = SyncExecutor::new("/src".to_string(), "/dst".to_string(), false, false);
    let mut ev = SyncEvent::Begin;
    let stats = loop {
        match ex.step(ev) {
            SyncRequest::Stat(p) => ev = SyncEvent::Stat(w.stat(&p)),
            SyncRequest::MakeDir { path, mirror } => {
                ev = SyncEvent::Did(w.mkdir(&path, &mirror));
            }
            SyncRequest::Copy { from, to } => ev = SyncEvent::Did(w.copy(&from, &to)),
            SyncRequest::AskOverride => ev = SyncEvent::Answer(false),
            SyncRequest::NextEntry => ev = SyncEvent::Entry(pull(&w, &mut it, &mut listing)),
            SyncRequest::Finished => break ex.stats(),
            SyncRequest::Aborted(e) => panic!("aborted: {e:?}"),
        }
    };
    assert_eq!(w.get("/dst/a/b.txt").unwrap().content, "X");
    assert_eq!(w.get("/dst/a").unwrap().mode, 0o750);
    assert_eq!(stats.files_copied, 1);
    assert_eq!(stats.directories_created, 1);
    assert_eq!(stats.total_visited, 1);
}

#[test]
fn a_file_source_is_replicated_onto_the_destination_path() {
    let mut w = World::new();
    w.file("/src.txt", "hello", 500, 0o644);
    let stats = replicate(&mut w, "/src.txt", "/dst.txt", false, false, false).unwrap();
    assert_eq!(stats.files_copied, 1);
    assert_eq!(stats.directories_created, 0);
    assert_eq!(stats.total_visited, 1);
    assert_eq!(w.get("/dst.txt").unwrap().content, "hello");
}

#[test]
fn a_stale_file_source_is_flagged_against_its_destination() {
    let mut w = World::new();
    w.file("/src.txt", "hello", 500, 0o644);
    w.file("/dst.txt", "x", 100, 0o644);
    let stats = replicate(&mut w, "/src.txt", "/dst.txt", false, false, false).unwrap();
    assert_eq!(stats.files_stale, 1);
    assert_eq!(stats.files_copied, 0);
    assert_eq!(stats.total_visited, 1);
    assert_eq!(w.get("/dst.txt").unwrap().content, "x");
}
