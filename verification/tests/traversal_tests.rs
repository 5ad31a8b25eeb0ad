use acsync::fs::{EntryKind, Event, FileSearcher, FilterPath, ReadReply, Request};

/// A simulated directory tree: absolute paths with `/` separators.
#[derive(Clone)]
struct Node {
    path: String,
    is_dir: bool,
}

struct FakeFs {
    nodes: Vec<Node>,
    /// Directories whose listing cannot be opened.
    unreadable: Vec<String>,
    /// Directories whose listing yields one failed entry first.
    flaky: Vec<String>,
}

impl FakeFs {
    fn new(entries: &[(&str, bool)]) -> FakeFs {
        FakeFs {
            nodes: entries
                .iter()
                .map(|(p, d)| Node { path: p.to_string(), is_dir: *d })
                .collect(),
            unreadable: Vec::new(),
            flaky: Vec::new(),
        }
    }

    fn kind(&self, path: &str) -> Option<EntryKind> {
        self.nodes.iter().find(|n| n.path == path).map(|n| {
            if n.is_dir {
                EntryKind::Directory
            } else {
                EntryKind::File
            }
        })
    }

    fn children(&self, dir: &str) -> Vec<(String, bool)> {
        let prefix = format!("{dir}/");
        self.nodes
            .iter()
            .filter(|n| {
                n.path.starts_with(&prefix) && !n.path[prefix.len()..].contains('/')
            })
            .map(|n| (n.path[prefix.len()..].to_string(), n.is_dir))
            .collect()
    }
}

/// One traversal result: a path with its kind, or a failed item.
type Item = Result<(String, bool), ()>;

struct Listing {
    entries: Vec<(String, bool)>,
    next: usize,
    fail_first: bool,
}

fn answer(fs: &FakeFs, req: &Request, listing: &mut Option<Listing>, opened: &mut Vec<String>) -> Option<Event> {
    match req {
        Request::ProbeRoot(p) => Some(Event::RootKind(fs.kind(p))),
        Request::OpenDir(p) => {
            if fs.unreadable.iter().any(|u| u == p) {
                *listing = None;
                Some(Event::Opened(false))
            } else {
                opened.push(p.clone());
                *listing = Some(Listing {
                    entries: fs.children(p),
                    next: 0,
                    fail_first: fs.flaky.iter().any(|f| f == p),
                });
                Some(Event::Opened(true))
            }
        }
        Request::ReadEntry => {
            let l = listing.as_mut().expect("no open listing");
            if l.fail_first {
                l.fail_first = false;
                Some(Event::Read(ReadReply::Failed))
            } else if l.next < l.entries.len() {
                let (name, is_dir) = l.entries[l.next].clone();
                l.next += 1;
                Some(Event::Read(ReadReply::Found {
                    name,
                    is_file: !is_dir,
                    is_dir,
                }))
            } else {
                Some(Event::Read(ReadReply::Exhausted))
            }
        }
        _ => None,
    }
}

fn run_engine(fs: &FakeFs, searcher: FileSearcher) -> (Vec<Item>, Vec<String>) {
    let mut it = searcher.into_iter();
    let mut ev = Event::Idle;
    let mut out: Vec<Item> = Vec::new();
    let mut listing: Option<Listing> = None;
    let mut opened: Vec<String> = Vec::new();
    loop {
        let req = it.step(ev);
        match &req {
            Request::Yield(p, k) => {
                out.push(Ok((p.clone(), *k == EntryKind::Directory)));
                ev = Event::Idle;
            }
            Request::YieldError => {
                out.push(Err(()));
                ev = Event::Idle;
            }
            Request::Done => return (out, opened),
            other => ev = answer(fs, other, &mut listing, &mut opened).unwrap(),
        }
    }
}

fn run_filtered(fs: &FakeFs, mut it: FilterPath<fn(&String) -> bool>) -> (Vec<Item>, Vec<String>) {
    let mut ev = Event::Idle;
    let mut out: Vec<Item> = Vec::new();
    let mut listing: Option<Listing> = None;
    let mut opened: Vec<String> = Vec::new();
    loop {
        let req = it.step(ev);
        match &req {
            Request::Yield(p, k) => {
                out.push(Ok((p.clone(), *k == EntryKind::Directory)));
                ev = Event::Idle;
            }
            Request::YieldError => {
                out.push(Err(()));
                ev = Event::Idle;
            }
            Request::Done => return (out, opened),
            other => ev = answer(fs, other, &mut listing, &mut opened).unwrap(),
        }
    }
}

fn tree() -> FakeFs {
    FakeFs::new(&[
        ("/r", true),
        ("/r/d1", true),
        ("/r/d1/f1.txt", false),
        ("/r/f2", false),
    ])
}

fn paths(items: &[Item]) -> Vec<String> {
    items
        .iter()
        .filter_map(|i| i.as_ref().ok().map(|(p, _)| p.clone()))
        .collect()
}

#[test]
fn pre_order_walks_everything_under_the_root() {
    let fs = tree();
    let (items, _) = run_engine(&fs, FileSearcher::new("/r".to_string()));
    let got = paths(&items);
    assert_eq!(got.len(), 4);
    assert!(got.contains(&"/r".to_string()));
    assert!(got.contains(&"/r/d1".to_string()));
    assert!(got.contains(&"/r/d1/f1.txt".to_string()));
    assert!(got.contains(&"/r/f2".to_string()));
    // a directory comes before its contents
    let dir = got.iter().position(|p| p == "/r/d1").unwrap();
    let file = got.iter().position(|p| p == "/r/d1/f1.txt").unwrap();
    assert!(dir < file);
    // every entry path is prefixed by the traversal root
    for p in &got {
        assert!(p == "/r" || p.starts_with("/r/"));
    }
}

#[test]
fn post_order_surfaces_directories_after_their_contents() {
    let fs = tree();
    let (items, _) = run_engine(&fs, FileSearcher::new("/r".to_string()).overall(true));
    let got = paths(&items);
    assert_eq!(got.len(), 4);
    let dir = got.iter().position(|p| p == "/r/d1").unwrap();
    let file = got.iter().position(|p| p == "/r/d1/f1.txt").unwrap();
    assert!(file < dir);
    assert_eq!(got.last().unwrap(), "/r");
}

#[test]
fn depth_bound_keeps_entries_at_the_bound_and_drops_deeper_ones() {
    let fs = tree();
    let (items, _) = run_engine(&fs, FileSearcher::new("/r".to_string()).max_depth(1));
    let got = paths(&items);
    assert!(got.contains(&"/r".to_string()));
    assert!(got.contains(&"/r/d1".to_string()));
    assert!(got.contains(&"/r/f2".to_string()));
    assert!(!got.contains(&"/r/d1/f1.txt".to_string()));

    let (items0, _) = run_engine(&fs, FileSearcher::new("/r".to_string()).max_depth(0));
    assert_eq!(paths(&items0), vec!["/r".to_string()]);
}

#[test]
fn excluding_a_directory_drops_its_whole_subtree_unread() {
    let fs = tree();
    let (items, opened) = run_engine(
        &fs,
        FileSearcher::new("/r".to_string()).excludes(&["d1".to_string()]),
    );
    let got = paths(&items);
    assert_eq!(got, vec!["/r".to_string(), "/r/f2".to_string()]);
    // the pruned directory's listing was opened, but nothing was read
    // from it: its child never shows up anywhere, not even as an error
    assert!(items.iter().all(|i| i.is_ok()));
    assert!(opened.contains(&"/r/d1".to_string()));
}

#[test]
fn include_patterns_keep_only_matching_entries() {
    let fs = tree();
    let (items, _) = run_engine(
        &fs,
        FileSearcher::new("/r".to_string()).includes(&["f1".to_string()]),
    );
    assert_eq!(paths(&items), vec!["/r/d1/f1.txt".to_string()]);
}

#[test]
fn extension_filter_applies_to_files_only() {
    let fs = FakeFs::new(&[
        ("/r", true),
        ("/r/a.txt", false),
        ("/r/b.rs", false),
        ("/r/sub", true),
        ("/r/sub/c.txt", false),
    ]);
    let (items, _) = run_engine(
        &fs,
        FileSearcher::new("/r".to_string()).extensions(Some("txt,md")),
    );
    let got = paths(&items);
    assert!(got.contains(&"/r".to_string()));
    assert!(got.contains(&"/r/sub".to_string()));
    assert!(got.contains(&"/r/a.txt".to_string()));
    assert!(got.contains(&"/r/sub/c.txt".to_string()));
    assert!(!got.contains(&"/r/b.rs".to_string()));
}

#[test]
fn missing_root_yields_nothing() {
    let fs = tree();
    let (items, _) = run_engine(&fs, FileSearcher::new("/absent".to_string()));
    assert!(items.is_empty());
}

#[test]
fn a_file_root_yields_just_the_file() {
    let fs = FakeFs::new(&[("/r", true), ("/r/f2", false)]);
    let (items, _) = run_engine(&fs, FileSearcher::new("/r/f2".to_string()));
    assert_eq!(paths(&items), vec!["/r/f2".to_string()]);
}

#[test]
fn a_failed_read_does_not_abort_the_listing() {
    let mut fs = tree();
    fs.flaky.push("/r".to_string());
    let (items, _) = run_engine(&fs, FileSearcher::new("/r".to_string()));
    assert_eq!(items.iter().filter(|i| i.is_err()).count(), 1);
    let got = paths(&items);
    assert!(got.contains(&"/r/d1/f1.txt".to_string()));
    assert!(got.contains(&"/r/f2".to_string()));
}

#[test]
fn an_unreadable_directory_contributes_one_error_and_no_entries() {
    let mut fs = tree();
    fs.unreadable.push("/r/d1".to_string());
    let (items, _) = run_engine(&fs, FileSearcher::new("/r".to_string()));
    assert_eq!(items.iter().filter(|i| i.is_err()).count(), 1);
    let got = paths(&items);
    assert!(!got.contains(&"/r/d1".to_string()));
    assert!(!got.contains(&"/r/d1/f1.txt".to_string()));
    assert!(got.contains(&"/r/f2".to_string()));
}

fn not_d1(p: &String) -> bool {
    !p.contains("d1")
}

fn not_f2(p: &String) -> bool {
    !p.contains("f2")
}

#[test]
fn a_predicate_rejecting_a_directory_prunes_its_subtree() {
    let fs = tree();
    let it = FileSearcher::new("/r".to_string())
        .into_iter()
        .filter_path(not_d1 as fn(&String) -> bool);
    let (items, _) = run_filtered(&fs, it);
    assert_eq!(paths(&items), vec!["/r".to_string(), "/r/f2".to_string()]);
}

#[test]
fn chained_predicates_all_apply() {
    let fs = tree();
    let it = FileSearcher::new("/r".to_string())
        .into_iter()
        .filter_path(not_d1 as fn(&String) -> bool)
        .filter_path(not_f2 as fn(&String) -> bool);
    let (items, _) = run_filtered(&fs, it);
    assert_eq!(paths(&items), vec!["/r".to_string()]);
}

#[test]
fn manual_skip_abandons_the_open_listing() {
    let fs = tree();
    let mut it = FileSearcher::new("/r".to_string()).into_iter();
    let mut ev = Event::Idle;
    let mut listing: Option<Listing> = None;
    let mut opened: Vec<String> = Vec::new();
    let mut got: Vec<String> = Vec::new();
    loop {
        let req = it.step(ev);
        match &req {
            Request::Yield(p, _) => {
                got.push(p.clone());
                if p == "/r/d1" {
                    // abandon d1's subtree by hand
                    it.skip_current_directory();
                }
                ev = Event::Idle;
            }
            Request::YieldError => ev = Event::Idle,
            Request::Done => break,
            other => ev = answer(&fs, other, &mut listing, &mut opened).unwrap(),
        }
    }
    assert!(got.contains(&"/r/d1".to_string()));
    assert!(!got.contains(&"/r/d1/f1.txt".to_string()));
}

#[test]
fn post_order_exclusion_still_hides_the_whole_subtree() {
    let fs = tree();
    let (items, _) = run_engine(
        &fs,
        FileSearcher::new("/r".to_string())
            .overall(true)
            .excludes(&["d1".to_string()]),
    );
    let got = paths(&items);
    assert!(!got.contains(&"/r/d1".to_string()));
    assert!(!got.contains(&"/r/d1/f1.txt".to_string()));
    assert!(got.contains(&"/r/f2".to_string()));
}
