//! Lazy, filterable, prunable traversal of a directory tree.
//!
//! The engine never touches the disk itself.  It is a step function: each
//! call to [`IntoIter::step`] consumes the answer to the engine's previous
//! request and returns the next one.  The embedding program performs the
//! requested probe, open or read, and hands the outcome back as an
//! [`Event`].  Every path the engine yields is built here, in verified
//! code, from the traversal root and the entry names reported to it, so
//! the contracts below pin down where an entry can lie and which filters
//! it passed.

use crate::text::{
    contains_pat, ext_of, extension_of, join_path, lemma_no_slash, lemma_slash_count_concat,
    rel_depth, slash_count, split_ext_list, split_extension_list, under_root, valid_name,
    contains_str, eq_str,
};
use vstd::prelude::*;
use vstd::string::StrSliceExecFns;

verus! {

// ---------------------------------------------------------------------
// Filter predicates
// ---------------------------------------------------------------------

/// Whether any pattern of `pats` occurs in `p`.
pub open spec fn hits_any(p: Seq<char>, pats: Seq<Seq<char>>) -> bool {
    exists|i: int| 0 <= i < pats.len() && contains_pat(p, pats[i])
}

/// Whether the entry's extension is one of `exts`.
pub open spec fn ext_listed(p: Seq<char>, exts: Seq<Seq<char>>) -> bool {
    match ext_of(p) {
        Some(e) => exists|i: int| 0 <= i < exts.len() && exts[i] == e,
        None => false,
    }
}

/// The extension filter: directories always pass; with no configured
/// extension every file passes; otherwise a file's extension must be
/// listed.
pub open spec fn ext_allows(p: Seq<char>, kind: EntryKind, exts: Seq<Seq<char>>) -> bool {
    exts.len() == 0 || kind is Directory || ext_listed(p, exts)
}

/// The whole second-pass filter: not excluded, included when an include
/// list is configured, and allowed by the extension filter.
pub open spec fn passes_filters(
    p: Seq<char>,
    kind: EntryKind,
    includes: Seq<Seq<char>>,
    excludes: Seq<Seq<char>>,
    exts: Seq<Seq<char>>,
) -> bool {
    &&& !hits_any(p, excludes)
    &&& includes.len() == 0 || hits_any(p, includes)
    &&& ext_allows(p, kind, exts)
}

/// Law: excluding a directory excludes its whole subtree.  Any path that
/// lies under an excluded directory hits the same exclude pattern, so no
/// entry below the directory can ever pass the filters.
pub proof fn lemma_exclude_covers_subtree(
    dir: Seq<char>,
    p: Seq<char>,
    excludes: Seq<Seq<char>>,
)
    requires
        hits_any(dir, excludes),
        under_root(dir, p),
    ensures
        hits_any(p, excludes),
{
    let i = choose|i: int| 0 <= i < excludes.len() && contains_pat(dir, excludes[i]);
    crate::text::lemma_contains_extends(dir, p, excludes[i]);
}

/// Whether any pattern of `pats` occurs in `p` (executable form).
fn any_contains(p: &str, pats: &Vec<String>) -> (b: bool)
    ensures
        b == hits_any(p@, pats.deep_view()),
{
    let n = pats.len();
    let mut i: usize = 0;
    while i < n
        invariant
            i <= n,
            n == pats@.len(),
            forall|j: int| 0 <= j < i ==> !contains_pat(p@, pats.deep_view()[j]),
        decreases n - i,
    {
        if contains_str(p, pats[i].as_str()) {
            proof {
                assert(pats.deep_view()[i as int] == pats@[i as int]@);
            }
            return true;
        }
        proof {
            assert(pats.deep_view()[i as int] == pats@[i as int]@);
        }
        i += 1;
    }
    false
}

/// Whether the extension of `p` is listed in `exts` (executable form).
fn ext_is_listed(p: &str, exts: &Vec<String>) -> (b: bool)
    ensures
        b == ext_listed(p@, exts.deep_view()),
{
    match extension_of(p) {
        Some(e) => {
            let n = exts.len();
            let mut i: usize = 0;
            while i < n
                invariant
                    i <= n,
                    n == exts@.len(),
                    ext_of(p@) == Some(e@),
                    forall|j: int| 0 <= j < i ==> exts.deep_view()[j] != e@,
                decreases n - i,
            {
                if eq_str(exts[i].as_str(), e) {
                    proof {
                        assert(exts.deep_view()[i as int] == exts@[i as int]@);
                    }
                    return true;
                }
                proof {
                    assert(exts.deep_view()[i as int] == exts@[i as int]@);
                }
                i += 1;
            }
            false
        },
        None => false,
    }
}

// ---------------------------------------------------------------------
// Configuration and builder
// ---------------------------------------------------------------------

/// The kind of a filesystem entry the traversal deals in.
#[derive(Clone, Copy, PartialEq, Eq, Structural, Debug)]
pub enum EntryKind {
    File,
    Directory,
}

struct FileSearcherOptions {
    overall: bool,
    max_depth: usize,
    includes: Vec<String>,
    excludes: Vec<String>,
    extensions: Vec<String>,
}

/// Builder for a traversal: the root path plus the filtering options.
pub struct FileSearcher {
    start_path: String,
    options: FileSearcherOptions,
}

/// Copy a slice of strings into a fresh vector.
fn clone_strings(xs: &[String]) -> (r: Vec<String>)
    ensures
        r.deep_view() == xs.deep_view(),
{
    let n = xs.len();
    let mut r: Vec<String> = Vec::new();
    let mut i: usize = 0;
    while i < n
        invariant
            i <= n,
            n == xs@.len(),
            r.deep_view() =~= xs.deep_view().subrange(0, i as int),
        decreases n - i,
    {
        let ghost old_dv = r.deep_view();
        r.push(xs[i].clone());
        proof {
            assert(r.deep_view() =~= old_dv.push(xs@[i as int]@));
        }
        i += 1;
    }
    proof {
        assert(r.deep_view() =~= xs.deep_view());
    }
    r
}

impl FileSearcher {
    /// The traversal root.
    pub closed spec fn root_view(&self) -> Seq<char> {
        self.start_path@
    }

    /// Whether directories surface after their contents.
    pub closed spec fn overall_view(&self) -> bool {
        self.options.overall
    }

    /// The configured depth bound.
    pub closed spec fn max_depth_view(&self) -> nat {
        self.options.max_depth as nat
    }

    /// The configured include patterns.
    pub closed spec fn includes_view(&self) -> Seq<Seq<char>> {
        self.options.includes.deep_view()
    }

    /// The configured exclude patterns.
    pub closed spec fn excludes_view(&self) -> Seq<Seq<char>> {
        self.options.excludes.deep_view()
    }

    /// The configured extension allow-list.
    pub closed spec fn extensions_view(&self) -> Seq<Seq<char>> {
        self.options.extensions.deep_view()
    }

    /// A searcher over `start_path` with every constraint disabled: no
    /// depth bound, no filters, directories before their contents.  A
    /// root that turns out not to exist yields an empty sequence once the
    /// traversal probes it.
    pub fn new(start_path: String) -> (s: Self)
        ensures
            s.root_view() == start_path@,
            s.max_depth_view() == usize::MAX as nat,
            !s.overall_view(),
            s.includes_view() =~= Seq::<Seq<char>>::empty(),
            s.excludes_view() =~= Seq::<Seq<char>>::empty(),
            s.extensions_view() =~= Seq::<Seq<char>>::empty(),
    {
        FileSearcher {
            start_path,
            options: FileSearcherOptions {
                overall: false,
                max_depth: usize::MAX,
                includes: Vec::new(),
                excludes: Vec::new(),
                extensions: Vec::new(),
            },
        }
    }

    /// Set whether directories surface after their contents (post-order).
    pub fn overall(self, flag: bool) -> (s: Self)
        ensures
            s.overall_view() == flag,
            s.root_view() == self.root_view(),
            s.max_depth_view() == self.max_depth_view(),
            s.includes_view() == self.includes_view(),
            s.excludes_view() == self.excludes_view(),
            s.extensions_view() == self.extensions_view(),
    {
        let mut s = self;
        s.options.overall = flag;
        s
    }

    /// Bound the depth of yielded entries; entries at exactly `max_depth`
    /// are still yielded.
    pub fn max_depth(self, max_depth: usize) -> (s: Self)
        ensures
            s.max_depth_view() == max_depth as nat,
            s.root_view() == self.root_view(),
            s.overall_view() == self.overall_view(),
            s.includes_view() == self.includes_view(),
            s.excludes_view() == self.excludes_view(),
            s.extensions_view() == self.extensions_view(),
    {
        let mut s = self;
        s.options.max_depth = max_depth;
        s
    }

    /// Keep only entries whose path contains one of these patterns.
    pub fn includes(self, includes: &[String]) -> (s: Self)
        ensures
            s.includes_view() == includes.deep_view(),
            s.root_view() == self.root_view(),
            s.overall_view() == self.overall_view(),
            s.max_depth_view() == self.max_depth_view(),
            s.excludes_view() == self.excludes_view(),
            s.extensions_view() == self.extensions_view(),
    {
        let mut s = self;
        s.options.includes = clone_strings(includes);
        s
    }

    /// Drop entries whose path contains one of these patterns, pruning
    /// the subtree of a dropped directory.
    pub fn excludes(self, excludes: &[String]) -> (s: Self)
        ensures
            s.excludes_view() == excludes.deep_view(),
            s.root_view() == self.root_view(),
            s.overall_view() == self.overall_view(),
            s.max_depth_view() == self.max_depth_view(),
            s.includes_view() == self.includes_view(),
            s.extensions_view() == self.extensions_view(),
    {
        let mut s = self;
        s.options.excludes = clone_strings(excludes);
        s
    }

    /// Keep only files whose extension is in the given list, written as
    /// one string separated by `,`, `;`, `|` or space.  `None` disables
    /// the filter.
    pub fn extensions(self, extensions: Option<&str>) -> (s: Self)
        ensures
            s.extensions_view() == match extensions {
                Some(v) => split_ext_list(v@),
                None => Seq::<Seq<char>>::empty(),
            },
            s.root_view() == self.root_view(),
            s.overall_view() == self.overall_view(),
            s.max_depth_view() == self.max_depth_view(),
            s.includes_view() == self.includes_view(),
            s.excludes_view() == self.excludes_view(),
    {
        let mut s = self;
        s.options.extensions = match extensions {
            Some(value) => split_extension_list(value),
            None => {
                let v: Vec<String> = Vec::new();
                proof {
                    assert(v.deep_view() =~= Seq::<Seq<char>>::empty());
                }
                v
            },
        };
        s
    }

    /// Start the traversal.
    pub fn into_iter(self) -> (it: IntoIter)
        ensures
            it.wf(),
            it.root_view() == self.root_view(),
            it.overall_view() == self.overall_view(),
            it.max_depth_view() == self.max_depth_view(),
            it.includes_view() == self.includes_view(),
            it.excludes_view() == self.excludes_view(),
            it.extensions_view() == self.extensions_view(),
            it.expects(&Event::Idle),
            !it.finished(),
    {
        IntoIter {
            options: self.options,
            root: self.start_path,
            mode: EngMode::Start,
            opening: None,
            pending: Vec::new(),
            current: None,
        }
    }
}

// ---------------------------------------------------------------------
// The traversal engine
// ---------------------------------------------------------------------

/// What the embedding program reports back to the engine.
pub enum Event {
    /// Nothing outstanding: used for the first call and after an entry
    /// was yielded.
    Idle,
    /// Answer to [`Request::ProbeRoot`]: the root's kind, or `None` when
    /// the root is neither an existing file nor an existing directory.
    RootKind(Option<EntryKind>),
    /// Answer to [`Request::OpenDir`]: whether the listing could be
    /// opened.
    Opened(bool),
    /// Answer to [`Request::ReadEntry`].
    Read(ReadReply),
}

/// Answer to a read from the currently open directory listing.
pub enum ReadReply {
    /// The listing is exhausted.
    Exhausted,
    /// Reading the next entry failed; the listing stays usable.
    Failed,
    /// The next entry, by bare name, with what the probe saw of it.
    Found { name: String, is_file: bool, is_dir: bool },
}

/// What the engine asks the embedding program to do next.
pub enum Request {
    /// Probe the kind of the traversal root.
    ProbeRoot(String),
    /// Open the listing of this directory, replacing any open one.
    OpenDir(String),
    /// Read one entry from the open listing.
    ReadEntry,
    /// A traversal result: this entry passed every filter.
    Yield(String, EntryKind),
    /// A traversal result: one failed item, after an unreadable listing
    /// or entry; the traversal goes on.
    YieldError,
    /// The traversal is finished.
    Done,
}

/// Index of the topmost queued item the engine acts on when no listing
/// is open: an undeferred directory (which is opened), or an entry that
/// passes the filters (which is yielded).  Items above it fail the
/// filters and are dropped.  -1 when every remaining item is dropped.
pub open spec fn live_top(
    q: Seq<PendingItem>,
    inc: Seq<Seq<char>>,
    exc: Seq<Seq<char>>,
    ext: Seq<Seq<char>>,
) -> int
    decreases q.len(),
{
    if q.len() == 0 {
        -1
    } else if (!q.last().deferred && q.last().kind is Directory) || passes_filters(
        q.last().path@,
        q.last().kind,
        inc,
        exc,
        ext,
    ) {
        q.len() - 1
    } else {
        live_top(q.drop_last(), inc, exc, ext)
    }
}

/// `q1` is `q0` with one fresh (undeferred) item of this shape on top.
pub open spec fn pushed_item(
    q0: Seq<PendingItem>,
    q1: Seq<PendingItem>,
    path: Seq<char>,
    depth: nat,
    kind: EntryKind,
    deferred: bool,
) -> bool {
    &&& q1.len() == q0.len() + 1
    &&& q1.subrange(0, q0.len() as int) == q0
    &&& q1.last().path@ == path
    &&& q1.last().depth as nat == depth
    &&& q1.last().kind == kind
    &&& q1.last().deferred == deferred
}

#[derive(Clone, Copy, PartialEq, Eq, Structural)]
enum EngMode {
    Start,
    AwaitRoot,
    AwaitOpen,
    AwaitRead,
    Ready,
    Finished,
}

/// A queued traversal work item: a path with its depth and kind, and
/// whether it is a deferred post-order marker.
pub struct PendingItem {
    /// The entry's absolute path.
    pub path: String,
    /// Depth relative to the traversal root.
    pub depth: usize,
    /// The entry's kind, as probed when it was discovered.
    pub kind: EntryKind,
    /// A directory whose children are already enqueued; it surfaces
    /// after them (post-order mode).
    pub deferred: bool,
}

struct CurrentDir {
    path: String,
    depth: usize,
}

/// The engine's state: the pending work items, and at most one currently
/// open directory listing.
pub struct IntoIter {
    options: FileSearcherOptions,
    root: String,
    mode: EngMode,
    opening: Option<PendingItem>,
    pending: Vec<PendingItem>,
    current: Option<CurrentDir>,
}

impl IntoIter {
    /// The traversal root.
    pub closed spec fn root_view(&self) -> Seq<char> {
        self.root@
    }

    /// Whether directories surface after their contents.
    pub closed spec fn overall_view(&self) -> bool {
        self.options.overall
    }

    /// The configured depth bound.
    pub closed spec fn max_depth_view(&self) -> nat {
        self.options.max_depth as nat
    }

    /// The configured include patterns.
    pub closed spec fn includes_view(&self) -> Seq<Seq<char>> {
        self.options.includes.deep_view()
    }

    /// The configured exclude patterns.
    pub closed spec fn excludes_view(&self) -> Seq<Seq<char>> {
        self.options.excludes.deep_view()
    }

    /// The configured extension allow-list.
    pub closed spec fn extensions_view(&self) -> Seq<Seq<char>> {
        self.options.extensions.deep_view()
    }

    /// Whether a directory listing is currently open.
    pub closed spec fn listing_open(&self) -> bool {
        self.current is Some
    }

    /// Whether the engine is waiting for a [`ReadReply`].
    pub closed spec fn reading(&self) -> bool {
        self.mode is AwaitRead
    }

    /// Whether the traversal has ended.
    pub closed spec fn finished(&self) -> bool {
        self.mode is Finished
    }

    /// How much queued work is left: a measure that strictly drops with
    /// every entry yielded from the queue.
    pub closed spec fn work(&self) -> nat {
        self.pending@.len()
    }

    /// The queue of pending work items, bottom first: the engine acts on
    /// the last element first.
    pub closed spec fn queue(&self) -> Seq<PendingItem> {
        self.pending@
    }

    /// The path of the currently open directory listing (meaningful only
    /// while one is open).
    pub closed spec fn open_path(&self) -> Seq<char> {
        self.current.unwrap().path@
    }

    /// The depth of the currently open directory listing.
    pub closed spec fn open_depth(&self) -> nat {
        self.current.unwrap().depth as nat
    }

    /// The directory the engine has asked to open (meaningful only while
    /// an open is outstanding).
    pub closed spec fn opening_item(&self) -> PendingItem {
        self.opening.unwrap()
    }

    /// Whether the engine has not yet probed its root.
    pub closed spec fn starting(&self) -> bool {
        self.mode is Start
    }

    /// How the engine settles its queue when no listing is open: the
    /// response and the new state are fixed by the topmost live item of
    /// the old queue (`self` is the state after the step).  An undeferred
    /// directory is opened; a file or deferred directory that passes the
    /// filters is yielded; when only dropped items remain the traversal
    /// is done.
    pub open spec fn settles_queue(&self, q0: Seq<PendingItem>, r: &Request) -> bool {
        let t = live_top(q0, self.includes_view(), self.excludes_view(), self.extensions_view());
        if t == -1 {
            &&& r is Done
            &&& self.queue().len() == 0
            &&& !self.listing_open()
        } else {
            let item = q0[t];
            &&& 0 <= t < q0.len()
            &&& self.queue() == q0.subrange(0, t)
            &&& !self.listing_open()
            &&& if !item.deferred && item.kind is Directory {
                &&& r matches Request::OpenDir(p) && p@ == item.path@
                &&& self.opening_item() == item
            } else {
                r matches Request::Yield(p, k) && p == item.path && k == item.kind
            }
        }
    }

    spec fn item_inv(&self, item: PendingItem) -> bool {
        &&& under_root(self.root@, item.path@)
        &&& rel_depth(self.root@, item.path@) == item.depth as nat
        &&& item.depth <= self.options.max_depth
    }

    /// The engine's invariant: every pending item and the open listing
    /// lie under the root within the depth bound, and the bookkeeping of
    /// the protocol mode is consistent.
    pub closed spec fn wf(&self) -> bool {
        &&& forall|i: int|
            0 <= i < self.pending@.len() ==> self.item_inv(#[trigger] self.pending@[i])
        &&& (self.mode is AwaitOpen <==> self.opening is Some)
        &&& (self.opening matches Some(item) ==> self.item_inv(item) && item.kind is Directory
            && !item.deferred)
        &&& (self.current matches Some(c) ==> under_root(self.root@, c.path@) && rel_depth(
            self.root@,
            c.path@,
        ) == c.depth as nat && c.depth <= self.options.max_depth)
        &&& (self.mode is AwaitRead ==> self.current is Some)
        &&& (self.mode is Start ==> self.pending@.len() == 0 && self.current is None)
        &&& (self.mode is AwaitRoot ==> self.pending@.len() == 0 && self.current is None)
        &&& (self.mode is AwaitOpen ==> self.current is None)
    }

    /// Which events the engine can take next: exactly the answer to its
    /// last request, and entry names must be bare (no separator).
    pub closed spec fn expects(&self, event: &Event) -> bool {
        match self.mode {
            EngMode::Start => event is Idle,
            EngMode::AwaitRoot => event is RootKind,
            EngMode::AwaitOpen => event is Opened,
            EngMode::AwaitRead => match event {
                Event::Read(reply) => match reply {
                    ReadReply::Found { name, .. } => valid_name(name@),
                    _ => true,
                },
                _ => false,
            },
            EngMode::Ready => event is Idle,
            EngMode::Finished => false,
        }
    }

    /// What every yielded entry satisfies: it lies under the root, its
    /// depth respects the bound, and it passed the filters.
    pub open spec fn yield_ok(&self, p: Seq<char>, kind: EntryKind) -> bool {
        &&& under_root(self.root_view(), p)
        &&& rel_depth(self.root_view(), p) <= self.max_depth_view()
        &&& passes_filters(p, kind, self.includes_view(), self.excludes_view(),
        self.extensions_view())
    }

    /// The configuration does not change while the traversal runs.
    pub open spec fn same_config(&self, other: &Self) -> bool {
        &&& self.root_view() == other.root_view()
        &&& self.overall_view() == other.overall_view()
        &&& self.max_depth_view() == other.max_depth_view()
        &&& self.includes_view() == other.includes_view()
        &&& self.excludes_view() == other.excludes_view()
        &&& self.extensions_view() == other.extensions_view()
    }

    /// Apply the second-pass filters to `item`: yield it, or drop it, and
    /// prune the open listing when a directory is excluded.
    fn try_emit(&mut self, item: PendingItem) -> (r: Option<Request>)
        requires
            old(self).wf(),
            old(self).item_inv(item),
            !(old(self).mode is AwaitRead),
        ensures
            final(self).wf(),
            final(self).same_config(old(self)),
            final(self).mode == old(self).mode,
            final(self).opening == old(self).opening,
            final(self).pending == old(self).pending,
            match r {
                Some(req) => req matches Request::Yield(p, k) && p == item.path && k == item.kind
                    && final(self).yield_ok(p@, k) && final(self).current == old(self).current,
                None => !passes_filters(
                    item.path@,
                    item.kind,
                    final(self).includes_view(),
                    final(self).excludes_view(),
                    final(self).extensions_view(),
                ) && (if hits_any(item.path@, final(self).excludes_view())
                    && item.kind is Directory {
                    final(self).current is None
                } else {
                    final(self).current == old(self).current
                }),
            },
    {
        if any_contains(item.path.as_str(), &self.options.excludes) {
            if item.kind == EntryKind::Directory {
                self.current = None;
            }
            return None;
        }
        if self.options.includes.len() > 0 && !any_contains(
            item.path.as_str(),
            &self.options.includes,
        ) {
            return None;
        }
        if self.options.extensions.len() > 0 && item.kind != EntryKind::Directory
            && !ext_is_listed(item.path.as_str(), &self.options.extensions) {
            return None;
        }
        Some(Request::Yield(item.path, item.kind))
    }

    /// Work through pending items until the engine needs the embedding
    /// program again.
    fn drive(&mut self) -> (r: Request)
        requires
            old(self).wf(),
            old(self).mode is Ready,
        ensures
            final(self).wf(),
            final(self).same_config(old(self)),
            old(self).listing_open() ==> r is ReadEntry && final(self).queue() == old(self).queue() && final(self).listing_open() && final(self).open_path() == old(self).open_path() && final(self).open_depth() == old(self).open_depth(),
            !old(self).listing_open() ==> final(self).settles_queue(old(self).queue(), &r),
            match r {
                Request::Yield(p, k) => final(self).yield_ok(p@, k) && final(self).expects(
                    &Event::Idle,
                ) && final(self).work() < old(self).work(),
                Request::YieldError => final(self).expects(&Event::Idle),
                Request::Done => final(self).finished(),
                Request::OpenDir(_) => !final(self).listing_open(),
                Request::ReadEntry => final(self).listing_open(),
                _ => true,
            },
            !(r is ProbeRoot),
    {
        if self.current.is_some() {
            self.mode = EngMode::AwaitRead;
            return Request::ReadEntry;
        }
        let ghost q0 = self.pending@;
        proof {
            assert(q0.subrange(0, q0.len() as int) =~= q0);
        }
        loop
            invariant
                self.wf(),
                self.mode is Ready,
                self.current is None,
                self.opening is None,
                self.same_config(old(self)),
                !old(self).listing_open(),
                q0 == old(self).queue(),
                self.pending@.len() <= q0.len(),
                self.pending@ == q0.subrange(0, self.pending@.len() as int),
                live_top(
                    q0,
                    self.includes_view(),
                    self.excludes_view(),
                    self.extensions_view(),
                ) == live_top(
                    self.pending@,
                    self.includes_view(),
                    self.excludes_view(),
                    self.extensions_view(),
                ),
            decreases self.pending@.len(),
        {
            let ghost q = self.pending@;
            match self.pending.pop() {
                None => {
                    self.mode = EngMode::Finished;
                    return Request::Done;
                },
                Some(item) => {
                    proof {
                        assert(q.last() == item);
                        assert(self.pending@ =~= q.drop_last());
                        assert(q.drop_last() =~= q0.subrange(0, q.len() - 1));
                    }
                    if !item.deferred && item.kind == EntryKind::Directory {
                        proof {
                            assert(live_top(
                                q,
                                self.includes_view(),
                                self.excludes_view(),
                                self.extensions_view(),
                            ) == q.len() - 1);
                        }
                        let path_copy = item.path.clone();
                        self.opening = Some(item);
                        self.mode = EngMode::AwaitOpen;
                        return Request::OpenDir(path_copy);
                    } else {
                        let ghost inc = self.includes_view();
                        let ghost exc = self.excludes_view();
                        let ghost ext = self.extensions_view();
                        match self.try_emit(item) {
                            Some(req) => {
                                proof {
                                    assert(live_top(q, inc, exc, ext) == q.len() - 1);
                                }
                                return req;
                            },
                            None => {
                                proof {
                                    assert(live_top(q, inc, exc, ext) == live_top(
                                        q.drop_last(),
                                        inc,
                                        exc,
                                        ext,
                                    ));
                                }
                            },
                        }
                    }
                },
            }
        }
    }

    /// Advance the traversal: consume the answer to the previous request
    /// and return the next one.
    ///
    /// The contract fixes the response from the state and the event: the
    /// first step probes the root, a missing root ends the traversal
    /// empty, an open listing is read to exhaustion with each discovered
    /// child enqueued exactly as `parent/name` within the depth bound, a
    /// failed read or open surfaces one failed item (a failed read keeps
    /// the listing open), and otherwise the queue settles as
    /// [`IntoIter::settles_queue`] says: the topmost undeferred directory
    /// is opened, the topmost entry passing the filters is yielded, and
    /// the traversal is done only when nothing remains.
    pub fn step(&mut self, event: Event) -> (r: Request)
        requires
            old(self).wf(),
            old(self).expects(&event),
        ensures
            final(self).wf(),
            final(self).same_config(old(self)),
            match r {
                Request::Yield(p, k) => final(self).yield_ok(p@, k) && final(self).expects(
                    &Event::Idle,
                ),
                Request::YieldError => final(self).expects(&Event::Idle),
                Request::Done => final(self).finished(),
                Request::OpenDir(_) => !final(self).listing_open(),
                Request::ReadEntry => final(self).listing_open(),
                _ => true,
            },
            event is Idle && r is Yield ==> final(self).work() < old(self).work(),
            r is Done ==> final(self).queue().len() == 0 && !final(self).listing_open(),
            old(self).starting() ==> (r matches Request::ProbeRoot(p) && p@ == old(self).root_view()
                && final(self).queue() == old(self).queue()),
            !old(self).starting() && event is Idle ==> ({
                if old(self).listing_open() {
                    r is ReadEntry && final(self).queue() == old(self).queue() && final(self).listing_open() && final(self).open_path() == old(self).open_path() && final(self).open_depth() == old(self).open_depth()
                } else {
                    final(self).settles_queue(old(self).queue(), &r)
                }
            }),
            event matches Event::RootKind(rk) ==> (match rk {
                None => r is Done,
                Some(kind) => ({
                    if kind is Directory {
                        &&& r matches Request::OpenDir(p) && p@ == old(self).root_view()
                        &&& final(self).opening_item().path@ == old(self).root_view()
                        &&& final(self).opening_item().depth == 0
                        &&& final(self).queue().len() == 0
                    } else if passes_filters(
                        old(self).root_view(),
                        kind,
                        old(self).includes_view(),
                        old(self).excludes_view(),
                        old(self).extensions_view(),
                    ) {
                        r matches Request::Yield(p, k) && p@ == old(self).root_view() && k == kind
                    } else {
                        r is Done
                    }
                }),
            }),
            event matches Event::Opened(ok) && !ok ==> r is YieldError && final(self).queue()
                == old(self).queue() && !final(self).listing_open(),
            event matches Event::Opened(ok) && ok ==> ({
                let item = old(self).opening_item();
                if old(self).overall_view() {
                    &&& r is ReadEntry
                    &&& final(self).listing_open() && final(self).open_path() == item.path@
                        && final(self).open_depth() == item.depth as nat
                    &&& pushed_item(
                        old(self).queue(),
                        final(self).queue(),
                        item.path@,
                        item.depth as nat,
                        item.kind,
                        true,
                    )
                } else if passes_filters(
                    item.path@,
                    item.kind,
                    old(self).includes_view(),
                    old(self).excludes_view(),
                    old(self).extensions_view(),
                ) {
                    &&& r matches Request::Yield(p, k) && p == item.path && k == item.kind
                    &&& final(self).queue() == old(self).queue()
                    &&& final(self).listing_open() && final(self).open_path() == item.path@
                } else if hits_any(item.path@, old(self).excludes_view()) {
                    final(self).settles_queue(old(self).queue(), &r)
                } else {
                    &&& r is ReadEntry
                    &&& final(self).queue() == old(self).queue()
                    &&& final(self).listing_open() && final(self).open_path() == item.path@
                        && final(self).open_depth() == item.depth as nat
                }
            }),
            event matches Event::Read(rep) ==> (match rep {
                ReadReply::Exhausted => !final(self).listing_open() && final(self).settles_queue(
                    old(self).queue(),
                    &r,
                ),
                ReadReply::Failed => r is YieldError && final(self).queue() == old(self).queue()
                    && final(self).listing_open() && final(self).open_path() == old(self).open_path() && final(self).open_depth() == old(self).open_depth(),
                ReadReply::Found { name, is_file, is_dir } => ({
                    &&& r is ReadEntry
                    &&& final(self).listing_open() && final(self).open_path() == old(self).open_path() && final(self).open_depth() == old(self).open_depth()
                    &&& if (is_file || is_dir) && old(self).open_depth() + 1 <= old(self).max_depth_view() {
                        pushed_item(
                            old(self).queue(),
                            final(self).queue(),
                            old(self).open_path() + seq!['/'] + name@,
                            old(self).open_depth() + 1,
                            if is_dir {
                                EntryKind::Directory
                            } else {
                                EntryKind::File
                            },
                            false,
                        )
                    } else {
                        final(self).queue() == old(self).queue()
                    }
                }),
            }),
            r matches Request::OpenDir(p) ==> under_root(old(self).root_view(), p@),
    {
        match event {
            Event::Idle => {
                if self.mode == EngMode::Start {
                    self.mode = EngMode::AwaitRoot;
                    return Request::ProbeRoot(self.root.clone());
                }
                self.drive()
            },
            Event::RootKind(kind) => {
                match kind {
                    None => {
                        self.mode = EngMode::Finished;
                        Request::Done
                    },
                    Some(k) => {
                        let item = PendingItem {
                            path: self.root.clone(),
                            depth: 0,
                            kind: k,
                            deferred: false,
                        };
                        proof {
                            assert(self.root@.subrange(0, self.root@.len() as int) =~= self.root@);
                            assert(self.root@.skip(self.root@.len() as int)
                                =~= Seq::<char>::empty());
                        }
                        self.pending.push(item);
                        self.mode = EngMode::Ready;
                        let ghost q1 = self.pending@;
                        let r = self.drive();
                        proof {
                            assert(q1.len() == 1);
                            assert(q1.drop_last() =~= Seq::<PendingItem>::empty());
                            assert(q1.subrange(0, 0) =~= Seq::<PendingItem>::empty());
                            let inc = self.includes_view();
                            let exc = self.excludes_view();
                            let ext = self.extensions_view();
                            assert(under_root(self.root_view(), q1.last().path@));
                            if q1.last().kind is Directory || passes_filters(
                                q1.last().path@,
                                q1.last().kind,
                                inc,
                                exc,
                                ext,
                            ) {
                                assert(live_top(q1, inc, exc, ext) == 0);
                            } else {
                                assert(live_top(q1, inc, exc, ext) == live_top(
                                    q1.drop_last(),
                                    inc,
                                    exc,
                                    ext,
                                ));
                            }
                        }
                        r
                    },
                }
            },
            Event::Opened(ok) => {
                let item = match self.opening.take() {
                    Some(item) => item,
                    None => {
                        proof {
                            assert(false);
                        }
                        unreached()
                    },
                };
                self.mode = EngMode::Ready;
                if !ok {
                    return Request::YieldError;
                }
                self.current = Some(CurrentDir { path: item.path.clone(), depth: item.depth });
                if self.options.overall {
                    let ghost q0 = self.pending@;
                    self.pending.push(
                        PendingItem {
                            path: item.path,
                            depth: item.depth,
                            kind: item.kind,
                            deferred: true,
                        },
                    );
                    proof {
                        assert(self.pending@.subrange(0, q0.len() as int) =~= q0);
                    }
                } else {
                    match self.try_emit(item) {
                        Some(req) => {
                            return req;
                        },
                        None => {},
                    }
                }
                self.drive()
            },
            Event::Read(reply) => {
                match reply {
                    ReadReply::Exhausted => {
                        self.current = None;
                        self.mode = EngMode::Ready;
                        self.drive()
                    },
                    ReadReply::Failed => {
                        self.mode = EngMode::Ready;
                        Request::YieldError
                    },
                    ReadReply::Found { name, is_file, is_dir } => {
                        if is_file || is_dir {
                            let (cur_path, cur_depth) = match self.current.as_ref() {
                                Some(c) => (c.path.clone(), c.depth),
                                None => {
                                    proof {
                                        assert(false);
                                    }
                                    unreached()
                                },
                            };
                            if cur_depth < self.options.max_depth {
                                let child = join_path(cur_path.as_str(), name.as_str());
                                proof {
                                    let rootv = self.root@;
                                    let curv = cur_path@;
                                    assert(child@.subrange(0, rootv.len() as int)
                                        =~= curv.subrange(0, rootv.len() as int));
                                    assert(under_root(rootv, child@)) by {
                                        if child@.len() > rootv.len() && curv.len() == rootv.len() {
                                            assert(child@[rootv.len() as int] == '/');
                                        }
                                    }
                                    assert(child@.skip(rootv.len() as int) =~= curv.skip(
                                        rootv.len() as int,
                                    ) + (seq!['/'] + name@));
                                    lemma_slash_count_concat(
                                        curv.skip(rootv.len() as int),
                                        seq!['/'] + name@,
                                    );
                                    lemma_no_slash(name@);
                                    assert((seq!['/'] + name@).drop_first() =~= name@);
                                    assert(slash_count(seq!['/'] + name@) == 1 + slash_count(
                                        name@,
                                    ));
                                }
                                let kind = if is_dir {
                                    EntryKind::Directory
                                } else {
                                    EntryKind::File
                                };
                                let ghost q0 = self.pending@;
                                self.pending.push(
                                    PendingItem {
                                        path: child,
                                        depth: cur_depth + 1,
                                        kind,
                                        deferred: false,
                                    },
                                );
                                proof {
                                    assert(self.pending@.subrange(0, q0.len() as int) =~= q0);
                                }
                            }
                        }
                        Request::ReadEntry
                    },
                }
            },
        }
    }

    /// Abandon the directory listing currently being expanded, so that
    /// none of its remaining entries is ever read.
    pub fn skip_current_directory(&mut self)
        requires
            old(self).wf(),
            !old(self).reading(),
        ensures
            final(self).wf(),
            final(self).same_config(old(self)),
            !final(self).listing_open(),
            forall|e: &Event| final(self).expects(e) == old(self).expects(e),
            final(self).finished() == old(self).finished(),
            final(self).queue() == old(self).queue(),
            final(self).work() == old(self).work(),
    {
        self.current = None;
    }
}

// ---------------------------------------------------------------------
// Predicate decorator
// ---------------------------------------------------------------------

/// A traversal filtered by caller-supplied predicates.  An entry is
/// yielded only when every predicate accepts its path; a rejected
/// directory has its subtree pruned.  Further predicates chain with
/// [`FilterPath::filter_path`].
pub struct FilterPath<F> {
    inner: IntoIter,
    predicates: Vec<F>,
}

impl<F: Fn(&String) -> bool + Copy> FilterPath<F> {
    /// The traversal root.
    pub closed spec fn root_view(&self) -> Seq<char> {
        self.inner.root_view()
    }

    /// The configured depth bound.
    pub closed spec fn max_depth_view(&self) -> nat {
        self.inner.max_depth_view()
    }

    /// The chained predicates, innermost first.
    pub closed spec fn predicates_view(&self) -> Seq<F> {
        self.predicates@
    }

    /// The underlying engine's guarantee for yielded entries.
    pub open spec fn base_yield_ok(&self, p: Seq<char>, kind: EntryKind) -> bool {
        &&& under_root(self.root_view(), p)
        &&& rel_depth(self.root_view(), p) <= self.max_depth_view()
    }

    /// Whether the decorated traversal has ended.
    pub closed spec fn finished(&self) -> bool {
        self.inner.finished()
    }

    /// Whether the engine is waiting for a [`ReadReply`].
    pub closed spec fn reading(&self) -> bool {
        self.inner.reading()
    }

    /// Whether a directory listing is currently open in the engine.
    pub closed spec fn listing_open(&self) -> bool {
        self.inner.listing_open()
    }

    /// Whether the engine has not yet probed its root.
    pub closed spec fn starting(&self) -> bool {
        self.inner.starting()
    }

    /// The engine's queue of pending work items.
    pub closed spec fn queue(&self) -> Seq<PendingItem> {
        self.inner.queue()
    }

    /// Which events can be fed next; delegates to the engine.
    pub closed spec fn expects(&self, event: &Event) -> bool {
        self.inner.expects(event)
    }

    /// Invariant: the engine is well-formed and every predicate can be
    /// called on any path.
    pub closed spec fn wf(&self) -> bool {
        &&& self.inner.wf()
        &&& forall|i: int, s: &String|
            0 <= i < self.predicates@.len() ==> #[trigger] call_requires(
                self.predicates@[i],
                (s,),
            )
    }

    /// The configuration does not change while the traversal runs.
    pub closed spec fn same_config(&self, other: &Self) -> bool {
        &&& self.inner.same_config(&other.inner)
        &&& self.predicates_view() == other.predicates_view()
    }

    /// Whether every predicate accepts `p`.
    fn passes(&self, p: &String) -> (b: bool)
        requires
            self.wf(),
        ensures
            b ==> forall|i: int|
                0 <= i < self.predicates_view().len() ==> call_ensures(
                    #[trigger] self.predicates_view()[i],
                    (p,),
                    true,
                ),
            !b ==> exists|i: int|
                0 <= i < self.predicates_view().len() && call_ensures(
                    #[trigger] self.predicates_view()[i],
                    (p,),
                    false,
                ),
    {
        let n = self.predicates.len();
        let mut i: usize = 0;
        while i < n
            invariant
                self.wf(),
                i <= n,
                n == self.predicates@.len(),
                forall|j: int|
                    0 <= j < i ==> call_ensures(#[trigger] self.predicates@[j], (p,), true),
            decreases n - i,
        {
            let f = self.predicates[i];
            if !f(p) {
                proof {
                    assert(self.predicates_view()[i as int] == self.predicates@[i as int]);
                    assert(call_ensures(self.predicates_view()[i as int], (p,), false));
                }
                return false;
            }
            i += 1;
        }
        true
    }

    /// Advance the filtered traversal: as [`IntoIter::step`], with every
    /// yielded entry additionally approved by all predicates.
    pub fn step(&mut self, event: Event) -> (r: Request)
        requires
            old(self).wf(),
            old(self).expects(&event),
        ensures
            final(self).wf(),
            final(self).same_config(old(self)),
            match r {
                Request::Yield(p, k) => final(self).base_yield_ok(p@, k) && final(self).expects(
                    &Event::Idle,
                ) && forall|i: int|
                    0 <= i < final(self).predicates_view().len() ==> call_ensures(
                        #[trigger] final(self).predicates_view()[i],
                        (&p,),
                        true,
                    ),
                Request::YieldError => final(self).expects(&Event::Idle),
                Request::Done => final(self).finished(),
                _ => true,
            },
            r is Done ==> final(self).queue().len() == 0 && !final(self).listing_open(),
            old(self).starting() ==> r is ProbeRoot,
            event matches Event::RootKind(None) ==> r is Done,
            event matches Event::Opened(false) ==> r is YieldError,
            event matches Event::Read(ReadReply::Failed) ==> r is YieldError && final(self).listing_open(),
            event matches Event::Read(ReadReply::Found { .. }) ==> r is ReadEntry,
    {
        let mut req = self.inner.step(event);
        loop
            invariant
                self.wf(),
                self.same_config(old(self)),
                match req {
                    Request::Yield(p, k) => self.inner.yield_ok(p@, k) && self.inner.expects(
                        &Event::Idle,
                    ),
                    Request::YieldError => self.inner.expects(&Event::Idle),
                    Request::Done => self.inner.finished(),
                    _ => true,
                },
                req is Done ==> self.inner.queue().len() == 0 && !self.inner.listing_open(),
                old(self).starting() ==> req is ProbeRoot,
                event matches Event::RootKind(None) ==> req is Done,
                event matches Event::Opened(false) ==> req is YieldError,
                event matches Event::Read(ReadReply::Failed) ==> req is YieldError
                    && self.inner.listing_open(),
                event matches Event::Read(ReadReply::Found { .. }) ==> req is ReadEntry,
            decreases self.inner.work(),
        {
            match req {
                Request::Yield(path, kind) => {
                    if self.passes(&path) {
                        return Request::Yield(path, kind);
                    }
                    if kind == EntryKind::Directory {
                        self.inner.skip_current_directory();
                    }
                    match self.inner.step(Event::Idle) {
                        Request::Yield(next_path, next_kind) => {
                            req = Request::Yield(next_path, next_kind);
                        },
                        other => {
                            return other;
                        },
                    }
                },
                _ => {
                    return req;
                },
            }
        }
    }

    /// Chain one more predicate onto the filter stack.
    pub fn filter_path(self, predicate: F) -> (r: Self)
        requires
            forall|s: &String| call_requires(predicate, (s,)),
        ensures
            r.predicates_view() == self.predicates_view().push(predicate),
            self.wf() ==> r.wf(),
            r.root_view() == self.root_view(),
            r.max_depth_view() == self.max_depth_view(),
            forall|e: &Event| r.expects(e) == self.expects(e),
            r.finished() == self.finished(),
    {
        let mut s = self;
        let ghost old_preds = s.predicates@;
        s.predicates.push(predicate);
        proof {
            assert forall|i: int, p: &String|
                0 <= i < s.predicates@.len() implies #[trigger] call_requires(
                s.predicates@[i],
                (p,),
            ) || !self.wf() by {
                if i < old_preds.len() {
                    assert(s.predicates@[i] == old_preds[i]);
                } else {
                    assert(s.predicates@[i] == predicate);
                }
            }
        }
        s
    }

    /// Abandon the directory currently being expanded; forwards to the
    /// engine.
    pub fn skip_current_directory(&mut self)
        requires
            old(self).wf(),
            !old(self).reading(),
        ensures
            final(self).wf(),
            final(self).same_config(old(self)),
            !final(self).listing_open(),
            final(self).queue() == old(self).queue(),
            forall|e: &Event| final(self).expects(e) == old(self).expects(e),
            final(self).finished() == old(self).finished(),
    {
        self.inner.skip_current_directory();
    }
}

impl IntoIter {
    /// Wrap the traversal with a predicate over paths: entries the
    /// predicate rejects are dropped, and a rejected directory's subtree
    /// is pruned.
    pub fn filter_path<F: Fn(&String) -> bool + Copy>(self, predicate: F) -> (r: FilterPath<F>)
        requires
            forall|s: &String| call_requires(predicate, (s,)),
        ensures
            self.wf() ==> r.wf(),
            r.predicates_view() =~= seq![predicate],
            r.root_view() == self.root_view(),
            r.max_depth_view() == self.max_depth_view(),
            forall|e: &Event| r.expects(e) == self.expects(e),
            r.finished() == self.finished(),
    {
        let mut predicates: Vec<F> = Vec::new();
        predicates.push(predicate);
        FilterPath { inner: self, predicates }
    }
}

} // verus!
