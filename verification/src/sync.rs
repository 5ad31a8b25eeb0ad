//! The diff-and-replicate executor.
//!
//! [`SyncExecutor`] consumes the entries a traversal yields under the
//! source tree and decides, entry by entry, whether to create a
//! directory, copy a file, leave the destination alone, or flag a stale
//! file.  Like the traversal engine it is a step function: the embedding
//! program performs the probes, directory creations, copies and the
//! override prompt, and reports each outcome back.  Every decision —
//! relative paths, ancestor repair, action classification, statistics,
//! and the dry-run guards — is made here, in verified code.

use crate::text::{join_path, parent_dir, strip_root, under_root};
use vstd::prelude::*;
use vstd::string::StrSliceExecFns;

verus! {

/// What a stat probe saw of a path.
#[derive(Clone, Copy, PartialEq, Eq, Structural, Debug)]
pub struct Meta {
    /// Whether the path is a directory.
    pub is_dir: bool,
    /// Size in bytes.
    pub size: u64,
    /// Modification time, monotone in file age.
    pub mtime: u64,
}

/// Answer to a stat probe.
#[derive(Clone, Copy, PartialEq, Eq, Structural, Debug)]
pub enum StatReply {
    /// The path does not exist.
    Absent,
    /// The path exists, with this metadata.
    Present(Meta),
    /// The probe itself failed; the run aborts.
    Failed,
}

/// How one entry is handled.
#[derive(Clone, Copy, PartialEq, Eq, Structural, Debug)]
pub enum SyncAction {
    /// The destination path is missing and the entry is a directory.
    CreateDirectory,
    /// The destination path is missing and the entry is a file.
    CopyNew,
    /// The destination exists and does not need work.
    AlreadyIdentical,
    /// The destination exists but the source is newer and differs in
    /// size; the payload says whether a confirmation is requested.
    Stale(bool),
}

/// Counters reported at the end of a run.
#[derive(Clone, Copy, PartialEq, Eq, Structural, Debug)]
pub struct SyncStats {
    /// Files copied because the destination was missing.
    pub files_copied: u64,
    /// Files flagged stale.
    pub files_stale: u64,
    /// Stale files overwritten after confirmation.
    pub files_overridden: u64,
    /// Directories created, ancestor repair included.
    pub directories_created: u64,
    /// Entries processed.
    pub total_visited: u64,
}

/// Why a run aborted.
#[derive(Clone, Copy, PartialEq, Eq, Structural, Debug)]
pub enum SyncError {
    /// The source path does not exist.
    SourceMissing,
    /// An entry was not under the source root.
    PathOutsideSource,
    /// Reading metadata of an existing path failed.
    MetadataFailed,
    /// A directory creation, permission copy or file copy failed, or the
    /// confirmation prompt could not be read.
    MutationFailed,
}

/// The size-and-time heuristic: a destination file is stale exactly when
/// the source is strictly newer and the sizes differ.
pub open spec fn is_stale_spec(src_size: u64, src_mtime: u64, tgt_size: u64, tgt_mtime: u64) -> bool {
    src_mtime > tgt_mtime && src_size != tgt_size
}

/// How an entry is classified, given whether the destination exists and
/// the two files' metadata.
pub open spec fn classify_spec(
    entry_is_dir: bool,
    target: Option<Meta>,
    src_size: u64,
    src_mtime: u64,
    confirm: bool,
) -> SyncAction {
    match target {
        None => if entry_is_dir {
            SyncAction::CreateDirectory
        } else {
            SyncAction::CopyNew
        },
        Some(t) => if is_stale_spec(src_size, src_mtime, t.size, t.mtime) {
            SyncAction::Stale(confirm)
        } else {
            SyncAction::AlreadyIdentical
        },
    }
}

/// Classify one entry.
pub fn classify(
    entry_is_dir: bool,
    target: Option<Meta>,
    src_size: u64,
    src_mtime: u64,
    confirm: bool,
) -> (a: SyncAction)
    ensures
        a == classify_spec(entry_is_dir, target, src_size, src_mtime, confirm),
{
    match target {
        None => if entry_is_dir {
            SyncAction::CreateDirectory
        } else {
            SyncAction::CopyNew
        },
        Some(t) => if src_mtime > t.mtime && src_size != t.size {
            SyncAction::Stale(confirm)
        } else {
            SyncAction::AlreadyIdentical
        },
    }
}

/// Law: two files of identical size are classified `AlreadyIdentical`,
/// never `Stale`, whatever their modification times or contents.
pub proof fn lemma_same_size_never_stale(
    entry_is_dir: bool,
    t: Meta,
    src_size: u64,
    src_mtime: u64,
    confirm: bool,
)
    requires
        t.size == src_size,
    ensures
        classify_spec(entry_is_dir, Some(t), src_size, src_mtime, confirm)
            == SyncAction::AlreadyIdentical,
{
}

/// Law: a destination that is at least as new as the source is left
/// alone, whatever the sizes.
pub proof fn lemma_not_newer_never_stale(
    entry_is_dir: bool,
    t: Meta,
    src_size: u64,
    src_mtime: u64,
    confirm: bool,
)
    requires
        src_mtime <= t.mtime,
    ensures
        classify_spec(entry_is_dir, Some(t), src_size, src_mtime, confirm)
            == SyncAction::AlreadyIdentical,
{
}

/// Law: an entry whose destination already exists, with the source not
/// newer or not differing in size, leaves every counter but
/// total-visited alone: running the same replication twice copies,
/// creates and overrides nothing the second time.
pub proof fn lemma_second_run_is_idle(
    entry_is_dir: bool,
    t: Meta,
    src_size: u64,
    src_mtime: u64,
    confirm: bool,
)
    requires
        src_mtime <= t.mtime || t.size == src_size,
    ensures
        classify_spec(entry_is_dir, Some(t), src_size, src_mtime, confirm)
            == SyncAction::AlreadyIdentical,
{
}

/// The yes/no semantics of the override prompt: only an answer whose
/// first character is `y` or `Y` confirms.
pub fn answer_is_yes(line: &str) -> (b: bool)
    ensures
        b == (line@.len() > 0 && (line@[0] == 'y' || line@[0] == 'Y')),
{
    line.unicode_len() > 0 && {
        let c = line.get_char(0);
        c == 'y' || c == 'Y'
    }
}

/// Saturating increment, so a counter can never overflow.
pub open spec fn inc_sat(x: u64) -> u64 {
    if x == u64::MAX {
        x
    } else {
        (x + 1) as u64
    }
}

fn bump(x: u64) -> (r: u64)
    ensures
        r == inc_sat(x),
{
    if x == u64::MAX {
        x
    } else {
        x + 1
    }
}

/// The ancestor-repair cursor one level up: the text before the probe's
/// last separator, or the fallback when nothing precedes it.
pub open spec fn up_from(probe: Seq<char>, fallback: Seq<char>) -> Seq<char> {
    if crate::text::last_index_of(probe, '/') > 0 {
        probe.subrange(0, crate::text::last_index_of(probe, '/'))
    } else {
        fallback
    }
}

/// What the executor asks the embedding program to do next.
pub enum SyncRequest {
    /// Probe this path: does it exist, and with what metadata?
    Stat(String),
    /// Create the directory `path` and copy the permission bits of
    /// `mirror` onto it.
    MakeDir { path: String, mirror: String },
    /// Copy the byte content of `from` over `to`.
    Copy { from: String, to: String },
    /// Ask the user whether the stale file may be overwritten.
    AskOverride,
    /// Hand over the next traversal result under the source.
    NextEntry,
    /// The run is complete; the statistics are final.
    Finished,
    /// The run aborted with this error.
    Aborted(SyncError),
}

/// What the embedding program reports back.
pub enum SyncEvent {
    /// Start the run.
    Begin,
    /// Answer to [`SyncRequest::Stat`].
    Stat(StatReply),
    /// Whether a requested mutation succeeded.
    Did(bool),
    /// The user's answer to the override prompt.
    Answer(bool),
    /// The next traversal result.
    Entry(EntryReport),
}

/// One traversal result, as the executor sees it.
pub enum EntryReport {
    /// The traversal is exhausted.
    End,
    /// The traversal yielded a failed item; the entry is skipped.
    Error,
    /// An entry under the source.
    Item { path: String, is_dir: bool },
}

#[derive(Clone, Copy, PartialEq, Eq, Structural)]
enum ExecPhase {
    Begin,
    SrcProbe,
    TgtProbe,
    RootMake,
    Pull,
    WalkProbe,
    WalkSrc,
    WalkMake,
    TgtStat,
    SrcStat,
    Ask,
    EntryMake,
    EntryCopy,
    OverCopy,
    Finished,
    Aborted,
}

/// The executor's state between two steps.
pub struct SyncExecutor {
    source: String,
    target: String,
    confirm_override: bool,
    dry_run: bool,
    stats: SyncStats,
    phase: ExecPhase,
    src_is_dir: bool,
    entry_path: String,
    entry_is_dir: bool,
    target_path: String,
    probe: String,
    counterpart: String,
    tgt_meta: Meta,
    error: Option<SyncError>,
}

impl SyncExecutor {
    /// The source root.
    pub closed spec fn source_view(&self) -> Seq<char> {
        self.source@
    }

    /// The destination root.
    pub closed spec fn target_view(&self) -> Seq<char> {
        self.target@
    }

    /// Whether stale files prompt for confirmation.
    pub closed spec fn confirm_view(&self) -> bool {
        self.confirm_override
    }

    /// Whether this is a dry run.
    pub closed spec fn dry_run_view(&self) -> bool {
        self.dry_run
    }

    /// The statistics so far.
    pub closed spec fn stats_view(&self) -> SyncStats {
        self.stats
    }

    /// Whether the run completed.
    pub closed spec fn finished(&self) -> bool {
        self.phase is Finished
    }

    /// Whether the run aborted.
    pub closed spec fn failed(&self) -> bool {
        self.phase is Aborted
    }

    /// The error of an aborted run.
    pub closed spec fn error_view(&self) -> Option<SyncError> {
        self.error
    }

    /// The source path of the entry being processed.
    pub closed spec fn entry_view(&self) -> Seq<char> {
        self.entry_path@
    }

    /// The destination path of the entry being processed: the
    /// destination root plus the entry's path relative to the source
    /// root.
    pub closed spec fn target_path_view(&self) -> Seq<char> {
        self.target_path@
    }

    /// Whether the source root was probed to be a directory.
    pub closed spec fn source_is_dir(&self) -> bool {
        self.src_is_dir
    }

    /// Whether the next stat answer is the destination probe of the
    /// entry being processed.
    pub closed spec fn classifying_next(&self) -> bool {
        self.phase is TgtStat
    }

    /// Whether the executor holds the destination metadata and will
    /// classify the entry on the next source probe.
    pub closed spec fn classifying(&self) -> bool {
        self.phase is SrcStat
    }

    /// The destination metadata recorded for the entry being classified.
    pub closed spec fn target_meta_view(&self) -> Meta {
        self.tgt_meta
    }

    /// What a stat request carries, fixed per state and event: the two
    /// roots at start-up, the entry's destination and source during
    /// classification, and the ancestor chain with its source
    /// counterparts during repair.
    pub closed spec fn stat_args_ok(pre: &Self, e: &SyncEvent, p: Seq<char>) -> bool {
        match pre.phase {
            ExecPhase::Begin => p == pre.source@,
            ExecPhase::SrcProbe => p == pre.target@,
            ExecPhase::Pull => match e {
                SyncEvent::Entry(EntryReport::Item { path, .. }) => ({
                    let tp = if path@.len() <= pre.source@.len() + 1 {
                        pre.target@
                    } else {
                        pre.target@ + seq!['/'] + path@.skip(pre.source@.len() + 1int)
                    };
                    p == up_from(tp, tp)
                }),
                _ => false,
            },
            ExecPhase::WalkProbe => match e {
                SyncEvent::Stat(StatReply::Present(_)) => p == pre.target_path@,
                SyncEvent::Stat(StatReply::Absent) => if under_root(pre.target@, pre.probe@) {
                    if pre.probe@.len() <= pre.target@.len() + 1 {
                        p == pre.source@
                    } else {
                        p == pre.source@ + seq!['/'] + pre.probe@.skip(pre.target@.len() + 1int)
                    }
                } else {
                    p == pre.target_path@
                },
                _ => false,
            },
            ExecPhase::WalkSrc => match e {
                SyncEvent::Stat(StatReply::Present(m)) => if m.is_dir && pre.dry_run {
                    p == up_from(pre.probe@, pre.target_path@)
                } else if m.is_dir {
                    false
                } else {
                    p == pre.target_path@
                },
                SyncEvent::Stat(StatReply::Absent) => p == pre.target_path@,
                _ => false,
            },
            ExecPhase::WalkMake => p == up_from(pre.probe@, pre.target_path@),
            ExecPhase::TgtStat => p == pre.entry_path@,
            _ => false,
        }
    }

    /// The run's configuration never changes.
    pub closed spec fn same_config(&self, other: &Self) -> bool {
        &&& self.source_view() == other.source_view()
        &&& self.target_view() == other.target_view()
        &&& self.confirm_view() == other.confirm_view()
        &&& self.dry_run_view() == other.dry_run_view()
    }

    /// Invariant.  The heart of the dry-run guarantee: on a dry run the
    /// counters tied to a mutation stay zero, and the executor is never
    /// waiting for a mutation to finish.
    pub closed spec fn wf(&self) -> bool {
        &&& self.dry_run ==> self.stats.files_copied == 0 && self.stats.files_overridden == 0
            && self.stats.directories_created == 0
        &&& (self.phase is RootMake || self.phase is WalkMake || self.phase is EntryMake
            || self.phase is EntryCopy || self.phase is OverCopy) ==> !self.dry_run
        &&& (self.phase is Aborted <==> self.error is Some)
    }

    /// Which events the executor can take next: exactly the answer to
    /// its previous request.
    pub closed spec fn expects(&self, e: &SyncEvent) -> bool {
        match self.phase {
            ExecPhase::Begin => e is Begin,
            ExecPhase::SrcProbe => e is Stat,
            ExecPhase::TgtProbe => e is Stat,
            ExecPhase::RootMake => e is Did,
            ExecPhase::Pull => e is Entry,
            ExecPhase::WalkProbe => e is Stat,
            ExecPhase::WalkSrc => e is Stat,
            ExecPhase::WalkMake => e is Did,
            ExecPhase::TgtStat => e is Stat,
            ExecPhase::SrcStat => e is Stat,
            ExecPhase::Ask => e is Answer,
            ExecPhase::EntryMake => e is Did,
            ExecPhase::EntryCopy => e is Did,
            ExecPhase::OverCopy => e is Did,
            ExecPhase::Finished => false,
            ExecPhase::Aborted => false,
        }
    }

    /// What a directory-creation request carries: the missing destination
    /// root mirroring the source root, a missing ancestor mirroring its
    /// source counterpart, or the entry's destination mirroring the entry.
    pub closed spec fn mkdir_args_ok(pre: &Self, path: Seq<char>, mirror: Seq<char>) -> bool {
        match pre.phase {
            ExecPhase::TgtProbe => path == pre.target@ && mirror == pre.source@,
            ExecPhase::WalkSrc => path == pre.probe@ && mirror == pre.counterpart@,
            ExecPhase::TgtStat => path == pre.target_path@ && mirror == pre.entry_path@,
            _ => false,
        }
    }

    /// When a step requests a directory creation: the missing destination
    /// root, a missing ancestor whose source counterpart is a directory,
    /// or a directory entry whose destination is missing — never on a
    /// dry run.
    pub closed spec fn wants_mkdir(pre: &Self, e: &SyncEvent) -> bool {
        !pre.dry_run && match pre.phase {
            ExecPhase::TgtProbe => e matches SyncEvent::Stat(StatReply::Absent) && pre.src_is_dir,
            ExecPhase::WalkSrc => e matches SyncEvent::Stat(StatReply::Present(m)) && m.is_dir,
            ExecPhase::TgtStat => e matches SyncEvent::Stat(StatReply::Absent) && pre.entry_is_dir,
            _ => false,
        }
    }

    /// When a step requests a file copy: a file entry whose destination
    /// is missing, or a confirmed override — never on a dry run.
    pub closed spec fn wants_copy(pre: &Self, e: &SyncEvent) -> bool {
        !pre.dry_run && match pre.phase {
            ExecPhase::TgtStat => e matches SyncEvent::Stat(StatReply::Absent)
                && !pre.entry_is_dir,
            ExecPhase::Ask => e matches SyncEvent::Answer(yes) && *yes,
            _ => false,
        }
    }

    /// When a step asks for confirmation: exactly when the entry was
    /// classified stale and confirmation is configured.
    pub closed spec fn wants_ask(pre: &Self, e: &SyncEvent) -> bool {
        pre.confirm_override && pre.phase is SrcStat && match e {
            SyncEvent::Stat(StatReply::Present(sm)) => is_stale_spec(
                sm.size,
                sm.mtime,
                pre.tgt_meta.size,
                pre.tgt_meta.mtime,
            ),
            _ => false,
        }
    }

    /// When the stale counter advances: a classification came out stale,
    /// on a dry run as on a real one.
    pub closed spec fn counts_stale(pre: &Self, e: &SyncEvent) -> bool {
        pre.phase is SrcStat && match e {
            SyncEvent::Stat(StatReply::Present(sm)) => is_stale_spec(
                sm.size,
                sm.mtime,
                pre.tgt_meta.size,
                pre.tgt_meta.mtime,
            ),
            _ => false,
        }
    }

    /// When the copied counter advances: a requested copy of a new file
    /// succeeded.
    pub closed spec fn counts_copy(pre: &Self, e: &SyncEvent) -> bool {
        pre.phase is EntryCopy && e matches SyncEvent::Did(true)
    }

    /// When the overridden counter advances: a confirmed overwrite
    /// succeeded.
    pub closed spec fn counts_override(pre: &Self, e: &SyncEvent) -> bool {
        pre.phase is OverCopy && e matches SyncEvent::Did(true)
    }

    /// When the directories-created counter advances: an ancestor repair
    /// or a directory entry creation succeeded.  The pre-created
    /// destination root is not counted.
    pub closed spec fn counts_mkdir(pre: &Self, e: &SyncEvent) -> bool {
        (pre.phase is WalkMake || pre.phase is EntryMake) && e matches SyncEvent::Did(true)
    }

    /// When the visited counter advances: the processing of one entry
    /// came to its end.
    pub closed spec fn counts_visit(pre: &Self, e: &SyncEvent) -> bool {
        match pre.phase {
            ExecPhase::TgtStat => e matches SyncEvent::Stat(StatReply::Absent) && pre.dry_run,
            ExecPhase::SrcStat => match e {
                SyncEvent::Stat(StatReply::Present(sm)) => !is_stale_spec(
                    sm.size,
                    sm.mtime,
                    pre.tgt_meta.size,
                    pre.tgt_meta.mtime,
                ) || !pre.confirm_override,
                _ => false,
            },
            ExecPhase::Ask => e matches SyncEvent::Answer(yes) && (!*yes || pre.dry_run),
            ExecPhase::EntryMake => e matches SyncEvent::Did(true),
            ExecPhase::EntryCopy => e matches SyncEvent::Did(true),
            ExecPhase::OverCopy => e matches SyncEvent::Did(true),
            _ => false,
        }
    }

    /// The exact statistics after one step.
    pub open spec fn stats_after(pre: &Self, e: &SyncEvent) -> SyncStats {
        SyncStats {
            files_copied: if Self::counts_copy(pre, e) {
                inc_sat(pre.stats_view().files_copied)
            } else {
                pre.stats_view().files_copied
            },
            files_stale: if Self::counts_stale(pre, e) {
                inc_sat(pre.stats_view().files_stale)
            } else {
                pre.stats_view().files_stale
            },
            files_overridden: if Self::counts_override(pre, e) {
                inc_sat(pre.stats_view().files_overridden)
            } else {
                pre.stats_view().files_overridden
            },
            directories_created: if Self::counts_mkdir(pre, e) {
                inc_sat(pre.stats_view().directories_created)
            } else {
                pre.stats_view().directories_created
            },
            total_visited: if Self::counts_visit(pre, e) {
                inc_sat(pre.stats_view().total_visited)
            } else {
                pre.stats_view().total_visited
            },
        }
    }

    /// Law: the mutation counters move only when a mutation actually
    /// succeeded.  Any step whose event is not a successful completion
    /// report leaves files-copied, files-overridden and
    /// directories-created untouched.
    pub proof fn lemma_counters_need_mutation(pre: &Self, e: &SyncEvent)
        requires
            !(e matches SyncEvent::Did(ok) && *ok),
        ensures
            Self::stats_after(pre, e).files_copied == pre.stats_view().files_copied,
            Self::stats_after(pre, e).files_overridden == pre.stats_view().files_overridden,
            Self::stats_after(pre, e).directories_created == pre.stats_view().directories_created,
    {
    }

    /// Law: the stale counter moves exactly when a source probe answers
    /// during classification and the size-and-time heuristic holds
    /// against the recorded destination metadata — on a dry run as on a
    /// real one.
    pub proof fn lemma_stale_counts_staleness(pre: &Self, sm: Meta)
        ensures
            Self::counts_stale(pre, &SyncEvent::Stat(StatReply::Present(sm))) == (
            pre.classifying() && is_stale_spec(
                sm.size,
                sm.mtime,
                pre.target_meta_view().size,
                pre.target_meta_view().mtime,
            )),
    {
    }

    /// Law: confirmation is requested exactly for the classifications
    /// that count as stale, and only when the question is configured.
    pub proof fn lemma_ask_iff_stale_and_configured(pre: &Self, sm: Meta)
        ensures
            Self::wants_ask(pre, &SyncEvent::Stat(StatReply::Present(sm))) == (Self::counts_stale(
                pre,
                &SyncEvent::Stat(StatReply::Present(sm)),
            ) && pre.confirm_view()),
    {
    }

    /// An executor for one run of `replicate(source, target, ...)`.
    /// Syncing back is the same run with the two roots swapped.
    pub fn new(source: String, target: String, confirm_override: bool, dry_run: bool) -> (e: Self)
        ensures
            e.wf(),
            e.source_view() == source@,
            e.target_view() == target@,
            e.confirm_view() == confirm_override,
            e.dry_run_view() == dry_run,
            e.stats_view() == (SyncStats {
                files_copied: 0,
                files_stale: 0,
                files_overridden: 0,
                directories_created: 0,
                total_visited: 0,
            }),
            e.expects(&SyncEvent::Begin),
            !e.finished(),
            !e.failed(),
    {
        SyncExecutor {
            source,
            target,
            confirm_override,
            dry_run,
            stats: SyncStats {
                files_copied: 0,
                files_stale: 0,
                files_overridden: 0,
                directories_created: 0,
                total_visited: 0,
            },
            phase: ExecPhase::Begin,
            src_is_dir: false,
            entry_path: String::new(),
            entry_is_dir: false,
            target_path: String::new(),
            probe: String::new(),
            counterpart: String::new(),
            tgt_meta: Meta { is_dir: false, size: 0, mtime: 0 },
            error: None,
        }
    }

    /// The statistics accumulated so far; final once the run finished.
    pub fn stats(&self) -> (s: SyncStats)
        ensures
            s == self.stats_view(),
    {
        self.stats
    }

    /// The error of an aborted run.
    pub fn error(&self) -> (r: Option<SyncError>)
        ensures
            r == self.error_view(),
    {
        self.error
    }

    fn abort(&mut self, err: SyncError) -> (r: SyncRequest)
        requires
            old(self).wf(),
        ensures
            final(self).wf(),
            final(self).same_config(old(self)),
            final(self).stats_view() == old(self).stats_view(),
            final(self).entry_view() == old(self).entry_view(),
            final(self).target_path_view() == old(self).target_path_view(),
            final(self).failed(),
            r == SyncRequest::Aborted(err),
    {
        self.phase = ExecPhase::Aborted;
        self.error = Some(err);
        SyncRequest::Aborted(err)
    }

    fn finish_entry(&mut self) -> (r: SyncRequest)
        requires
            old(self).wf(),
            !old(self).failed(),
        ensures
            final(self).wf(),
            final(self).same_config(old(self)),
            final(self).stats_view() == (SyncStats {
                total_visited: inc_sat(old(self).stats_view().total_visited),
                ..old(self).stats_view()
            }),
            !final(self).finished(),
            !final(self).failed(),
            final(self).in_pull(),
            final(self).entry_view() == old(self).entry_view(),
            final(self).target_path_view() == old(self).target_path_view(),
            r == SyncRequest::NextEntry,
    {
        self.stats.total_visited = bump(self.stats.total_visited);
        self.phase = ExecPhase::Pull;
        SyncRequest::NextEntry
    }

    /// Whether the executor is waiting for the next entry.
    pub closed spec fn in_pull(&self) -> bool {
        self.phase is Pull
    }

    fn goto_tgt_stat(&mut self) -> (r: SyncRequest)
        requires
            old(self).wf(),
            !old(self).failed(),
        ensures
            final(self).wf(),
            final(self).same_config(old(self)),
            final(self).stats_view() == old(self).stats_view(),
            final(self).phase is TgtStat,
            final(self).entry_is_dir == old(self).entry_is_dir,
            final(self).dry_run == old(self).dry_run,
            final(self).entry_view() == old(self).entry_view(),
            final(self).target_path_view() == old(self).target_path_view(),
            r matches SyncRequest::Stat(p) && p@ == old(self).target_path_view(),
    {
        self.phase = ExecPhase::TgtStat;
        SyncRequest::Stat(self.target_path.clone())
    }

    fn walk_up(&mut self) -> (r: SyncRequest)
        requires
            old(self).wf(),
            !old(self).failed(),
        ensures
            final(self).wf(),
            final(self).same_config(old(self)),
            final(self).stats_view() == old(self).stats_view(),
            final(self).phase is WalkProbe || final(self).phase is TgtStat,
            final(self).entry_is_dir == old(self).entry_is_dir,
            final(self).entry_view() == old(self).entry_view(),
            final(self).target_path_view() == old(self).target_path_view(),
            r matches SyncRequest::Stat(p) && p@ == up_from(
                old(self).probe@,
                old(self).target_path_view(),
            ),
    {
        let parent = match parent_dir(self.probe.as_str()) {
            Some(par) => Some(par.to_owned()),
            None => None,
        };
        match parent {
            Some(par) => {
                self.probe = par;
                self.phase = ExecPhase::WalkProbe;
                SyncRequest::Stat(self.probe.clone())
            },
            None => self.goto_tgt_stat(),
        }
    }

    /// Advance the run: consume the answer to the previous request and
    /// return the next one.
    ///
    /// The contract carries the run's laws: on a dry run no mutation is
    /// ever requested and the mutation counters stay zero; confirmation
    /// is requested exactly for stale classifications with the question
    /// enabled; and the statistics change exactly as [`stats_after`]
    /// says.
    pub fn step(&mut self, event: SyncEvent) -> (r: SyncRequest)
        requires
            old(self).wf(),
            old(self).expects(&event),
        ensures
            final(self).wf(),
            final(self).same_config(old(self)),
            old(self).dry_run_view() ==> !(r is MakeDir) && !(r is Copy),
            (r is MakeDir) == Self::wants_mkdir(old(self), &event),
            (r is Copy) == Self::wants_copy(old(self), &event),
            (r is AskOverride) == Self::wants_ask(old(self), &event),
            r matches SyncRequest::Copy { from, to } ==> from@ == old(self).entry_view() && to@
                == old(self).target_path_view(),
            r matches SyncRequest::MakeDir { path, mirror } ==> Self::mkdir_args_ok(
                old(self),
                path@,
                mirror@,
            ),
            final(self).stats_view() == Self::stats_after(old(self), &event),
            r is Finished ==> final(self).finished(),
            r is Aborted ==> final(self).failed(),
            event matches SyncEvent::Entry(EntryReport::Item { path, is_dir }) ==> ({
                if !under_root(old(self).source_view(), path@) {
                    r == SyncRequest::Aborted(SyncError::PathOutsideSource)
                } else if path@.len() <= old(self).source_view().len() + 1 {
                    if old(self).source_is_dir() {
                        r is NextEntry
                    } else {
                        &&& r is Stat
                        &&& final(self).entry_view() == path@
                        &&& final(self).target_path_view() == old(self).target_view()
                    }
                } else {
                    &&& r is Stat
                    &&& final(self).entry_view() == path@
                    &&& final(self).target_path_view() == old(self).target_view() + seq!['/']
                        + path@.skip(old(self).source_view().len() + 1int)
                }
            }),
            old(self).dry_run_view() ==> ({
                let s = final(self).stats_view();
                s.files_copied == 0 && s.files_overridden == 0 && s.directories_created == 0
            }),
            event is Begin ==> (r matches SyncRequest::Stat(p) && p@ == old(self).source_view()),
            r is Finished <==> event matches SyncEvent::Entry(EntryReport::End),
            event matches SyncEvent::Entry(EntryReport::Error) ==> r is NextEntry,
            event matches SyncEvent::Did(false) ==> (r matches SyncRequest::Aborted(err) && err
                == SyncError::MutationFailed),
            r matches SyncRequest::Stat(p) ==> Self::stat_args_ok(old(self), &event, p@),
            event matches SyncEvent::Stat(StatReply::Present(tm)) ==> (old(self).classifying_next() ==> final(self).target_meta_view() == tm && final(self).classifying()),
    {
        match event {
            SyncEvent::Begin => {
                self.phase = ExecPhase::SrcProbe;
                SyncRequest::Stat(self.source.clone())
            },
            SyncEvent::Stat(reply) => self.on_stat(reply),
            SyncEvent::Did(ok) => self.on_did(ok),
            SyncEvent::Answer(yes) => {
                // phase is Ask
                if yes && !self.dry_run {
                    self.phase = ExecPhase::OverCopy;
                    SyncRequest::Copy {
                        from: self.entry_path.clone(),
                        to: self.target_path.clone(),
                    }
                } else {
                    self.finish_entry()
                }
            },
            SyncEvent::Entry(report) => self.on_entry(report),
        }
    }

    fn on_stat(&mut self, reply: StatReply) -> (r: SyncRequest)
        requires
            old(self).wf(),
            old(self).expects(&SyncEvent::Stat(reply)),
        ensures
            final(self).wf(),
            final(self).same_config(old(self)),
            old(self).dry_run_view() ==> !(r is MakeDir) && !(r is Copy),
            (r is MakeDir) == Self::wants_mkdir(old(self), &SyncEvent::Stat(reply)),
            (r is Copy) == Self::wants_copy(old(self), &SyncEvent::Stat(reply)),
            (r is AskOverride) == Self::wants_ask(old(self), &SyncEvent::Stat(reply)),
            r matches SyncRequest::Copy { from, to } ==> from@ == old(self).entry_view() && to@
                == old(self).target_path_view(),
            r matches SyncRequest::MakeDir { path, mirror } ==> Self::mkdir_args_ok(
                old(self),
                path@,
                mirror@,
            ),
            final(self).stats_view() == Self::stats_after(old(self), &SyncEvent::Stat(reply)),
            r is Finished ==> final(self).finished(),
            r is Aborted ==> final(self).failed(),
            final(self).entry_view() == old(self).entry_view(),
            final(self).target_path_view() == old(self).target_path_view(),
            !(r is Finished),
            r matches SyncRequest::Stat(p) ==> Self::stat_args_ok(
                old(self),
                &SyncEvent::Stat(reply),
                p@,
            ),
            reply matches StatReply::Present(tm) ==> (old(self).classifying_next() ==> final(self).target_meta_view() == tm && final(self).classifying()),
    {
        match self.phase {
            ExecPhase::SrcProbe => match reply {
                StatReply::Present(m) => {
                    self.src_is_dir = m.is_dir;
                    self.phase = ExecPhase::TgtProbe;
                    SyncRequest::Stat(self.target.clone())
                },
                StatReply::Absent => self.abort(SyncError::SourceMissing),
                StatReply::Failed => self.abort(SyncError::MetadataFailed),
            },
            ExecPhase::TgtProbe => match reply {
                StatReply::Absent => {
                    if self.src_is_dir && !self.dry_run {
                        self.phase = ExecPhase::RootMake;
                        SyncRequest::MakeDir {
                            path: self.target.clone(),
                            mirror: self.source.clone(),
                        }
                    } else {
                        self.phase = ExecPhase::Pull;
                        SyncRequest::NextEntry
                    }
                },
                StatReply::Present(_) => {
                    self.phase = ExecPhase::Pull;
                    SyncRequest::NextEntry
                },
                StatReply::Failed => self.abort(SyncError::MetadataFailed),
            },
            ExecPhase::WalkProbe => match reply {
                StatReply::Present(_) => self.goto_tgt_stat(),
                StatReply::Absent => {
                    let counterpart = match strip_root(
                        self.probe.as_str(),
                        self.target.as_str(),
                    ) {
                        None => None,
                        Some(rel) => {
                            if rel.unicode_len() == 0 {
                                Some(self.source.clone())
                            } else {
                                proof {
                                    assert(rel@ =~= self.probe@.skip(self.target@.len() + 1int));
                                }
                                Some(join_path(self.source.as_str(), rel))
                            }
                        },
                    };
                    match counterpart {
                        None => self.goto_tgt_stat(),
                        Some(cp) => {
                            self.counterpart = cp;
                            self.phase = ExecPhase::WalkSrc;
                            SyncRequest::Stat(self.counterpart.clone())
                        },
                    }
                },
                StatReply::Failed => self.abort(SyncError::MetadataFailed),
            },
            ExecPhase::WalkSrc => match reply {
                StatReply::Present(m) => {
                    if m.is_dir {
                        if self.dry_run {
                            self.walk_up()
                        } else {
                            self.phase = ExecPhase::WalkMake;
                            SyncRequest::MakeDir {
                                path: self.probe.clone(),
                                mirror: self.counterpart.clone(),
                            }
                        }
                    } else {
                        self.goto_tgt_stat()
                    }
                },
                StatReply::Absent => self.goto_tgt_stat(),
                StatReply::Failed => self.abort(SyncError::MetadataFailed),
            },
            ExecPhase::TgtStat => match reply {
                StatReply::Absent => {
                    if self.dry_run {
                        self.finish_entry()
                    } else if self.entry_is_dir {
                        self.phase = ExecPhase::EntryMake;
                        SyncRequest::MakeDir {
                            path: self.target_path.clone(),
                            mirror: self.entry_path.clone(),
                        }
                    } else {
                        self.phase = ExecPhase::EntryCopy;
                        SyncRequest::Copy {
                            from: self.entry_path.clone(),
                            to: self.target_path.clone(),
                        }
                    }
                },
                StatReply::Present(tm) => {
                    self.tgt_meta = tm;
                    self.phase = ExecPhase::SrcStat;
                    SyncRequest::Stat(self.entry_path.clone())
                },
                StatReply::Failed => self.abort(SyncError::MetadataFailed),
            },
            ExecPhase::SrcStat => match reply {
                StatReply::Present(sm) => {
                    let action = classify(
                        self.entry_is_dir,
                        Some(self.tgt_meta),
                        sm.size,
                        sm.mtime,
                        self.confirm_override,
                    );
                    match action {
                        SyncAction::Stale(ask) => {
                            self.stats.files_stale = bump(self.stats.files_stale);
                            if ask {
                                self.phase = ExecPhase::Ask;
                                SyncRequest::AskOverride
                            } else {
                                self.finish_entry()
                            }
                        },
                        _ => self.finish_entry(),
                    }
                },
                StatReply::Absent => self.abort(SyncError::MetadataFailed),
                StatReply::Failed => self.abort(SyncError::MetadataFailed),
            },
            _ => {
                proof {
                    assert(false);
                }
                unreached()
            },
        }
    }

    fn on_did(&mut self, ok: bool) -> (r: SyncRequest)
        requires
            old(self).wf(),
            old(self).expects(&SyncEvent::Did(ok)),
        ensures
            final(self).wf(),
            final(self).same_config(old(self)),
            old(self).dry_run_view() ==> !(r is MakeDir) && !(r is Copy),
            (r is MakeDir) == Self::wants_mkdir(old(self), &SyncEvent::Did(ok)),
            (r is Copy) == Self::wants_copy(old(self), &SyncEvent::Did(ok)),
            (r is AskOverride) == Self::wants_ask(old(self), &SyncEvent::Did(ok)),
            r matches SyncRequest::Copy { from, to } ==> from@ == old(self).entry_view() && to@
                == old(self).target_path_view(),
            r matches SyncRequest::MakeDir { path, mirror } ==> Self::mkdir_args_ok(
                old(self),
                path@,
                mirror@,
            ),
            final(self).stats_view() == Self::stats_after(old(self), &SyncEvent::Did(ok)),
            r is Finished ==> final(self).finished(),
            r is Aborted ==> final(self).failed(),
            final(self).entry_view() == old(self).entry_view(),
            final(self).target_path_view() == old(self).target_path_view(),
            !(r is Finished),
            !ok ==> (r matches SyncRequest::Aborted(err) && err == SyncError::MutationFailed),
            r matches SyncRequest::Stat(p) ==> Self::stat_args_ok(
                old(self),
                &SyncEvent::Did(ok),
                p@,
            ),
    {
        if !ok {
            return self.abort(SyncError::MutationFailed);
        }
        match self.phase {
            ExecPhase::RootMake => {
                self.phase = ExecPhase::Pull;
                SyncRequest::NextEntry
            },
            ExecPhase::WalkMake => {
                self.stats.directories_created = bump(self.stats.directories_created);
                self.walk_up()
            },
            ExecPhase::EntryMake => {
                self.stats.directories_created = bump(self.stats.directories_created);
                self.finish_entry()
            },
            ExecPhase::EntryCopy => {
                self.stats.files_copied = bump(self.stats.files_copied);
                self.finish_entry()
            },
            ExecPhase::OverCopy => {
                self.stats.files_overridden = bump(self.stats.files_overridden);
                self.finish_entry()
            },
            _ => {
                proof {
                    assert(false);
                }
                unreached()
            },
        }
    }

    fn on_entry(&mut self, report: EntryReport) -> (r: SyncRequest)
        requires
            old(self).wf(),
            old(self).expects(&SyncEvent::Entry(report)),
        ensures
            final(self).wf(),
            final(self).same_config(old(self)),
            !(r is MakeDir),
            !(r is Copy),
            !(r is AskOverride),
            final(self).stats_view() == old(self).stats_view(),
            r is Finished ==> final(self).finished(),
            r is Aborted ==> final(self).failed(),
            r is Finished <==> report matches EntryReport::End,
            report matches EntryReport::Error ==> r is NextEntry,
            r matches SyncRequest::Stat(p) ==> Self::stat_args_ok(
                old(self),
                &SyncEvent::Entry(report),
                p@,
            ),
            report matches EntryReport::Item { path, is_dir } ==> ({
                if !under_root(old(self).source_view(), path@) {
                    r == SyncRequest::Aborted(SyncError::PathOutsideSource)
                } else if path@.len() <= old(self).source_view().len() + 1 {
                    if old(self).source_is_dir() {
                        r is NextEntry
                    } else {
                        &&& r is Stat
                        &&& final(self).entry_view() == path@
                        &&& final(self).target_path_view() == old(self).target_view()
                    }
                } else {
                    &&& r is Stat
                    &&& final(self).entry_view() == path@
                    &&& final(self).target_path_view() == old(self).target_view() + seq!['/']
                        + path@.skip(old(self).source_view().len() + 1int)
                }
            }),
    {
        match report {
            EntryReport::End => {
                self.phase = ExecPhase::Finished;
                SyncRequest::Finished
            },
            EntryReport::Error => {
                // A recoverable traversal error: the entry is skipped.
                SyncRequest::NextEntry
            },
            EntryReport::Item { path, is_dir } => {
                let rel = match strip_root(path.as_str(), self.source.as_str()) {
                    None => None,
                    Some(rel) => Some(rel.to_owned()),
                };
                match rel {
                    None => self.abort(SyncError::PathOutsideSource),
                    Some(rel) => {
                        if rel.as_str().unicode_len() == 0 {
                            if self.src_is_dir {
                                // A directory source's root entry is not
                                // replicated; the pre-step handled it.
                                return SyncRequest::NextEntry;
                            }
                            // A file source: the entry is the file
                            // itself, replicated onto the destination
                            // root.
                            self.entry_path = path;
                            self.entry_is_dir = is_dir;
                            self.target_path = self.target.clone();
                        } else {
                            proof {
                                assert(rel@ =~= path@.skip(self.source@.len() + 1int));
                            }
                            self.entry_path = path;
                            self.entry_is_dir = is_dir;
                            self.target_path = join_path(self.target.as_str(), rel.as_str());
                        }
                        let parent = match parent_dir(self.target_path.as_str()) {
                            Some(par) => Some(par.to_owned()),
                            None => None,
                        };
                        match parent {
                            Some(par) => {
                                self.probe = par;
                                self.phase = ExecPhase::WalkProbe;
                                SyncRequest::Stat(self.probe.clone())
                            },
                            None => self.goto_tgt_stat(),
                        }
                    },
                }
            },
        }
    }
}

} // verus!

