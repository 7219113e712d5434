//! The per-file flow of a copy run as a state machine. The caller performs
//! each requested action (reading, writing, asking the file system) and
//! hands back what happened; the run decides what comes next: which file
//! starts, when a path is refused, when a file is skipped, when data goes
//! to a temporary file, when that file is synced, replaces the destination
//! and is renamed, when it is removed again, and when the run concludes.

use vstd::prelude::*;
use crate::paths::exceeds_safe_path_length;
use crate::text::{joined, joined3, utf16_len};
use crate::transfer::{
    CopyOutcome, CopySession, SessionView, session_consistent, upload_temp_name, upload_temp_name_of,
    skipped_file_status, copy_status_of,
};

verus! {

/// The step of a file's copy at which it failed.
#[derive(Clone, Copy, Debug, PartialEq, Eq, Structural)]
pub enum CopyFailure {
    OpenSource,
    CreateTemp,
    Read,
    Write,
    Sync,
    Replace,
    Rename,
}

/// The words put before the system's error for each failing step.
pub open spec fn failure_prefix(f: CopyFailure) -> Seq<char> {
    match f {
        CopyFailure::OpenSource => "Não foi possível abrir a origem: "@,
        CopyFailure::CreateTemp => "Não foi possível criar o arquivo temporário: "@,
        CopyFailure::Read => "Falha durante a leitura: "@,
        CopyFailure::Write => "Falha durante a gravação: "@,
        CopyFailure::Sync => "Falha ao finalizar o arquivo: "@,
        CopyFailure::Replace => "Não foi possível substituir o arquivo: "@,
        CopyFailure::Rename => "Não foi possível concluir o arquivo: "@,
    }
}

/// The message of a failed step, with the system's error text.
pub fn failure_message(failure: CopyFailure, error: &str) -> (r: String)
    ensures
        r@ == failure_prefix(failure) + error@,
{
    let prefix = match failure {
        CopyFailure::OpenSource => "Não foi possível abrir a origem: ",
        CopyFailure::CreateTemp => "Não foi possível criar o arquivo temporário: ",
        CopyFailure::Read => "Falha durante a leitura: ",
        CopyFailure::Write => "Falha durante a gravação: ",
        CopyFailure::Sync => "Falha ao finalizar o arquivo: ",
        CopyFailure::Replace => "Não foi possível substituir o arquivo: ",
        CopyFailure::Rename => "Não foi possível concluir o arquivo: ",
    };
    joined(prefix, error)
}

pub open spec fn path_too_long_message(desired: Seq<char>) -> Seq<char> {
    "O caminho de destino é muito longo: "@ + desired
}

pub open spec fn parent_failed_message(parent: Seq<char>, error: Seq<char>) -> Seq<char> {
    "Não foi possível criar "@ + parent + ": "@ + error
}

pub open spec fn cancelled_copy_message() -> Seq<char> {
    "Cópia cancelada."@
}

/// The error recorded for a failed file: its source, then what failed.
pub open spec fn failed_file_message(source: Seq<char>, message: Seq<char>) -> Seq<char> {
    source + ": "@ + message
}

pub open spec fn skipped_status_of(cancelled: bool) -> Seq<char> {
    if cancelled {
        "cancelled"@
    } else {
        "skipped"@
    }
}

/// What the run waits for.
#[derive(Clone, Copy, Debug, PartialEq, Eq, Structural)]
pub enum CopyPhase {
    /// The start of the current file.
    StartingFile,
    /// The folder that will hold the file.
    MakingParent,
    /// The destination chosen for the file, or none.
    Resolving,
    /// The report of a skipped file.
    ReportingSkip,
    /// Opening the source and creating the temporary file.
    Opening,
    /// Whether the run was cancelled, before the next block.
    CheckingCancel,
    /// The next block of data.
    Copying,
    /// Syncing the temporary file.
    Syncing,
    /// Removing the file that the copy replaces.
    Replacing,
    /// Renaming the temporary file to the destination.
    Renaming,
    /// The report of a completed file.
    ReportingDone,
    /// Removing the temporary file after a failure or a cancellation.
    Cleaning,
    /// Whether the run was cancelled, at its end.
    Concluding,
    /// Nothing: the run is over.
    Finished,
}

/// What happened when the caller performed the requested action.
#[derive(Debug, PartialEq, Eq)]
pub enum CopyEvent {
    /// The current file may start or not (`cancelled`); its source and the
    /// path it is meant to have at the destination.
    FileStarted { cancelled: bool, source: String, desired: String },
    /// The folder that holds the destination exists.
    ParentReady,
    /// The folder that holds the destination could not be made.
    ParentFailed { parent: String, error: String },
    /// The file name to write, or `None` when the file is skipped, and
    /// whether the run was cancelled by then.
    Resolved { name: Option<String>, cancelled: bool },
    /// A report was made.
    Continue,
    /// The source is open and the temporary file created.
    Opened,
    /// Whether the run was cancelled.
    CancelState(bool),
    /// A block of this many bytes was read and written; zero means the
    /// source has ended.
    BlockCopied(u64),
    /// The source has no more data.
    SourceEnd,
    /// The temporary file is synced, and whether the destination exists.
    Synced { destination_exists: bool },
    /// The file at the destination was removed.
    Removed,
    /// The temporary file now has the destination's name.
    Renamed,
    /// A step of the copy failed with the system's error text.
    Failed { failure: CopyFailure, error: String },
    /// The temporary file was removed (whatever the outcome), and whether
    /// the run was cancelled by then.
    TempRemoved { cancelled: bool },
}

/// The mathematical value of a [`CopyEvent`].
pub enum EventView {
    FileStarted { cancelled: bool, source: Seq<char>, desired: Seq<char> },
    ParentReady,
    ParentFailed { parent: Seq<char>, error: Seq<char> },
    Resolved { name: Option<Seq<char>>, cancelled: bool },
    Continue,
    Opened,
    CancelState(bool),
    BlockCopied(u64),
    SourceEnd,
    Synced { destination_exists: bool },
    Removed,
    Renamed,
    Failed { failure: CopyFailure, error: Seq<char> },
    TempRemoved { cancelled: bool },
}

impl View for CopyEvent {
    type V = EventView;

    open spec fn view(&self) -> EventView {
        match self {
            CopyEvent::FileStarted { cancelled, source, desired } => EventView::FileStarted {
                cancelled: *cancelled,
                source: source@,
                desired: desired@,
            },
            CopyEvent::ParentReady => EventView::ParentReady,
            CopyEvent::ParentFailed { parent, error } => EventView::ParentFailed {
                parent: parent@,
                error: error@,
            },
            CopyEvent::Resolved { name, cancelled } => EventView::Resolved {
                name: match name {
                    Some(n) => Some(n@),
                    None => None,
                },
                cancelled: *cancelled,
            },
            CopyEvent::Continue => EventView::Continue,
            CopyEvent::Opened => EventView::Opened,
            CopyEvent::CancelState(c) => EventView::CancelState(*c),
            CopyEvent::BlockCopied(n) => EventView::BlockCopied(*n),
            CopyEvent::SourceEnd => EventView::SourceEnd,
            CopyEvent::Synced { destination_exists } => EventView::Synced {
                destination_exists: *destination_exists,
            },
            CopyEvent::Removed => EventView::Removed,
            CopyEvent::Renamed => EventView::Renamed,
            CopyEvent::Failed { failure, error } => EventView::Failed {
                failure: *failure,
                error: error@,
            },
            CopyEvent::TempRemoved { cancelled } => EventView::TempRemoved { cancelled: *cancelled },
        }
    }
}

/// What the run asks the caller to do next.
#[derive(Debug, PartialEq, Eq)]
pub enum CopyAction {
    /// Say whether the run was cancelled, and describe file `i`.
    StartFile(usize),
    /// Make the folder that holds the destination.
    CreateParent,
    /// Choose the destination (asking the user where that is wanted).
    ResolveDestination,
    /// Report the file as skipped with this status.
    ReportSkipped { status: String },
    /// Open the source and create the temporary file of this name beside
    /// the destination.
    OpenTemp { temp_name: String },
    /// Say whether the run was cancelled.
    CheckCancel,
    /// Read a block of the source and write it to the temporary file.
    CopyBlock,
    /// Sync and close the temporary file, and say whether the destination
    /// exists.
    SyncTemp,
    /// Remove the file at the destination.
    RemoveExisting,
    /// Rename the temporary file to the destination.
    RenameTemp,
    /// Report the file as completed.
    ReportCompleted,
    /// Remove the temporary file and say whether the run was cancelled.
    RemoveTemp,
    /// Forget the run's cancellation request and say whether there was one.
    Conclude,
    /// Take the outcome: the run is over.
    Finish,
}

/// The mathematical value of a [`CopyAction`].
pub enum ActionView {
    StartFile(nat),
    CreateParent,
    ResolveDestination,
    ReportSkipped { status: Seq<char> },
    OpenTemp { temp_name: Seq<char> },
    CheckCancel,
    CopyBlock,
    SyncTemp,
    RemoveExisting,
    RenameTemp,
    ReportCompleted,
    RemoveTemp,
    Conclude,
    Finish,
}

impl View for CopyAction {
    type V = ActionView;

    open spec fn view(&self) -> ActionView {
        match self {
            CopyAction::StartFile(i) => ActionView::StartFile(*i as nat),
            CopyAction::CreateParent => ActionView::CreateParent,
            CopyAction::ResolveDestination => ActionView::ResolveDestination,
            CopyAction::ReportSkipped { status } => ActionView::ReportSkipped { status: status@ },
            CopyAction::OpenTemp { temp_name } => ActionView::OpenTemp { temp_name: temp_name@ },
            CopyAction::CheckCancel => ActionView::CheckCancel,
            CopyAction::CopyBlock => ActionView::CopyBlock,
            CopyAction::SyncTemp => ActionView::SyncTemp,
            CopyAction::RemoveExisting => ActionView::RemoveExisting,
            CopyAction::RenameTemp => ActionView::RenameTemp,
            CopyAction::ReportCompleted => ActionView::ReportCompleted,
            CopyAction::RemoveTemp => ActionView::RemoveTemp,
            CopyAction::Conclude => ActionView::Conclude,
            CopyAction::Finish => ActionView::Finish,
        }
    }
}

/// A copy run over a list of files, one at a time.
pub struct CopyRun {
    session: CopySession,
    operation_id: String,
    destination: String,
    on_windows: bool,
    index: usize,
    phase: CopyPhase,
    source: String,
    pending: String,
    cancelled_at_end: bool,
}

/// The mathematical value of a [`CopyRun`]: its counters, the operation
/// and destination it reports, the current file and phase, the current
/// file's source, the message of a failure being cleaned up, and whether
/// the run ended cancelled.
pub struct RunView {
    pub session: SessionView,
    pub operation_id: Seq<char>,
    pub destination: Seq<char>,
    pub on_windows: bool,
    pub index: nat,
    pub phase: CopyPhase,
    pub source: Seq<char>,
    pub pending: Seq<char>,
    pub cancelled_at_end: bool,
}

impl View for CopyRun {
    type V = RunView;

    closed spec fn view(&self) -> RunView {
        RunView {
            session: self.session@,
            operation_id: self.operation_id@,
            destination: self.destination@,
            on_windows: self.on_windows,
            index: self.index as nat,
            phase: self.phase,
            source: self.source@,
            pending: self.pending@,
            cancelled_at_end: self.cancelled_at_end,
        }
    }
}

/// While a file is under way the run is not stopped, the file is one of
/// the run's, and at most the files before it were handled (it too, once
/// it is reported).
pub open spec fn run_well_formed(s: RunView) -> bool {
    &&& session_consistent(s.session)
    &&& s.session.total_items <= usize::MAX
    &&& match s.phase {
        CopyPhase::Concluding | CopyPhase::Finished => true,
        CopyPhase::ReportingSkip | CopyPhase::ReportingDone => {
            &&& !s.session.stopped
            &&& s.index < s.session.total_items
            &&& s.session.handled <= s.index + 1
        },
        _ => {
            &&& !s.session.stopped
            &&& s.index < s.session.total_items
            &&& s.session.handled <= s.index
        },
    }
}

/// Whether the run waits for this event (and, for a block, whether the
/// byte count still fits).
pub open spec fn accepts_event(s: RunView, e: EventView) -> bool {
    match s.phase {
        CopyPhase::StartingFile => e is FileStarted,
        CopyPhase::MakingParent => e is ParentReady || e is ParentFailed,
        CopyPhase::Resolving => e is Resolved,
        CopyPhase::ReportingSkip | CopyPhase::ReportingDone => e is Continue,
        CopyPhase::Opening => e is Opened || e is Failed,
        CopyPhase::CheckingCancel | CopyPhase::Concluding => e is CancelState,
        CopyPhase::Copying => {
            ||| (e matches EventView::BlockCopied(n) && s.session.copied_bytes + n <= u64::MAX)
            ||| e is SourceEnd
            ||| e is Failed
        },
        CopyPhase::Syncing => e is Synced || e is Failed,
        CopyPhase::Replacing => e is Removed || e is Failed,
        CopyPhase::Renaming => e is Renamed || e is Failed,
        CopyPhase::Cleaning => e is TempRemoved,
        CopyPhase::Finished => false,
    }
}

/// The run after the current file: the next file starts, or the run
/// concludes after the last one.
pub open spec fn next_file(s: RunView) -> (RunView, ActionView) {
    if s.index + 1 < s.session.total_items {
        (RunView { index: s.index + 1, phase: CopyPhase::StartingFile, ..s }, ActionView::StartFile(s.index + 1))
    } else {
        (RunView { phase: CopyPhase::Concluding, ..s }, ActionView::Conclude)
    }
}

/// A run that ends a file's copy by removing its temporary file, to record
/// `message` as the reason.
pub open spec fn clean_up(s: RunView, message: Seq<char>) -> (RunView, ActionView) {
    (RunView { phase: CopyPhase::Cleaning, pending: message, ..s }, ActionView::RemoveTemp)
}

/// One step of the run: the new run and the next action, for an event it
/// waits for (see [`accepts_event`]; any other event leaves it unchanged).
pub open spec fn copy_step(s: RunView, e: EventView) -> (RunView, ActionView) {
    match (s.phase, e) {
        (CopyPhase::StartingFile, EventView::FileStarted { cancelled, source, desired }) => {
            if cancelled {
                (
                    RunView {
                        session: SessionView { stopped: true, ..s.session },
                        phase: CopyPhase::Concluding,
                        ..s
                    },
                    ActionView::Conclude,
                )
            } else if s.on_windows && utf16_len(desired) > 240 {
                next_file(
                    RunView {
                        session: SessionView {
                            errors: s.session.errors.push(path_too_long_message(desired)),
                            ..s.session
                        },
                        ..s
                    },
                )
            } else {
                (RunView { source, phase: CopyPhase::MakingParent, ..s }, ActionView::CreateParent)
            }
        },
        (CopyPhase::MakingParent, EventView::ParentReady) => {
            (RunView { phase: CopyPhase::Resolving, ..s }, ActionView::ResolveDestination)
        },
        (CopyPhase::MakingParent, EventView::ParentFailed { parent, error }) => {
            next_file(
                RunView {
                    session: SessionView {
                        errors: s.session.errors.push(parent_failed_message(parent, error)),
                        ..s.session
                    },
                    ..s
                },
            )
        },
        (CopyPhase::Resolving, EventView::Resolved { name, cancelled }) => {
            match name {
                None => (
                    RunView {
                        session: SessionView {
                            handled: s.session.handled + 1,
                            skipped: s.session.skipped + 1,
                            ..s.session
                        },
                        phase: CopyPhase::ReportingSkip,
                        ..s
                    },
                    ActionView::ReportSkipped { status: skipped_status_of(cancelled) },
                ),
                Some(n) => (
                    RunView { phase: CopyPhase::Opening, ..s },
                    ActionView::OpenTemp { temp_name: upload_temp_name_of(n, s.operation_id) },
                ),
            }
        },
        (CopyPhase::ReportingSkip, EventView::Continue) => next_file(s),
        (CopyPhase::ReportingDone, EventView::Continue) => next_file(s),
        (CopyPhase::Opening, EventView::Opened) => {
            (RunView { phase: CopyPhase::CheckingCancel, ..s }, ActionView::CheckCancel)
        },
        (CopyPhase::CheckingCancel, EventView::CancelState(cancelled)) => {
            if cancelled {
                clean_up(s, cancelled_copy_message())
            } else {
                (RunView { phase: CopyPhase::Copying, ..s }, ActionView::CopyBlock)
            }
        },
        (CopyPhase::Copying, EventView::BlockCopied(n)) => {
            if n == 0 {
                (RunView { phase: CopyPhase::Syncing, ..s }, ActionView::SyncTemp)
            } else {
                (
                    RunView {
                        session: SessionView {
                            copied_bytes: (s.session.copied_bytes + n) as nat,
                            ..s.session
                        },
                        phase: CopyPhase::CheckingCancel,
                        ..s
                    },
                    ActionView::CheckCancel,
                )
            }
        },
        (CopyPhase::Copying, EventView::SourceEnd) => {
            (RunView { phase: CopyPhase::Syncing, ..s }, ActionView::SyncTemp)
        },
        (CopyPhase::Syncing, EventView::Synced { destination_exists }) => {
            if destination_exists {
                (RunView { phase: CopyPhase::Replacing, ..s }, ActionView::RemoveExisting)
            } else {
                (RunView { phase: CopyPhase::Renaming, ..s }, ActionView::RenameTemp)
            }
        },
        (CopyPhase::Replacing, EventView::Removed) => {
            (RunView { phase: CopyPhase::Renaming, ..s }, ActionView::RenameTemp)
        },
        (CopyPhase::Renaming, EventView::Renamed) => {
            (
                RunView {
                    session: SessionView {
                        handled: s.session.handled + 1,
                        completed: s.session.completed + 1,
                        ..s.session
                    },
                    phase: CopyPhase::ReportingDone,
                    ..s
                },
                ActionView::ReportCompleted,
            )
        },
        (_, EventView::Failed { failure, error }) => clean_up(s, failure_prefix(failure) + error),
        (CopyPhase::Cleaning, EventView::TempRemoved { cancelled }) => {
            next_file(
                RunView {
                    session: SessionView {
                        handled: s.session.handled + 1,
                        errors: if cancelled {
                            s.session.errors
                        } else {
                            s.session.errors.push(failed_file_message(s.source, s.pending))
                        },
                        ..s.session
                    },
                    ..s
                },
            )
        },
        (CopyPhase::Concluding, EventView::CancelState(cancelled)) => {
            (RunView { phase: CopyPhase::Finished, cancelled_at_end: cancelled, ..s }, ActionView::Finish)
        },
        _ => (s, ActionView::Finish),
    }
}

/// The run as it starts over `total_items` files, with its first action.
pub open spec fn first_step(session: SessionView, operation_id: Seq<char>, destination: Seq<char>, on_windows: bool) -> (RunView, ActionView) {
    let s = RunView {
        session,
        operation_id,
        destination,
        on_windows,
        index: 0,
        phase: CopyPhase::StartingFile,
        source: Seq::empty(),
        pending: Seq::empty(),
        cancelled_at_end: false,
    };
    if session.total_items > 0 {
        (s, ActionView::StartFile(0))
    } else {
        (RunView { phase: CopyPhase::Concluding, ..s }, ActionView::Conclude)
    }
}

/// Every step from a well-formed run, on an event it waits for, leaves it
/// well formed.
pub proof fn lemma_step_keeps_well_formed(s: RunView, e: EventView)
    requires
        run_well_formed(s),
        accepts_event(s, e),
    ensures
        run_well_formed(copy_step(s, e).0),
{
}

/// A cancellation seen as a file starts stops the run: the file is not
/// touched, nothing is counted, and the run concludes.
pub proof fn lemma_cancel_before_file_concludes(s: RunView, source: Seq<char>, desired: Seq<char>)
    requires
        run_well_formed(s),
        s.phase == CopyPhase::StartingFile,
    ensures
        copy_step(s, (EventView::FileStarted { cancelled: true, source, desired })) == (
            RunView {
                session: SessionView { stopped: true, ..s.session },
                phase: CopyPhase::Concluding,
                ..s
            },
            ActionView::Conclude,
        ),
{
}

/// Once the run is stopped it opens no file, copies no block, starts no
/// file and counts nothing more: all that is left is to finish.
pub proof fn lemma_stopped_run_copies_nothing(s: RunView, e: EventView)
    requires
        run_well_formed(s),
        accepts_event(s, e),
        s.session.stopped,
    ensures
        copy_step(s, e).1 == ActionView::Finish,
        copy_step(s, e).0.session == s.session,
{
}

/// A cancellation seen between two blocks ends the file after the current
/// block: its temporary file is removed, and the file counts as handled but
/// neither completed nor failed; the bytes already copied stay counted.
pub proof fn lemma_cancel_between_blocks_discards_file(s: RunView)
    requires
        run_well_formed(s),
        s.phase == CopyPhase::CheckingCancel,
    ensures
        copy_step(s, EventView::CancelState(true)).1 == ActionView::RemoveTemp,
        copy_step(s, EventView::CancelState(true)).0.pending == cancelled_copy_message(),
        copy_step(copy_step(s, EventView::CancelState(true)).0, (EventView::TempRemoved { cancelled: true })).0.session
            == (SessionView { handled: s.session.handled + 1, ..s.session }),
{
}

/// Data reaches the destination's name only in order: the temporary file
/// is synced once the whole source was written, an existing destination is
/// removed only after that sync, the rename comes only after the sync (and
/// the removal where there was a file), and a file counts as completed only
/// after the rename.
pub proof fn lemma_rename_follows_complete_copy(s: RunView, e: EventView)
    requires
        run_well_formed(s),
        accepts_event(s, e),
    ensures
        copy_step(s, e).1 is SyncTemp ==> s.phase == CopyPhase::Copying && (e is SourceEnd || e
            == EventView::BlockCopied(0)),
        copy_step(s, e).1 is RemoveExisting ==> s.phase == CopyPhase::Syncing && e == (EventView::Synced { destination_exists: true }),
        copy_step(s, e).1 is RenameTemp ==> (s.phase == CopyPhase::Syncing && e == (EventView::Synced { destination_exists: false })) || (s.phase == CopyPhase::Replacing && e == EventView::Removed),
        copy_step(s, e).1 is ReportCompleted ==> s.phase == CopyPhase::Renaming && e == EventView::Renamed,
{
}

/// A failure at any step of a file's copy removes the temporary file, and
/// then the file is recorded as failed with its source and the failure's
/// message, unless the run was cancelled by then.
pub proof fn lemma_failure_removes_temp(s: RunView, failure: CopyFailure, error: Seq<char>, cancelled: bool)
    requires
        run_well_formed(s),
        accepts_event(s, (EventView::Failed { failure, error })),
    ensures
        copy_step(s, (EventView::Failed { failure, error })).1 == ActionView::RemoveTemp,
        copy_step(s, (EventView::Failed { failure, error })).0.session == s.session,
        copy_step(copy_step(s, (EventView::Failed { failure, error })).0, (EventView::TempRemoved { cancelled })).0.session
            == (SessionView {
            handled: s.session.handled + 1,
            errors: if cancelled {
                s.session.errors
            } else {
                s.session.errors.push(failed_file_message(s.source, failure_prefix(failure) + error))
            },
            ..s.session
        }),
{
}

/// The counters only move forward: files are completed one at a time and
/// only by the rename, handled files and copied bytes never decrease,
/// earlier errors stay, and the run never goes back to an earlier file.
pub proof fn lemma_counters_move_forward(s: RunView, e: EventView)
    requires
        run_well_formed(s),
        accepts_event(s, e),
    ensures
        copy_step(s, e).0.session.completed == s.session.completed + if s.phase == CopyPhase::Renaming
            && e is Renamed {
            1int
        } else {
            0int
        },
        copy_step(s, e).0.session.handled >= s.session.handled,
        copy_step(s, e).0.session.copied_bytes >= s.session.copied_bytes,
        copy_step(s, e).0.session.total_items == s.session.total_items,
        copy_step(s, e).0.session.errors.len() >= s.session.errors.len(),
        copy_step(s, e).0.session.errors.take(s.session.errors.len() as int) == s.session.errors,
        copy_step(s, e).0.index >= s.index,
{
    let t = copy_step(s, e).0;
    if t.session.errors.len() > s.session.errors.len() {
        assert(t.session.errors.take(s.session.errors.len() as int) =~= s.session.errors);
    } else {
        assert(t.session.errors == s.session.errors);
        assert(t.session.errors.take(s.session.errors.len() as int) =~= s.session.errors);
    }
}

/// A file whose temporary file was removed, with no cancellation, does not
/// end the run: whenever a file is left, the next one starts.
pub proof fn lemma_failed_file_moves_to_next(s: RunView)
    requires
        run_well_formed(s),
        s.phase == CopyPhase::Cleaning,
        s.index + 1 < s.session.total_items,
    ensures
        copy_step(s, EventView::TempRemoved { cancelled: false }).1 == ActionView::StartFile(s.index + 1),
        copy_step(s, EventView::TempRemoved { cancelled: false }).0.index == s.index + 1,
        copy_step(s, EventView::TempRemoved { cancelled: false }).0.phase == CopyPhase::StartingFile,
        copy_step(s, EventView::TempRemoved { cancelled: false }).0.session.completed == s.session.completed,
{
}

/// Whether the event reports, as a file starts, that the run was cancelled.
pub open spec fn cancelled_at_start(e: EventView) -> bool {
    e matches EventView::FileStarted { cancelled, .. } && cancelled
}

/// Files start one after another, and unless a cancellation is seen as a
/// file starts, the run concludes only from its last file: a run that is
/// never cancelled starts every one of its files.
pub proof fn lemma_run_visits_every_file(s: RunView, e: EventView)
    requires
        run_well_formed(s),
        accepts_event(s, e),
        !cancelled_at_start(e),
    ensures
        copy_step(s, e).1 is Conclude ==> s.index + 1 == s.session.total_items,
        copy_step(s, e).1 matches ActionView::StartFile(k) ==> k == s.index + 1 && k < s.session.total_items
            && copy_step(s, e).0.index == k,
{
}

/// Once the destination is chosen: a skipped file counts as handled and
/// skipped and is reported as `skipped` (or `cancelled` when the run was
/// cancelled by then), and the run goes on to the next file; a file given
/// a non-empty name `n` is written to `n.<operation>.uploading` first.
pub proof fn lemma_resolved_destination(s: RunView, cancelled: bool, n: Seq<char>)
    requires
        run_well_formed(s),
        s.phase == CopyPhase::Resolving,
        n.len() > 0,
    ensures
        copy_step(s, EventView::Resolved { name: None, cancelled }).0.session == (SessionView {
            handled: s.session.handled + 1,
            skipped: s.session.skipped + 1,
            ..s.session
        }),
        copy_step(s, EventView::Resolved { name: None, cancelled }).1 == (ActionView::ReportSkipped {
            status: if cancelled {
                "cancelled"@
            } else {
                "skipped"@
            },
        }),
        s.index + 1 < s.session.total_items ==> copy_step(
            copy_step(s, EventView::Resolved { name: None, cancelled }).0,
            EventView::Continue,
        ).1 == ActionView::StartFile(s.index + 1),
        copy_step(s, EventView::Resolved { name: Some(n), cancelled }).1 == (ActionView::OpenTemp {
            temp_name: n + "."@ + s.operation_id + ".uploading"@,
        }),
        copy_step(s, EventView::Resolved { name: Some(n), cancelled }).0.session == s.session,
{
}

/// The errors a run records, in the words of the interface: a destination
/// path too long, a parent folder that could not be made, and for a failed
/// file its source, then the step that failed and the system's error.
pub proof fn lemma_run_error_texts(source: Seq<char>, desired: Seq<char>, parent: Seq<char>, error: Seq<char>)
    ensures
        path_too_long_message(desired) == "O caminho de destino é muito longo: "@ + desired,
        parent_failed_message(parent, error) == "Não foi possível criar "@ + parent + ": "@ + error,
        cancelled_copy_message() == "Cópia cancelada."@,
        failed_file_message(source, failure_prefix(CopyFailure::OpenSource) + error) == source + ": "@
            + "Não foi possível abrir a origem: "@ + error,
        failed_file_message(source, failure_prefix(CopyFailure::CreateTemp) + error) == source + ": "@
            + "Não foi possível criar o arquivo temporário: "@ + error,
        failed_file_message(source, failure_prefix(CopyFailure::Read) + error) == source + ": "@
            + "Falha durante a leitura: "@ + error,
        failed_file_message(source, failure_prefix(CopyFailure::Write) + error) == source + ": "@
            + "Falha durante a gravação: "@ + error,
        failed_file_message(source, failure_prefix(CopyFailure::Sync) + error) == source + ": "@
            + "Falha ao finalizar o arquivo: "@ + error,
        failed_file_message(source, failure_prefix(CopyFailure::Replace) + error) == source + ": "@
            + "Não foi possível substituir o arquivo: "@ + error,
        failed_file_message(source, failure_prefix(CopyFailure::Rename) + error) == source + ": "@
            + "Não foi possível concluir o arquivo: "@ + error,
{
    assert(failed_file_message(source, failure_prefix(CopyFailure::OpenSource) + error) =~= source + ": "@
        + "Não foi possível abrir a origem: "@ + error);
    assert(failed_file_message(source, failure_prefix(CopyFailure::CreateTemp) + error) =~= source + ": "@
        + "Não foi possível criar o arquivo temporário: "@ + error);
    assert(failed_file_message(source, failure_prefix(CopyFailure::Read) + error) =~= source + ": "@
        + "Falha durante a leitura: "@ + error);
    assert(failed_file_message(source, failure_prefix(CopyFailure::Write) + error) =~= source + ": "@
        + "Falha durante a gravação: "@ + error);
    assert(failed_file_message(source, failure_prefix(CopyFailure::Sync) + error) =~= source + ": "@
        + "Falha ao finalizar o arquivo: "@ + error);
    assert(failed_file_message(source, failure_prefix(CopyFailure::Replace) + error) =~= source + ": "@
        + "Não foi possível substituir o arquivo: "@ + error);
    assert(failed_file_message(source, failure_prefix(CopyFailure::Rename) + error) =~= source + ": "@
        + "Não foi possível concluir o arquivo: "@ + error);
}

impl CopyRun {
    /// A run over the files counted by `session`, reporting `operation_id`
    /// and `destination`, with paths checked as on Windows where
    /// `on_windows`; and its first action.
    pub fn new(session: CopySession, operation_id: String, destination: String, on_windows: bool) -> (r: (
        CopyRun,
        CopyAction,
    ))
        requires
            session_consistent(session@),
            !session@.stopped,
            session@.handled == 0,
        ensures
            run_well_formed(r.0@),
            (r.0@, r.1@) == first_step(session@, operation_id@, destination@, on_windows),
    {
        let total = session.total_items();
        let mut run = CopyRun {
            session,
            operation_id,
            destination,
            on_windows,
            index: 0,
            phase: CopyPhase::StartingFile,
            source: String::new(),
            pending: String::new(),
            cancelled_at_end: false,
        };
        if total > 0 {
            (run, CopyAction::StartFile(0))
        } else {
            run.phase = CopyPhase::Concluding;
            (run, CopyAction::Conclude)
        }
    }

    /// The counters of the run.
    pub fn session(&self) -> (r: &CopySession)
        ensures
            r@ == self@.session,
    {
        &self.session
    }

    /// The index of the current file.
    pub fn index(&self) -> (r: usize)
        ensures
            r == self@.index,
    {
        self.index
    }

    /// What the run waits for.
    pub fn phase(&self) -> (r: CopyPhase)
        ensures
            r == self@.phase,
    {
        self.phase
    }

    /// Whether the run waits for `event`.
    pub fn accepts(&self, event: &CopyEvent) -> (r: bool)
        ensures
            r == accepts_event(self@, event@),
    {
        match (self.phase, event) {
            (CopyPhase::StartingFile, CopyEvent::FileStarted { .. }) => true,
            (CopyPhase::MakingParent, CopyEvent::ParentReady) => true,
            (CopyPhase::MakingParent, CopyEvent::ParentFailed { .. }) => true,
            (CopyPhase::Resolving, CopyEvent::Resolved { .. }) => true,
            (CopyPhase::ReportingSkip, CopyEvent::Continue) => true,
            (CopyPhase::ReportingDone, CopyEvent::Continue) => true,
            (CopyPhase::Opening, CopyEvent::Opened) => true,
            (CopyPhase::CheckingCancel, CopyEvent::CancelState(_)) => true,
            (CopyPhase::Concluding, CopyEvent::CancelState(_)) => true,
            (CopyPhase::Copying, CopyEvent::BlockCopied(n)) => {
                self.session.copied_bytes() <= u64::MAX - *n
            },
            (CopyPhase::Copying, CopyEvent::SourceEnd) => true,
            (CopyPhase::Syncing, CopyEvent::Synced { .. }) => true,
            (CopyPhase::Replacing, CopyEvent::Removed) => true,
            (CopyPhase::Renaming, CopyEvent::Renamed) => true,
            (CopyPhase::Cleaning, CopyEvent::TempRemoved { .. }) => true,
            (CopyPhase::Opening, CopyEvent::Failed { .. }) => true,
            (CopyPhase::Copying, CopyEvent::Failed { .. }) => true,
            (CopyPhase::Syncing, CopyEvent::Failed { .. }) => true,
            (CopyPhase::Replacing, CopyEvent::Failed { .. }) => true,
            (CopyPhase::Renaming, CopyEvent::Failed { .. }) => true,
            _ => false,
        }
    }

    fn advance(&mut self) -> (action: CopyAction)
        requires
            old(self)@.index < old(self)@.session.total_items,
        ensures
            (final(self)@, action@) == next_file(old(self)@),
    {
        let total = self.session.total_items();
        if self.index + 1 < total {
            self.index = self.index + 1;
            self.phase = CopyPhase::StartingFile;
            CopyAction::StartFile(self.index)
        } else {
            self.phase = CopyPhase::Concluding;
            CopyAction::Conclude
        }
    }

    fn clean_up(&mut self, message: String) -> (action: CopyAction)
        ensures
            (final(self)@, action@) == clean_up(old(self)@, message@),
    {
        self.pending = message;
        self.phase = CopyPhase::Cleaning;
        CopyAction::RemoveTemp
    }

    /// Takes what happened and returns what to do next.
    pub fn step(&mut self, event: CopyEvent) -> (action: CopyAction)
        requires
            run_well_formed(old(self)@),
            accepts_event(old(self)@, event@),
        ensures
            run_well_formed(final(self)@),
            (final(self)@, action@) == copy_step(old(self)@, event@),
            old(self)@.session.stopped ==> !(action is OpenTemp) && !(action is CopyBlock),
            action is SyncTemp ==> old(self)@.phase == CopyPhase::Copying,
            action is RenameTemp ==> old(self)@.phase == CopyPhase::Syncing || old(self)@.phase
                == CopyPhase::Replacing,
            event is Failed ==> action is RemoveTemp,
    {
        let action = match (self.phase, event) {
            (CopyPhase::StartingFile, CopyEvent::FileStarted { cancelled, source, desired }) => {
                if !self.session.begin_file(cancelled) {
                    self.phase = CopyPhase::Concluding;
                    CopyAction::Conclude
                } else if exceeds_safe_path_length(desired.as_str(), self.on_windows) {
                    self.session.add_error(joined("O caminho de destino é muito longo: ", desired.as_str()));
                    self.advance()
                } else {
                    self.source = source;
                    self.phase = CopyPhase::MakingParent;
                    CopyAction::CreateParent
                }
            },
            (CopyPhase::MakingParent, CopyEvent::ParentReady) => {
                self.phase = CopyPhase::Resolving;
                CopyAction::ResolveDestination
            },
            (CopyPhase::MakingParent, CopyEvent::ParentFailed { parent, error }) => {
                let mut message = joined3("Não foi possível criar ", parent.as_str(), ": ");
                message.append(error.as_str());
                self.session.add_error(message);
                self.advance()
            },
            (CopyPhase::Resolving, CopyEvent::Resolved { name, cancelled }) => {
                match name {
                    None => {
                        self.session.skip_file();
                        self.phase = CopyPhase::ReportingSkip;
                        CopyAction::ReportSkipped { status: skipped_file_status(cancelled) }
                    },
                    Some(n) => {
                        self.phase = CopyPhase::Opening;
                        CopyAction::OpenTemp {
                            temp_name: upload_temp_name(n.as_str(), self.operation_id.as_str()),
                        }
                    },
                }
            },
            (CopyPhase::ReportingSkip, CopyEvent::Continue) => self.advance(),
            (CopyPhase::ReportingDone, CopyEvent::Continue) => self.advance(),
            (CopyPhase::Opening, CopyEvent::Opened) => {
                self.phase = CopyPhase::CheckingCancel;
                CopyAction::CheckCancel
            },
            (CopyPhase::CheckingCancel, CopyEvent::CancelState(cancelled)) => {
                if cancelled {
                    self.clean_up(String::from_str("Cópia cancelada."))
                } else {
                    self.phase = CopyPhase::Copying;
                    CopyAction::CopyBlock
                }
            },
            (CopyPhase::Copying, CopyEvent::BlockCopied(n)) => {
                if n == 0 {
                    self.phase = CopyPhase::Syncing;
                    CopyAction::SyncTemp
                } else {
                    self.session.add_copied(n);
                    self.phase = CopyPhase::CheckingCancel;
                    CopyAction::CheckCancel
                }
            },
            (CopyPhase::Copying, CopyEvent::SourceEnd) => {
                self.phase = CopyPhase::Syncing;
                CopyAction::SyncTemp
            },
            (CopyPhase::Syncing, CopyEvent::Synced { destination_exists }) => {
                if destination_exists {
                    self.phase = CopyPhase::Replacing;
                    CopyAction::RemoveExisting
                } else {
                    self.phase = CopyPhase::Renaming;
                    CopyAction::RenameTemp
                }
            },
            (CopyPhase::Replacing, CopyEvent::Removed) => {
                self.phase = CopyPhase::Renaming;
                CopyAction::RenameTemp
            },
            (CopyPhase::Renaming, CopyEvent::Renamed) => {
                self.session.complete_file();
                self.phase = CopyPhase::ReportingDone;
                CopyAction::ReportCompleted
            },
            (_, CopyEvent::Failed { failure, error }) => {
                let message = failure_message(failure, error.as_str());
                self.clean_up(message)
            },
            (CopyPhase::Cleaning, CopyEvent::TempRemoved { cancelled }) => {
                let message = joined3(self.source.as_str(), ": ", self.pending.as_str());
                self.session.fail_file(message, cancelled);
                self.advance()
            },
            (CopyPhase::Concluding, CopyEvent::CancelState(cancelled)) => {
                self.cancelled_at_end = cancelled;
                self.phase = CopyPhase::Finished;
                CopyAction::Finish
            },
            _ => CopyAction::Finish,
        };
        action
    }

    /// The outcome of a finished run.
    pub fn outcome(self) -> (r: CopyOutcome)
        requires
            self@.phase == CopyPhase::Finished,
        ensures
            r.operation_id@ == self@.operation_id,
            r.destination@ == self@.destination,
            r.total_items == self@.session.total_items,
            r.completed_items == self@.session.completed,
            r.skipped_items == self@.session.skipped,
            r.total_bytes == self@.session.total_bytes,
            r.copied_bytes == self@.session.copied_bytes,
            crate::names::texts(r.errors@) == self@.session.errors,
            r.status == copy_status_of(self@.cancelled_at_end, self@.session.errors.len(), self@.session.completed),
            r.completed_items + r.skipped_items <= r.total_items,
    {
        self.session.finish(self.operation_id, self.destination, self.cancelled_at_end)
    }
}

} // verus!
