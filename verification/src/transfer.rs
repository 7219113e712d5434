//! The bookkeeping of a copy run: cancellation requests, answers to
//! duplicate conflicts, what to do with a file whose destination exists,
//! the counters of a run and its final status, and destination checks.

use vstd::prelude::*;
use crate::names::texts;
use crate::text::{chars_of, joined3, same_text, trim, trim_string};
use vstd::hash_map::StringHashMap;
use vstd::hash_set::StringHashSet;

verus! {

/// Operations whose cancellation was requested.
pub struct CancelRegistry {
    ids: StringHashSet,
}

impl View for CancelRegistry {
    type V = Set<Seq<char>>;

    closed spec fn view(&self) -> Set<Seq<char>> {
        self.ids@
    }
}

impl CancelRegistry {
    pub fn new() -> (r: Self)
        ensures
            r@ == Set::<Seq<char>>::empty(),
    {
        CancelRegistry { ids: StringHashSet::new() }
    }

    /// Whether cancelling `id` was requested.
    pub fn contains(&self, id: &str) -> (r: bool)
        ensures
            r == self@.contains(id@),
    {
        self.ids.contains(id)
    }

    /// Records a cancellation request for `id`.
    pub fn insert(&mut self, id: String)
        ensures
            final(self)@ == old(self)@.insert(id@),
    {
        let _ = self.ids.insert(id);
    }

    /// Forgets the request for `id`.
    pub fn remove(&mut self, id: &str)
        ensures
            final(self)@ == old(self)@.remove(id@),
    {
        let _ = self.ids.remove(id);
    }
}

/// Whether the operation `operation_id` is cancelled: when the registry
/// cannot be read (`None`, a poisoned lock), the operation counts as
/// cancelled.
pub fn is_cancelled(operation_id: &str, registry: Option<&CancelRegistry>) -> (r: bool)
    ensures
        r == match registry {
            Some(reg) => reg@.contains(operation_id@),
            None => true,
        },
{
    match registry {
        Some(reg) => reg.contains(operation_id),
        None => true,
    }
}

} // verus!

verus! {

/// Answers given to duplicate conflicts, by conflict id; each id has at most
/// one pending answer.
pub struct AnswerBoard {
    answers: StringHashMap<String>,
}

impl View for AnswerBoard {
    type V = Map<Seq<char>, Seq<char>>;

    closed spec fn view(&self) -> Map<Seq<char>, Seq<char>> {
        self.answers@.map_values(|a: String| a@)
    }
}

impl AnswerBoard {
    pub fn new() -> (r: Self)
        ensures
            r@ == Map::<Seq<char>, Seq<char>>::empty(),
    {
        let r = AnswerBoard { answers: StringHashMap::new() };
        assert(r@ =~= Map::<Seq<char>, Seq<char>>::empty());
        r
    }

    /// Records `answer` for `conflict_id`, replacing an earlier one.
    pub fn insert(&mut self, conflict_id: String, answer: String)
        ensures
            final(self)@ == old(self)@.insert(conflict_id@, answer@),
    {
        let ghost before = self@;
        let ghost key = conflict_id@;
        let ghost value = answer@;
        self.answers.insert(conflict_id, answer);
        assert(self@ =~= before.insert(key, value));
    }

    /// Takes the pending answer for `conflict_id`, if any.
    pub fn take(&mut self, conflict_id: &String) -> (r: Option<String>)
        ensures
            final(self)@ == old(self)@.remove(conflict_id@),
            match r {
                Some(a) => old(self)@.contains_key(conflict_id@) && a@ == old(self)@[conflict_id@],
                None => !old(self)@.contains_key(conflict_id@),
            },
    {
        let ghost before = self@;
        let found = match self.answers.get(conflict_id.as_str()) {
            Some(a) => Some(a.clone()),
            None => None,
        };
        self.answers.remove(conflict_id.as_str());
        assert(self@ =~= before.remove(conflict_id@));
        found
    }
}

} // verus!

verus! {

/// An answer the user may give to a duplicate conflict.
#[derive(Clone, Copy, Debug, PartialEq, Eq, Structural)]
pub enum ConflictAction {
    Rename,
    Replace,
    Skip,
    Cancel,
}

/// The answer named by `s`, if it names one.
pub open spec fn conflict_action_of(s: Seq<char>) -> Option<ConflictAction> {
    if s == "rename"@ {
        Some(ConflictAction::Rename)
    } else if s == "replace"@ {
        Some(ConflictAction::Replace)
    } else if s == "skip"@ {
        Some(ConflictAction::Skip)
    } else if s == "cancel"@ {
        Some(ConflictAction::Cancel)
    } else {
        None
    }
}

/// Exactly the four answers `rename`, `replace`, `skip` and `cancel` are
/// read, each as its own action; any other text is refused.
pub proof fn lemma_conflict_answers(s: Seq<char>)
    ensures
        (conflict_action_of(s) == Some(ConflictAction::Rename)) <==> s == "rename"@,
        (conflict_action_of(s) == Some(ConflictAction::Replace)) <==> s == "replace"@,
        (conflict_action_of(s) == Some(ConflictAction::Skip)) <==> s == "skip"@,
        (conflict_action_of(s) == Some(ConflictAction::Cancel)) <==> s == "cancel"@,
        conflict_action_of(s) is None <==> !(s == "rename"@ || s == "replace"@ || s == "skip"@ || s
            == "cancel"@),
{
    reveal_strlit("rename");
    reveal_strlit("replace");
    reveal_strlit("skip");
    reveal_strlit("cancel");
    assert("rename"@.len() == 6 && "replace"@.len() == 7 && "skip"@.len() == 4 && "cancel"@.len() == 6);
    assert("rename"@[0] != "cancel"@[0]);
}

/// Reads an answer to a conflict.
pub fn parse_conflict_action(s: &str) -> (r: Option<ConflictAction>)
    ensures
        r == conflict_action_of(s@),
{
    let v = String::from_str(s);
    if same_text(&v, &String::from_str("rename")) {
        Some(ConflictAction::Rename)
    } else if same_text(&v, &String::from_str("replace")) {
        Some(ConflictAction::Replace)
    } else if same_text(&v, &String::from_str("skip")) {
        Some(ConflictAction::Skip)
    } else if same_text(&v, &String::from_str("cancel")) {
        Some(ConflictAction::Cancel)
    } else {
        None
    }
}

pub open spec fn invalid_action_message() -> Seq<char> {
    "Ação de conflito inválida."@
}

/// Records the user's answer to a conflict when it is one of the known
/// answers; else refuses it and leaves the board as it was.
pub fn resolve_duplicate(board: &mut AnswerBoard, conflict_id: String, action: String) -> (r: Result<(), String>)
    ensures
        conflict_action_of(action@) is Some ==> r is Ok && final(board)@ == old(board)@.insert(
            conflict_id@,
            action@,
        ),
        conflict_action_of(action@) is None ==> (r matches Err(m) && m@ == invalid_action_message())
            && final(board)@ == old(board)@,
{
    match parse_conflict_action(action.as_str()) {
        None => Err(String::from_str("Ação de conflito inválida.")),
        Some(_) => {
            board.insert(conflict_id, action);
            Ok(())
        },
    }
}

/// What to do with a file whose destination is decided.
#[derive(Clone, Copy, Debug, PartialEq, Eq, Structural)]
pub enum DestinationChoice {
    /// Write to the desired path (it is free, or is replaced).
    UseDesired,
    /// Do not copy the file.
    Skip,
    /// Ask the user, then decide from the answer.
    Ask,
    /// Write to the first free duplicate name.
    Rename,
}

/// The decision for a desired destination, by whether it exists and by
/// the requested behaviour (`replace`, `skip`, `ask`; anything else
/// renames).
pub open spec fn destination_choice_of(exists: bool, behavior: Seq<char>) -> DestinationChoice {
    if !exists {
        DestinationChoice::UseDesired
    } else if behavior == "replace"@ {
        DestinationChoice::UseDesired
    } else if behavior == "skip"@ {
        DestinationChoice::Skip
    } else if behavior == "ask"@ {
        DestinationChoice::Ask
    } else {
        DestinationChoice::Rename
    }
}

/// The decision after asking: `replace` keeps the desired path, `skip` and
/// `cancel` skip the file, anything else renames.
pub open spec fn answered_choice_of(answer: Seq<char>) -> DestinationChoice {
    if answer == "replace"@ {
        DestinationChoice::UseDesired
    } else if answer == "skip"@ || answer == "cancel"@ {
        DestinationChoice::Skip
    } else {
        DestinationChoice::Rename
    }
}

/// Decides what to do with a file whose desired destination does or does
/// not exist, under the requested duplicate behaviour.
pub fn destination_choice(exists: bool, behavior: &str) -> (r: DestinationChoice)
    ensures
        r == destination_choice_of(exists, behavior@),
{
    if !exists {
        return DestinationChoice::UseDesired;
    }
    let b = String::from_str(behavior);
    if same_text(&b, &String::from_str("replace")) {
        DestinationChoice::UseDesired
    } else if same_text(&b, &String::from_str("skip")) {
        DestinationChoice::Skip
    } else if same_text(&b, &String::from_str("ask")) {
        DestinationChoice::Ask
    } else {
        DestinationChoice::Rename
    }
}

/// Decides from the user's answer to a conflict.
pub fn answered_choice(answer: &str) -> (r: DestinationChoice)
    ensures
        r == answered_choice_of(answer@),
{
    let a = String::from_str(answer);
    if same_text(&a, &String::from_str("replace")) {
        DestinationChoice::UseDesired
    } else if same_text(&a, &String::from_str("skip")) || same_text(&a, &String::from_str("cancel")) {
        DestinationChoice::Skip
    } else {
        DestinationChoice::Rename
    }
}

/// While waiting for an answer: a cancelled run answers `cancel`; otherwise
/// a pending answer is used; otherwise keep waiting (`None`).
pub fn poll_duplicate_answer(cancelled: bool, pending: Option<String>) -> (r: Option<String>)
    ensures
        cancelled ==> (r matches Some(a) && a@ == "cancel"@),
        !cancelled ==> r == pending,
{
    if cancelled {
        Some(String::from_str("cancel"))
    } else {
        pending
    }
}

/// The name of the partial file written before the final rename:
/// `"{name}.{operation}.uploading"`, with `arquivo` for a destination
/// without a name (empty `file_name`).
pub open spec fn upload_temp_name_of(file_name: Seq<char>, operation_id: Seq<char>) -> Seq<char> {
    (if file_name.len() == 0 { "arquivo"@ } else { file_name }) + "."@ + operation_id + ".uploading"@
}

pub fn upload_temp_name(file_name: &str, operation_id: &str) -> (r: String)
    ensures
        r@ == upload_temp_name_of(file_name@, operation_id@),
{
    let name_chars = chars_of(file_name);
    let base = if name_chars.len() == 0 { String::from_str("arquivo") } else { String::from_str(file_name) };
    let mut r = joined3(base.as_str(), ".", operation_id);
    r.append(".uploading");
    r
}

/// The final status of a run.
#[derive(Clone, Copy, Debug, PartialEq, Eq, Structural)]
pub enum CopyStatus {
    Cancelled,
    Completed,
    CompletedWithErrors,
    Error,
}

impl CopyStatus {
    /// The name used on the wire (`cancelled`, `completed`,
    /// `completed_with_errors`, `error`).
    pub fn as_text(&self) -> (r: String)
        ensures
            r@ == copy_status_text(*self),
    {
        match self {
            CopyStatus::Cancelled => String::from_str("cancelled"),
            CopyStatus::Completed => String::from_str("completed"),
            CopyStatus::CompletedWithErrors => String::from_str("completed_with_errors"),
            CopyStatus::Error => String::from_str("error"),
        }
    }
}

pub open spec fn copy_status_text(s: CopyStatus) -> Seq<char> {
    match s {
        CopyStatus::Cancelled => "cancelled"@,
        CopyStatus::Completed => "completed"@,
        CopyStatus::CompletedWithErrors => "completed_with_errors"@,
        CopyStatus::Error => "error"@,
    }
}

/// The status of a run: cancelled wins; else completed without errors;
/// else completed with errors when some file was copied; else error.
pub open spec fn copy_status_of(cancelled: bool, error_count: nat, completed: nat) -> CopyStatus {
    if cancelled {
        CopyStatus::Cancelled
    } else if error_count == 0 {
        CopyStatus::Completed
    } else if completed > 0 {
        CopyStatus::CompletedWithErrors
    } else {
        CopyStatus::Error
    }
}

/// The status shown for a file that was not copied: `cancelled` when the
/// run was cancelled, else `skipped`.
pub fn skipped_file_status(cancelled: bool) -> (r: String)
    ensures
        r@ == if cancelled { "cancelled"@ } else { "skipped"@ },
{
    if cancelled {
        String::from_str("cancelled")
    } else {
        String::from_str("skipped")
    }
}

/// The outcome reported at the end of a run.
#[derive(Debug)]
pub struct CopyOutcome {
    pub operation_id: String,
    pub destination: String,
    pub total_items: usize,
    pub completed_items: usize,
    pub skipped_items: usize,
    pub total_bytes: u64,
    pub copied_bytes: u64,
    pub status: CopyStatus,
    pub errors: Vec<String>,
}

/// The counters of a copy run. Each file of the run is handled once: it is
/// skipped, completed or failed.
pub struct CopySession {
    total_items: usize,
    total_bytes: u64,
    handled: usize,
    completed: usize,
    skipped: usize,
    copied_bytes: u64,
    errors: Vec<String>,
    stopped: bool,
}

/// The mathematical value of a [`CopySession`].
pub struct SessionView {
    pub total_items: nat,
    pub total_bytes: nat,
    pub handled: nat,
    pub completed: nat,
    pub skipped: nat,
    pub copied_bytes: nat,
    pub errors: Seq<Seq<char>>,
    pub stopped: bool,
}

impl View for CopySession {
    type V = SessionView;

    closed spec fn view(&self) -> SessionView {
        SessionView {
            total_items: self.total_items as nat,
            total_bytes: self.total_bytes as nat,
            handled: self.handled as nat,
            completed: self.completed as nat,
            skipped: self.skipped as nat,
            copied_bytes: self.copied_bytes as nat,
            errors: texts(self.errors@),
            stopped: self.stopped,
        }
    }
}

/// Every file handled once at most, and completed or skipped files among
/// the handled ones.
pub open spec fn session_consistent(s: SessionView) -> bool {
    s.completed + s.skipped <= s.handled <= s.total_items
}

impl CopySession {
    #[verifier::type_invariant]
    spec fn counters_consistent(self) -> bool {
        self.completed + self.skipped <= self.handled <= self.total_items
    }

    /// A run over `total_items` files of `total_bytes` bytes in all, with the
    /// errors already met while preparing the folders.
    pub fn new(total_items: usize, total_bytes: u64, errors: Vec<String>) -> (r: Self)
        ensures
            r@.total_items == total_items,
            r@.total_bytes == total_bytes,
            r@.handled == 0 && r@.completed == 0 && r@.skipped == 0 && r@.copied_bytes == 0,
            r@.errors == texts(errors@),
            !r@.stopped,
            session_consistent(r@),
    {
        CopySession {
            total_items,
            total_bytes,
            handled: 0,
            completed: 0,
            skipped: 0,
            copied_bytes: 0,
            errors,
            stopped: false,
        }
    }

    /// Whether the run stopped because it was cancelled.
    pub fn is_stopped(&self) -> (r: bool)
        ensures
            r == self@.stopped,
    {
        self.stopped
    }

    /// Decides whether the next file may start: not when the run was
    /// cancelled, and then the run is stopped, so that no file is handled
    /// any more.
    pub fn begin_file(&mut self, cancelled: bool) -> (go: bool)
        requires
            !old(self)@.stopped,
        ensures
            go == !cancelled,
            final(self)@ == (SessionView { stopped: cancelled, ..old(self)@ }),
    {
        proof {
            use_type_invariant(&*self);
        }
        if cancelled {
            self.stopped = true;
        }
        !cancelled
    }

    /// How many files were skipped, completed or failed so far.
    pub fn handled_items(&self) -> (r: usize)
        ensures
            r == self@.handled,
            session_consistent(self@),
    {
        proof {
            use_type_invariant(self);
        }
        self.handled
    }

    pub fn completed_items(&self) -> (r: usize)
        ensures
            r == self@.completed,
    {
        self.completed
    }

    pub fn skipped_items(&self) -> (r: usize)
        ensures
            r == self@.skipped,
    {
        self.skipped
    }

    pub fn copied_bytes(&self) -> (r: u64)
        ensures
            r == self@.copied_bytes,
    {
        self.copied_bytes
    }

    pub fn total_items(&self) -> (r: usize)
        ensures
            r == self@.total_items,
    {
        self.total_items
    }

    pub fn total_bytes(&self) -> (r: u64)
        ensures
            r == self@.total_bytes,
    {
        self.total_bytes
    }

    /// Records an error that concerns no single file of the run (a folder
    /// that could not be made, a path too long).
    pub fn add_error(&mut self, message: String)
        ensures
            final(self)@ == (SessionView { errors: old(self)@.errors.push(message@), ..old(self)@ }),
    {
        proof {
            use_type_invariant(&*self);
        }
        let ghost before = self@;
        let mut errors: Vec<String> = Vec::new();
        std::mem::swap(&mut errors, &mut self.errors);
        errors.push(message);
        self.errors = errors;
        assert(self@.errors =~= before.errors.push(message@));
    }

    /// Records that a file was skipped.
    pub fn skip_file(&mut self)
        requires
            !old(self)@.stopped,
            old(self)@.handled < old(self)@.total_items,
        ensures
            session_consistent(final(self)@),
            final(self)@ == (SessionView {
                handled: old(self)@.handled + 1,
                skipped: old(self)@.skipped + 1,
                ..old(self)@
            }),
    {
        proof {
            use_type_invariant(&*self);
        }
        self.handled = self.handled + 1;
        self.skipped = self.skipped + 1;
    }

    /// Records that a file was copied completely.
    pub fn complete_file(&mut self)
        requires
            !old(self)@.stopped,
            old(self)@.handled < old(self)@.total_items,
        ensures
            session_consistent(final(self)@),
            final(self)@ == (SessionView {
                handled: old(self)@.handled + 1,
                completed: old(self)@.completed + 1,
                ..old(self)@
            }),
    {
        proof {
            use_type_invariant(&*self);
        }
        self.handled = self.handled + 1;
        self.completed = self.completed + 1;
    }

    /// Records that copying a file failed with `message`; the failure is
    /// reported only when the run was not cancelled, so a copy interrupted
    /// by a cancellation leaves no error behind.
    pub fn fail_file(&mut self, message: String, cancelled: bool)
        requires
            !old(self)@.stopped,
            old(self)@.handled < old(self)@.total_items,
        ensures
            session_consistent(final(self)@),
            final(self)@ == (SessionView {
                handled: old(self)@.handled + 1,
                errors: if cancelled {
                    old(self)@.errors
                } else {
                    old(self)@.errors.push(message@)
                },
                ..old(self)@
            }),
    {
        proof {
            use_type_invariant(&*self);
        }
        self.handled = self.handled + 1;
        if !cancelled {
            let ghost before = texts(self.errors@);
            let ghost mv = message@;
            let mut errors: Vec<String> = Vec::new();
            std::mem::swap(&mut errors, &mut self.errors);
            errors.push(message);
            self.errors = errors;
            assert(texts(self.errors@) =~= before.push(mv));
        }
    }

    /// Adds `n` bytes to the bytes copied.
    pub fn add_copied(&mut self, n: u64)
        requires
            old(self)@.copied_bytes + n <= u64::MAX,
        ensures
            final(self)@ == (SessionView { copied_bytes: (old(self)@.copied_bytes + n) as nat, ..old(self)@ }),
    {
        proof {
            use_type_invariant(&*self);
        }
        self.copied_bytes = self.copied_bytes + n;
    }

    /// The outcome of the run into `destination`, cancelled or not.
    pub fn finish(self, operation_id: String, destination: String, cancelled: bool) -> (r: CopyOutcome)
        ensures
            r.operation_id == operation_id,
            r.destination == destination,
            r.total_items == self@.total_items,
            r.completed_items == self@.completed,
            r.skipped_items == self@.skipped,
            r.total_bytes == self@.total_bytes,
            r.copied_bytes == self@.copied_bytes,
            texts(r.errors@) == self@.errors,
            r.status == copy_status_of(cancelled, self@.errors.len(), self@.completed),
            r.completed_items + r.skipped_items <= r.total_items,
    {
        proof {
            use_type_invariant(&self);
        }
        let status = if cancelled {
            CopyStatus::Cancelled
        } else if self.errors.len() == 0 {
            CopyStatus::Completed
        } else if self.completed > 0 {
            CopyStatus::CompletedWithErrors
        } else {
            CopyStatus::Error
        };
        CopyOutcome {
            operation_id,
            destination,
            total_items: self.total_items,
            completed_items: self.completed,
            skipped_items: self.skipped,
            total_bytes: self.total_bytes,
            copied_bytes: self.copied_bytes,
            status,
            errors: self.errors,
        }
    }
}

} // verus!

verus! {

/// The sum of a list of sizes, as a number.
pub open spec fn sum_sizes(s: Seq<u64>) -> nat
    decreases s.len(),
{
    if s.len() == 0 {
        0
    } else {
        sum_sizes(s.drop_last()) + (s.last() as nat)
    }
}

proof fn lemma_sum_sizes_prefix_monotone(s: Seq<u64>, i: int)
    requires
        0 <= i <= s.len(),
    ensures
        sum_sizes(s.take(i)) <= sum_sizes(s),
    decreases s.len() - i,
{
    if i < s.len() {
        lemma_sum_sizes_prefix_monotone(s, i + 1);
        assert(s.take(i + 1).drop_last() =~= s.take(i));
    } else {
        assert(s.take(i) =~= s);
    }
}

/// The total of the sizes, or `None` when it does not fit in 64 bits.
pub fn total_size(sizes: &Vec<u64>) -> (r: Option<u64>)
    ensures
        match r {
            Some(t) => t == sum_sizes(sizes@),
            None => sum_sizes(sizes@) > u64::MAX,
        },
{
    let mut total: u64 = 0;
    let mut i: usize = 0;
    while i < sizes.len()
        invariant
            i <= sizes@.len(),
            total == sum_sizes(sizes@.take(i as int)),
        decreases sizes@.len() - i,
    {
        assert(sizes@.take(i + 1).drop_last() =~= sizes@.take(i as int));
        match total.checked_add(sizes[i]) {
            Some(t) => total = t,
            None => {
                proof { lemma_sum_sizes_prefix_monotone(sizes@, i + 1); }
                return None;
            },
        }
        i = i + 1;
    }
    assert(sizes@.take(sizes@.len() as int) =~= sizes@);
    Some(total)
}

pub open spec fn no_space_message() -> Seq<char> {
    "Não há espaço disponível suficiente no destino."@
}

/// Whether a copy of `total_bytes` may start given the free space
/// reported (`None` when it could not be read, which does not stop it).
pub fn check_space(available: Option<u64>, total_bytes: u64) -> (r: Result<(), String>)
    ensures
        r is Err <==> (available matches Some(a) && a < total_bytes),
        r matches Err(m) ==> m@ == no_space_message(),
{
    match available {
        Some(a) => if a < total_bytes {
            Err(String::from_str("Não há espaço disponível suficiente no destino."))
        } else {
            Ok(())
        },
        None => Ok(()),
    }
}

/// A copy request as received from the interface.
pub struct CopyRequest {
    pub operation_id: String,
    pub sources: Vec<String>,
    pub allowed_root: String,
    pub destination: String,
    pub duplicate_behavior: String,
}

pub open spec fn no_sources_message() -> Seq<char> {
    "Selecione ao menos um arquivo ou pasta."@
}

pub open spec fn no_operation_id_message() -> Seq<char> {
    "A operação não possui um identificador válido."@
}

/// Checks a copy request before the run: some source, and an operation id
/// that is not blank.
pub fn check_copy_request(request: &CopyRequest) -> (r: Result<(), String>)
    ensures
        request.sources@.len() == 0 ==> (r matches Err(m) && m@ == no_sources_message()),
        request.sources@.len() > 0 && trim(request.operation_id@).len() == 0 ==> (r matches Err(m)
            && m@ == no_operation_id_message()),
        request.sources@.len() > 0 && trim(request.operation_id@).len() > 0 ==> r is Ok,
{
    if request.sources.len() == 0 {
        return Err(String::from_str("Selecione ao menos um arquivo ou pasta."));
    }
    let trimmed = trim_string(request.operation_id.as_str());
    let chars = chars_of(trimmed.as_str());
    if chars.len() == 0 {
        return Err(String::from_str("A operação não possui um identificador válido."));
    }
    Ok(())
}

/// The outcome of checking a destination folder.
#[derive(Debug)]
pub struct DestinationValidation {
    pub valid: bool,
    pub exists: bool,
    pub writable: bool,
    pub free_bytes: Option<u64>,
    pub message: String,
}

pub open spec fn missing_destination_message() -> Seq<char> {
    "A pasta de destino não foi encontrada."@
}

pub open spec fn ready_message() -> Seq<char> {
    "Destino pronto para receber arquivos."@
}

pub open spec fn read_only_message() -> Seq<char> {
    "A pasta existe, mas não permite gravação."@
}

/// The verdict on a destination that can be given before trying to write
/// in it: a missing folder, or too little free space. `None` when a write
/// probe is needed.
pub fn validation_before_probe(is_dir: bool, free_bytes: Option<u64>, required_bytes: u64) -> (r:
    Option<DestinationValidation>)
    ensures
        !is_dir ==> (r matches Some(v) && !v.valid && !v.exists && !v.writable && v.free_bytes is None
            && v.message@ == missing_destination_message()),
        is_dir && (free_bytes matches Some(a) && a < required_bytes) ==> (r matches Some(v) && !v.valid
            && v.exists && v.writable && v.free_bytes == free_bytes && v.message@ == no_space_message()),
        is_dir && !(free_bytes matches Some(a) && a < required_bytes) ==> r is None,
{
    if !is_dir {
        return Some(
            DestinationValidation {
                valid: false,
                exists: false,
                writable: false,
                free_bytes: None,
                message: String::from_str("A pasta de destino não foi encontrada."),
            },
        );
    }
    match free_bytes {
        Some(a) => if a < required_bytes {
            return Some(
                DestinationValidation {
                    valid: false,
                    exists: true,
                    writable: true,
                    free_bytes,
                    message: String::from_str("Não há espaço disponível suficiente no destino."),
                },
            );
        },
        None => {},
    }
    None
}

/// The verdict on an existing destination with enough space, once a write
/// probe told whether it is writable.
pub fn validation_after_probe(free_bytes: Option<u64>, writable: bool) -> (r: DestinationValidation)
    ensures
        r.valid == writable,
        r.exists,
        r.writable == writable,
        r.free_bytes == free_bytes,
        r.message@ == if writable { ready_message() } else { read_only_message() },
{
    DestinationValidation {
        valid: writable,
        exists: true,
        writable,
        free_bytes,
        message: if writable {
            String::from_str("Destino pronto para receber arquivos.")
        } else {
            String::from_str("A pasta existe, mas não permite gravação.")
        },
    }
}

/// The name of the file written to probe a destination:
/// `.packdrive-{token}.tmp`.
pub fn probe_file_name(token: &str) -> (r: String)
    ensures
        r@ == ".packdrive-"@ + token@ + ".tmp"@,
{
    joined3(".packdrive-", token, ".tmp")
}

/// What a selected path looks like to the interface.
#[derive(Debug)]
pub struct PathItem {
    pub path: String,
    pub name: String,
    pub is_dir: bool,
    pub exists: bool,
    pub size: u64,
    pub error: Option<String>,
}

/// Metadata read for a selected path: whether it is a folder, its length,
/// and, for a folder, the sizes of the files found under it.
pub struct PathMetadata {
    pub is_dir: bool,
    pub len: u64,
    pub file_sizes: Vec<u64>,
}

/// The description of a selected path `value` whose file name is
/// `file_name` (when it has one), given its metadata or the error reading
/// it. A folder's size is the total of its files (`None` when that total
/// does not fit in 64 bits); a file's is its length.
pub fn inspect_path_item(value: String, file_name: Option<String>, metadata: Result<PathMetadata, String>) -> (r:
    Option<PathItem>)
    ensures
        match metadata {
            Err(e) => r matches Some(item) && item.path == value && !item.is_dir && !item.exists
                && item.size == 0 && item.error == Some(e) && item.name@ == match file_name {
                Some(n) => n@,
                None => value@,
            },
            Ok(m) => if m.is_dir && sum_sizes(m.file_sizes@) > u64::MAX {
                r is None
            } else {
                r matches Some(item) && item.path == value && item.is_dir == m.is_dir && item.exists
                    && item.error is None && item.size == (if m.is_dir {
                    sum_sizes(m.file_sizes@)
                } else {
                    m.len as nat
                }) && item.name@ == match file_name {
                    Some(n) => n@,
                    None => value@,
                }
            },
        },
{
    let name = match file_name {
        Some(n) => n,
        None => value.clone(),
    };
    match metadata {
        Err(e) => Some(
            PathItem { path: value, name, is_dir: false, exists: false, size: 0, error: Some(e) },
        ),
        Ok(m) => {
            let size = if m.is_dir {
                match total_size(&m.file_sizes) {
                    Some(t) => t,
                    None => return None,
                }
            } else {
                m.len
            };
            Some(PathItem { path: value, name, is_dir: m.is_dir, exists: true, size, error: None })
        },
    }
}

} // verus!

verus! {

/// An answer recorded for a conflict is what the next take returns, and a
/// second take finds nothing.
pub proof fn lemma_answer_taken_once(m: Map<Seq<char>, Seq<char>>, id: Seq<char>, answer: Seq<char>)
    ensures
        m.insert(id, answer).contains_key(id),
        m.insert(id, answer)[id] == answer,
        !m.insert(id, answer).remove(id).contains_key(id),
{
}

/// A run ends `completed` exactly when it was not cancelled and met no
/// error; `error` only when nothing was copied; a cancelled run always ends
/// `cancelled`.
pub proof fn lemma_copy_status_rules(cancelled: bool, error_count: nat, completed: nat)
    ensures
        (copy_status_of(cancelled, error_count, completed) == CopyStatus::Completed) <==> (!cancelled
            && error_count == 0),
        copy_status_of(cancelled, error_count, completed) == CopyStatus::Error ==> completed == 0,
        cancelled ==> copy_status_of(cancelled, error_count, completed) == CopyStatus::Cancelled,
{
}

} // verus!
