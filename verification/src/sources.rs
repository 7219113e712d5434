//! What a copy takes from the selected sources, once the file system was
//! read: the files to copy, each with its path below the destination and
//! in the order met, and the folders to recreate so that a copied folder
//! keeps its structure.

use vstd::prelude::*;
use crate::names::texts;
use crate::paths::{copy_relative_path, exceeds_safe_path_length};
use crate::text::{joined, joined3, utf16_len};

verus! {

/// What the file system says a selected source is.
#[derive(Clone, Copy, Debug, PartialEq, Eq, Structural)]
pub enum SourceKind {
    File,
    Folder,
    Other,
}

/// An entry met while walking a selected folder.
pub struct FolderEntry {
    /// Whether it is a regular file.
    pub is_file: bool,
    /// Its path below the selected folder, component by component; `None`
    /// when it could not be taken apart.
    pub inside: Option<Vec<String>>,
    /// Its size in bytes (0 when it could not be read).
    pub size: u64,
}

/// A selected source as read from the file system.
pub struct SourceScan {
    /// Its path as text, for messages.
    pub text: String,
    /// What it is, or the system's error when it could not be read.
    pub kind: Result<SourceKind, String>,
    /// Its last component, when it has one.
    pub name: Option<String>,
    /// Its size in bytes, for a file.
    pub size: u64,
    /// For a folder, the entries of its walk in order, or the error met.
    pub entries: Vec<Result<FolderEntry, String>>,
}

/// A file to copy: the source it comes from, the entry of that source's
/// walk (for a folder), its path below the destination, and its size.
#[derive(Debug, PartialEq, Eq)]
pub struct PlannedFile {
    pub source: usize,
    pub entry: Option<usize>,
    pub relative: Vec<String>,
    pub size: u64,
}

/// The mathematical value of a [`PlannedFile`].
pub struct PlannedView {
    pub source: nat,
    pub entry: Option<nat>,
    pub relative: Seq<Seq<char>>,
    pub size: nat,
}

pub open spec fn planned_view(p: PlannedFile) -> PlannedView {
    PlannedView {
        source: p.source as nat,
        entry: match p.entry {
            Some(j) => Some(j as nat),
            None => None,
        },
        relative: texts(p.relative@),
        size: p.size as nat,
    }
}

pub open spec fn planned_views(ps: Seq<PlannedFile>) -> Seq<PlannedView> {
    ps.map_values(|p: PlannedFile| planned_view(p))
}

pub open spec fn unavailable_source_message(text: Seq<char>, error: Seq<char>) -> Seq<char> {
    "A origem "@ + text + " não está disponível: "@ + error
}

pub open spec fn unnamed_file_message() -> Seq<char> {
    "Um arquivo selecionado não possui nome válido."@
}

pub open spec fn unnamed_folder_message() -> Seq<char> {
    "Uma pasta selecionada não possui nome válido."@
}

pub open spec fn walk_failed_message(error: Seq<char>) -> Seq<char> {
    "Falha ao ler a pasta: "@ + error
}

pub open spec fn structure_lost_message() -> Seq<char> {
    "Falha ao preservar a estrutura da pasta."@
}

/// `done` followed by what comes after it, unless that failed.
pub open spec fn after(done: Seq<PlannedView>, rest: Result<Seq<PlannedView>, Seq<char>>) -> Result<
    Seq<PlannedView>,
    Seq<char>,
> {
    match rest {
        Ok(more) => Ok(done + more),
        Err(m) => Err(m),
    }
}

/// The files of a folder's walk from entry `j` on: each regular file in
/// turn, under the folder's name; the first entry that could not be read,
/// or a file whose path could not be taken apart, stops everything.
pub open spec fn entries_plan_from(source: nat, folder: Seq<char>, es: Seq<Result<FolderEntry, String>>, j: int) -> Result<
    Seq<PlannedView>,
    Seq<char>,
>
    decreases es.len() - j,
{
    if j < 0 || j >= es.len() {
        Ok(Seq::empty())
    } else {
        match es[j] {
            Err(e) => Err(walk_failed_message(e@)),
            Ok(entry) => if !entry.is_file {
                entries_plan_from(source, folder, es, j + 1)
            } else {
                match entry.inside {
                    None => Err(structure_lost_message()),
                    Some(inside) => after(
                        seq![PlannedView {
                            source,
                            entry: Some(j as nat),
                            relative: seq![folder] + texts(inside@),
                            size: entry.size as nat,
                        }],
                        entries_plan_from(source, folder, es, j + 1),
                    ),
                }
            },
        }
    }
}

/// The files that source `i` gives: an unreadable source, or a selected
/// file or folder without a name, is an error; a file is copied under its
/// name; a folder gives the files of its walk; anything else gives none.
pub open spec fn source_plan(i: nat, scan: SourceScan) -> Result<Seq<PlannedView>, Seq<char>> {
    match scan.kind {
        Err(e) => Err(unavailable_source_message(scan.text@, e@)),
        Ok(SourceKind::File) => match scan.name {
            None => Err(unnamed_file_message()),
            Some(n) => Ok(
                seq![PlannedView { source: i, entry: None, relative: seq![n@], size: scan.size as nat }],
            ),
        },
        Ok(SourceKind::Folder) => match scan.name {
            None => Err(unnamed_folder_message()),
            Some(n) => entries_plan_from(i, n@, scan.entries@, 0),
        },
        Ok(SourceKind::Other) => Ok(Seq::empty()),
    }
}

/// The files of the sources from `i` on, in order; the first error stops
/// everything.
pub open spec fn files_plan_from(scans: Seq<SourceScan>, i: int) -> Result<Seq<PlannedView>, Seq<char>>
    decreases scans.len() - i,
{
    if i < 0 || i >= scans.len() {
        Ok(Seq::empty())
    } else {
        match source_plan(i as nat, scans[i]) {
            Err(m) => Err(m),
            Ok(files) => after(files, files_plan_from(scans, i + 1)),
        }
    }
}

/// The files a copy of the selected sources takes, or why it cannot start.
pub open spec fn copy_plan(scans: Seq<SourceScan>) -> Result<Seq<PlannedView>, Seq<char>> {
    files_plan_from(scans, 0)
}

/// File `p` of a folder's plan comes from entry `lo` or a later one of the
/// walk `es`: a readable regular file, placed under the folder's name
/// followed by its path inside the folder, with its size.
pub open spec fn placed_from_entry(source: nat, folder: Seq<char>, es: Seq<Result<FolderEntry, String>>, lo: int, p: PlannedView) -> bool {
    &&& p.source == source
    &&& p.entry matches Some(j)
    &&& lo <= j < es.len()
    &&& es[j as int] matches Ok(e)
    &&& e.is_file
    &&& e.inside matches Some(inside)
    &&& p.relative == seq![folder] + texts(inside@)
    &&& p.size == e.size
}

/// File `p` of a copy's plan keeps the place it has in its selected
/// source: a selected file goes under its own name with its size; a file
/// found in a selected folder goes under the folder's name followed by
/// its path inside the folder.
pub open spec fn placed_as_in_source(scans: Seq<SourceScan>, p: PlannedView) -> bool {
    &&& p.source < scans.len()
    &&& scans[p.source as int].name matches Some(n)
    &&& match p.entry {
        None => {
            &&& scans[p.source as int].kind matches Ok(SourceKind::File)
            &&& p.relative == seq![n@]
            &&& p.size == scans[p.source as int].size
        },
        Some(_) => {
            &&& scans[p.source as int].kind matches Ok(SourceKind::Folder)
            &&& placed_from_entry(p.source, n@, scans[p.source as int].entries@, 0, p)
        },
    }
}

proof fn lemma_entries_placed(source: nat, folder: Seq<char>, es: Seq<Result<FolderEntry, String>>, j: int)
    requires
        0 <= j,
        entries_plan_from(source, folder, es, j) is Ok,
    ensures
        forall|k: int|
            0 <= k < entries_plan_from(source, folder, es, j)->Ok_0.len() ==> placed_from_entry(
                source,
                folder,
                es,
                j,
                #[trigger] entries_plan_from(source, folder, es, j)->Ok_0[k],
            ),
    decreases es.len() - j,
{
    if j < es.len() {
        let rest = entries_plan_from(source, folder, es, j + 1);
        if let Ok(entry) = es[j] {
            if !entry.is_file {
                lemma_entries_placed(source, folder, es, j + 1);
                assert forall|k: int| 0 <= k < rest->Ok_0.len() implies placed_from_entry(
                    source,
                    folder,
                    es,
                    j,
                    #[trigger] rest->Ok_0[k],
                ) by {
                    assert(placed_from_entry(source, folder, es, j + 1, rest->Ok_0[k]));
                }
            } else if let Some(inside) = entry.inside {
                lemma_entries_placed(source, folder, es, j + 1);
                let pv = PlannedView {
                    source,
                    entry: Some(j as nat),
                    relative: seq![folder] + texts(inside@),
                    size: entry.size as nat,
                };
                let all = seq![pv] + rest->Ok_0;
                assert forall|k: int| 0 <= k < all.len() implies placed_from_entry(source, folder, es, j, #[trigger] all[k]) by {
                    if k > 0 {
                        assert(all[k] == rest->Ok_0[k - 1]);
                        assert(placed_from_entry(source, folder, es, j + 1, rest->Ok_0[k - 1]));
                    }
                }
            }
        }
    }
}

proof fn lemma_files_placed(scans: Seq<SourceScan>, i: int)
    requires
        0 <= i,
        files_plan_from(scans, i) is Ok,
    ensures
        forall|k: int|
            0 <= k < files_plan_from(scans, i)->Ok_0.len() ==> placed_as_in_source(
                scans,
                #[trigger] files_plan_from(scans, i)->Ok_0[k],
            ),
    decreases scans.len() - i,
{
    if i < scans.len() {
        let scan = scans[i];
        let first = source_plan(i as nat, scan);
        let rest = files_plan_from(scans, i + 1);
        lemma_files_placed(scans, i + 1);
        let a = first->Ok_0;
        let all = a + rest->Ok_0;
        assert forall|k: int| 0 <= k < a.len() implies placed_as_in_source(scans, #[trigger] a[k]) by {
            if let Ok(SourceKind::Folder) = scan.kind {
                if let Some(n) = scan.name {
                    lemma_entries_placed(i as nat, n@, scan.entries@, 0);
                    assert(placed_from_entry(i as nat, n@, scan.entries@, 0, a[k]));
                }
            }
        }
        assert forall|k: int| 0 <= k < all.len() implies placed_as_in_source(scans, #[trigger] all[k]) by {
            if k < a.len() {
                assert(all[k] == a[k]);
            } else {
                assert(all[k] == rest->Ok_0[k - a.len()]);
            }
        }
    }
}

/// Every file of a copy's plan keeps, below the destination, the place it
/// has in its selected source, so that a copied folder keeps its
/// structure.
pub proof fn lemma_plan_keeps_structure(scans: Seq<SourceScan>)
    requires
        copy_plan(scans) is Ok,
    ensures
        forall|k: int|
            0 <= k < copy_plan(scans)->Ok_0.len() ==> placed_as_in_source(scans, #[trigger] copy_plan(scans)->Ok_0[k]),
{
    lemma_files_placed(scans, 0);
}

proof fn lemma_after_after(a: Seq<PlannedView>, b: Seq<PlannedView>, rest: Result<Seq<PlannedView>, Seq<char>>)
    ensures
        after(a, after(b, rest)) == after(a + b, rest),
{
    match rest {
        Ok(more) => {
            assert(a + (b + more) =~= (a + b) + more);
        },
        Err(_) => {},
    }
}

fn push_planned(out: &mut Vec<PlannedFile>, p: PlannedFile)
    ensures
        planned_views(final(out)@) == planned_views(old(out)@).push(planned_view(p)),
{
    let ghost before = planned_views(out@);
    out.push(p);
    assert(planned_views(out@) =~= before.push(planned_view(p)));
}

fn plan_entries(source: usize, folder: &String, entries: &Vec<Result<FolderEntry, String>>, out: &mut Vec<PlannedFile>) -> (r:
    Result<(), String>)
    ensures
        after(planned_views(old(out)@), entries_plan_from(source as nat, folder@, entries@, 0)) == match r {
            Ok(_) => Ok(planned_views(final(out)@)),
            Err(m) => Err(m@),
        },
{
    let ghost start = planned_views(out@);
    let mut j: usize = 0;
    while j < entries.len()
        invariant
            j <= entries@.len(),
            after(start, entries_plan_from(source as nat, folder@, entries@, 0)) == after(
                planned_views(out@),
                entries_plan_from(source as nat, folder@, entries@, j as int),
            ),
        decreases entries@.len() - j,
    {
        match &entries[j] {
            Err(e) => {
                return Err(joined("Falha ao ler a pasta: ", e.as_str()));
            },
            Ok(entry) => {
                if entry.is_file {
                    match &entry.inside {
                        None => {
                            return Err(String::from_str("Falha ao preservar a estrutura da pasta."));
                        },
                        Some(inside) => {
                            let p = PlannedFile {
                                source,
                                entry: Some(j),
                                relative: copy_relative_path(folder, inside),
                                size: entry.size,
                            };
                            let ghost pv = planned_view(p);
                            let ghost done = planned_views(out@);
                            proof {
                                lemma_after_after(
                                    done,
                                    seq![pv],
                                    entries_plan_from(source as nat, folder@, entries@, j + 1),
                                );
                                assert(done + seq![pv] =~= done.push(pv));
                            }
                            push_planned(out, p);
                        },
                    }
                }
            },
        }
        j = j + 1;
    }
    assert(planned_views(out@) + Seq::<PlannedView>::empty() =~= planned_views(out@));
    Ok(())
}

/// The files to copy for the selected sources, in order, or the first
/// reason the copy cannot start.
pub fn plan_copy(scans: &Vec<SourceScan>) -> (r: Result<Vec<PlannedFile>, String>)
    ensures
        copy_plan(scans@) == match r {
            Ok(v) => Ok(planned_views(v@)),
            Err(m) => Err(m@),
        },
{
    let mut out: Vec<PlannedFile> = Vec::new();
    let mut i: usize = 0;
    assert(planned_views(out@) =~= Seq::<PlannedView>::empty());
    assert(after(Seq::empty(), copy_plan(scans@)) == copy_plan(scans@)) by {
        match copy_plan(scans@) {
            Ok(more) => {
                assert(Seq::<PlannedView>::empty() + more =~= more);
            },
            Err(_) => {},
        }
    }
    while i < scans.len()
        invariant
            i <= scans@.len(),
            copy_plan(scans@) == after(planned_views(out@), files_plan_from(scans@, i as int)),
        decreases scans@.len() - i,
    {
        let scan = &scans[i];
        let ghost done = planned_views(out@);
        match &scan.kind {
            Err(e) => {
                let mut m = joined3("A origem ", scan.text.as_str(), " não está disponível: ");
                m.append(e.as_str());
                return Err(m);
            },
            Ok(SourceKind::File) => {
                match &scan.name {
                    None => {
                        return Err(String::from_str("Um arquivo selecionado não possui nome válido."));
                    },
                    Some(n) => {
                        let none: Vec<String> = Vec::new();
                        let relative = copy_relative_path(n, &none);
                        assert(texts(none@) =~= Seq::<Seq<char>>::empty());
                        assert(texts(relative@) =~= seq![n@]);
                        let p = PlannedFile { source: i, entry: None, relative, size: scan.size };
                        proof {
                            lemma_after_after(done, seq![planned_view(p)], files_plan_from(scans@, i + 1));
                            assert(done + seq![planned_view(p)] =~= done.push(planned_view(p)));
                        }
                        push_planned(&mut out, p);
                    },
                }
            },
            Ok(SourceKind::Folder) => {
                match &scan.name {
                    None => {
                        return Err(String::from_str("Uma pasta selecionada não possui nome válido."));
                    },
                    Some(n) => {
                        let res = plan_entries(i, n, &scan.entries, &mut out);
                        match res {
                            Err(m) => {
                                return Err(m);
                            },
                            Ok(_) => {
                                proof {
                                    let files = entries_plan_from(i as nat, n@, scan.entries@, 0);
                                    assert(files is Ok);
                                    lemma_after_after(done, files->Ok_0, files_plan_from(scans@, i + 1));
                                }
                            },
                        }
                    },
                }
            },
            Ok(SourceKind::Other) => {
                assert(done + Seq::<PlannedView>::empty() =~= done);
                proof {
                    lemma_after_after(done, Seq::empty(), files_plan_from(scans@, i + 1));
                }
            },
        }
        i = i + 1;
    }
    assert(planned_views(out@) + Seq::<PlannedView>::empty() =~= planned_views(out@));
    Ok(out)
}

/// A selected source, as read for recreating its folders.
pub struct FolderScan {
    /// Whether it is a folder.
    pub is_dir: bool,
    /// Its path as text, for messages.
    pub text: String,
    /// Its last component, when it has one.
    pub name: Option<String>,
    /// The folders of its walk in order (itself first; entries that could
    /// not be read left out), each with its path below the source, or
    /// `None` when that could not be taken apart.
    pub folders: Vec<Option<Vec<String>>>,
}

/// Something to do before the files are copied.
#[derive(Debug, PartialEq, Eq)]
pub enum FolderTask {
    /// Report this error.
    Report(String),
    /// Make the folder at this path below the destination.
    Create(Vec<String>),
}

/// The mathematical value of a [`FolderTask`].
pub enum TaskView {
    Report(Seq<char>),
    Create(Seq<Seq<char>>),
}

pub open spec fn task_view(t: FolderTask) -> TaskView {
    match t {
        FolderTask::Report(m) => TaskView::Report(m@),
        FolderTask::Create(r) => TaskView::Create(texts(r@)),
    }
}

pub open spec fn task_views(ts: Seq<FolderTask>) -> Seq<TaskView> {
    ts.map_values(|t: FolderTask| task_view(t))
}

pub open spec fn unnamed_source_folder_message(text: Seq<char>) -> Seq<char> {
    "A pasta "@ + text + " não possui um nome válido."@
}

/// The folders to make for a folder's walk from entry `j` on, under the
/// folder's name; a folder whose path could not be taken apart is passed
/// over.
pub open spec fn subfolder_tasks_from(name: Seq<char>, fs: Seq<Option<Vec<String>>>, j: int) -> Seq<TaskView>
    decreases fs.len() - j,
{
    if j < 0 || j >= fs.len() {
        Seq::empty()
    } else {
        (match fs[j] {
            None => Seq::empty(),
            Some(inside) => seq![TaskView::Create(seq![name] + texts(inside@))],
        }) + subfolder_tasks_from(name, fs, j + 1)
    }
}

/// What a selected source asks for: nothing unless it is a folder; an
/// error for a folder without a name; else its folders.
pub open spec fn source_folder_tasks(scan: FolderScan) -> Seq<TaskView> {
    if !scan.is_dir {
        Seq::empty()
    } else {
        match scan.name {
            None => seq![TaskView::Report(unnamed_source_folder_message(scan.text@))],
            Some(n) => subfolder_tasks_from(n@, scan.folders@, 0),
        }
    }
}

/// What the sources from `i` on ask for, in order.
pub open spec fn folder_tasks_from(scans: Seq<FolderScan>, i: int) -> Seq<TaskView>
    decreases scans.len() - i,
{
    if i < 0 || i >= scans.len() {
        Seq::empty()
    } else {
        source_folder_tasks(scans[i]) + folder_tasks_from(scans, i + 1)
    }
}

fn push_task(out: &mut Vec<FolderTask>, t: FolderTask)
    ensures
        task_views(final(out)@) == task_views(old(out)@).push(task_view(t)),
{
    let ghost before = task_views(out@);
    out.push(t);
    assert(task_views(out@) =~= before.push(task_view(t)));
}

fn push_subfolders(name: &String, folders: &Vec<Option<Vec<String>>>, out: &mut Vec<FolderTask>)
    ensures
        task_views(final(out)@) == task_views(old(out)@) + subfolder_tasks_from(name@, folders@, 0),
{
    let ghost start = task_views(out@);
    let mut j: usize = 0;
    while j < folders.len()
        invariant
            j <= folders@.len(),
            start + subfolder_tasks_from(name@, folders@, 0) == task_views(out@) + subfolder_tasks_from(
                name@,
                folders@,
                j as int,
            ),
        decreases folders@.len() - j,
    {
        let ghost done = task_views(out@);
        let ghost rest = subfolder_tasks_from(name@, folders@, j + 1);
        match &folders[j] {
            None => {
                assert(subfolder_tasks_from(name@, folders@, j as int) =~= rest);
            },
            Some(inside) => {
                let t = FolderTask::Create(copy_relative_path(name, inside));
                push_task(out, t);
                assert(done + subfolder_tasks_from(name@, folders@, j as int) =~= done.push(task_view(t)) + rest);
            },
        }
        j = j + 1;
    }
    assert(task_views(out@) + subfolder_tasks_from(name@, folders@, j as int) =~= task_views(out@));
}

/// What to do, in order, to recreate the selected folders at the
/// destination before their files are copied.
pub fn plan_folders(scans: &Vec<FolderScan>) -> (r: Vec<FolderTask>)
    ensures
        task_views(r@) == folder_tasks_from(scans@, 0),
{
    let mut out: Vec<FolderTask> = Vec::new();
    let mut i: usize = 0;
    assert(task_views(out@) + folder_tasks_from(scans@, 0) =~= folder_tasks_from(scans@, 0));
    while i < scans.len()
        invariant
            i <= scans@.len(),
            folder_tasks_from(scans@, 0) == task_views(out@) + folder_tasks_from(scans@, i as int),
        decreases scans@.len() - i,
    {
        let scan = &scans[i];
        let ghost done = task_views(out@);
        let ghost rest = folder_tasks_from(scans@, i + 1);
        if scan.is_dir {
            match &scan.name {
                None => {
                    let mut m = joined("A pasta ", scan.text.as_str());
                    m.append(" não possui um nome válido.");
                    let t = FolderTask::Report(m);
                    push_task(&mut out, t);
                    assert(done + folder_tasks_from(scans@, i as int) =~= done.push(task_view(t)) + rest);
                },
                Some(n) => {
                    push_subfolders(n, &scan.folders, &mut out);
                    assert(done + folder_tasks_from(scans@, i as int) =~= task_views(out@) + rest);
                },
            }
        } else {
            assert(folder_tasks_from(scans@, i as int) =~= rest);
        }
        i = i + 1;
    }
    assert(task_views(out@) + folder_tasks_from(scans@, i as int) =~= task_views(out@));
    out
}

pub open spec fn folder_too_long_message(target: Seq<char>) -> Seq<char> {
    "O caminho da pasta é muito longo: "@ + target
}

pub open spec fn folder_failed_message(target: Seq<char>, error: Seq<char>) -> Seq<char> {
    "Não foi possível criar a pasta "@ + target + ": "@ + error
}

/// Before making the folder at `target`: the error to report in its place
/// when its path is too long to be written safely on Windows.
pub fn folder_path_refusal(target: &str, on_windows: bool) -> (r: Option<String>)
    ensures
        r is Some <==> (on_windows && utf16_len(target@) > 240),
        r matches Some(m) ==> m@ == folder_too_long_message(target@),
{
    if exceeds_safe_path_length(target, on_windows) {
        Some(joined("O caminho da pasta é muito longo: ", target))
    } else {
        None
    }
}

/// The error reported when the folder at `target` could not be made.
pub fn folder_creation_failure(target: &str, error: &str) -> (r: String)
    ensures
        r@ == folder_failed_message(target@, error@),
{
    let mut m = joined3("Não foi possível criar a pasta ", target, ": ");
    m.append(error);
    m
}

} // verus!
