//! Discovery of Google Drive for desktop mount points: the candidate list
//! (one entry per distinct folder) and the rules that recognise a drive.

use vstd::prelude::*;
use crate::names::texts;
use crate::paths::{
    copy_components, parts_view, personal_drive_folder, personal_drive_path, probes_view,
    same_components, ComponentView, EntryInfo, EntryView, FolderProbe, PathComponent, PathValue,
    PathView, ProbeView, entries_view,
};
use crate::text::{chars_of, contains_chars, is_prefix, lowercase, occurs_in, same_text, split_chars, split_on, trim,
    starts_with_chars, to_lowercase};

verus! {

/// A folder offered as the drive root.
#[derive(Clone, Debug)]
pub struct DriveCandidate {
    pub path: String,
    pub label: String,
    pub source: String,
}

/// The mathematical value of a [`DriveCandidate`].
pub struct CandidateView {
    pub path: Seq<char>,
    pub label: Seq<char>,
    pub source: Seq<char>,
}

impl View for DriveCandidate {
    type V = CandidateView;

    open spec fn view(&self) -> CandidateView {
        CandidateView { path: self.path@, label: self.label@, source: self.source@ }
    }
}

/// Candidates found so far, with the folders (by components) already
/// offered, so that no folder is offered twice.
pub struct DriveCandidates {
    items: Vec<DriveCandidate>,
    seen: Vec<Vec<PathComponent>>,
}

/// The mathematical value of a [`DriveCandidates`].
pub struct CandidatesState {
    pub items: Seq<CandidateView>,
    pub seen: Seq<Seq<ComponentView>>,
}

impl View for DriveCandidates {
    type V = CandidatesState;

    closed spec fn view(&self) -> CandidatesState {
        CandidatesState {
            items: self.items@.map_values(|c: DriveCandidate| c@),
            seen: self.seen@.map_values(|p: Vec<PathComponent>| parts_view(p@)),
        }
    }
}

/// One candidate per seen folder, and no folder seen twice.
pub open spec fn well_formed(s: CandidatesState) -> bool {
    &&& s.items.len() == s.seen.len()
    &&& s.seen.no_duplicates()
}

/// The state after offering `path` (shown as `path.text`) when it is a
/// folder not offered before; otherwise the state unchanged.
pub open spec fn pushed(
    s: CandidatesState,
    path: PathView,
    is_dir: bool,
    label: Seq<char>,
    source: Seq<char>,
) -> CandidatesState {
    if is_dir && !s.seen.contains(path.parts) {
        CandidatesState {
            items: s.items.push(CandidateView { path: path.text, label, source }),
            seen: s.seen.push(path.parts),
        }
    } else {
        s
    }
}

impl DriveCandidates {
    pub fn new() -> (r: Self)
        ensures
            r@.items.len() == 0,
            r@.seen.len() == 0,
            well_formed(r@),
    {
        let r = DriveCandidates { items: Vec::new(), seen: Vec::new() };
        assert(r@.items =~= Seq::<CandidateView>::empty());
        assert(r@.seen =~= Seq::<Seq<ComponentView>>::empty());
        r
    }

    /// The candidates, in the order they were found.
    pub fn candidates(&self) -> (r: &Vec<DriveCandidate>)
        ensures
            r@.map_values(|c: DriveCandidate| c@) == self@.items,
    {
        &self.items
    }

    /// The candidates, in the order they were found.
    pub fn into_candidates(self) -> (r: Vec<DriveCandidate>)
        ensures
            r@.map_values(|c: DriveCandidate| c@) == self@.items,
    {
        self.items
    }

    /// Whether the folder with these components was already offered.
    pub fn has_seen(&self, components: &Vec<PathComponent>) -> (r: bool)
        ensures
            r == self@.seen.contains(parts_view(components@)),
    {
        let mut i: usize = 0;
        while i < self.seen.len()
            invariant
                i <= self.seen@.len(),
                forall|j: int| 0 <= j < i ==> self@.seen[j] != parts_view(components@),
            decreases self.seen@.len() - i,
        {
            if same_components(&self.seen[i], components) {
                assert(self@.seen[i as int] == parts_view(components@));
                return true;
            }
            i = i + 1;
        }
        false
    }
}


/// Offers `path` as a drive root, labelled `label`, found by `source`:
/// kept only when it is a folder that was not offered before.
pub fn push_drive_candidate(
    candidates: &mut DriveCandidates,
    path: &PathValue,
    is_dir: bool,
    label: String,
    source: &str,
)
    requires
        well_formed(old(candidates)@),
    ensures
        final(candidates)@ == pushed(old(candidates)@, path@, is_dir, label@, source@),
        well_formed(final(candidates)@),
{
    if is_dir && !candidates.has_seen(&path.components) {
        let ghost before = candidates@;
        candidates.seen.push(copy_components(&path.components));
        candidates.items.push(
            DriveCandidate { path: path.text.clone(), label, source: String::from_str(source) },
        );
        proof {
            let after = pushed(before, path@, is_dir, label@, source@);
            assert(candidates@.items =~= after.items);
            assert(candidates@.seen =~= after.seen);
            assert(after.seen.no_duplicates()) by {
                assert forall|a: int, b: int|
                    0 <= a < after.seen.len() && 0 <= b < after.seen.len() && a != b implies after.seen[a]
                    != after.seen[b] by {
                    if a < before.seen.len() && b < before.seen.len() {
                    } else if a == before.seen.len() {
                        assert(before.seen[b] == after.seen[b]);
                    } else {
                        assert(before.seen[a] == after.seen[a]);
                    }
                }
            }
        }
    }
}

/// Offering a folder a second time changes nothing.
pub proof fn lemma_push_twice_is_push_once(
    s: CandidatesState,
    path: PathView,
    is_dir: bool,
    label: Seq<char>,
    source: Seq<char>,
    label2: Seq<char>,
    source2: Seq<char>,
)
    ensures
        pushed(pushed(s, path, is_dir, label, source), path, is_dir, label2, source2) == pushed(
            s,
            path,
            is_dir,
            label,
            source,
        ),
{
    let once = pushed(s, path, is_dir, label, source);
    if is_dir && !s.seen.contains(path.parts) {
        assert(once.seen[once.seen.len() - 1] == path.parts);
        assert(once.seen.contains(path.parts));
    }
}

/// Offering a folder keeps every folder listed at most once, and afterwards
/// the folder is among those seen exactly when it was seen before or is a
/// folder.
pub proof fn lemma_pushed_keeps_well_formed(
    s: CandidatesState,
    path: PathView,
    is_dir: bool,
    label: Seq<char>,
    source: Seq<char>,
)
    requires
        well_formed(s),
    ensures
        well_formed(pushed(s, path, is_dir, label, source)),
        pushed(s, path, is_dir, label, source).seen.contains(path.parts) <==> (s.seen.contains(
            path.parts,
        ) || is_dir),
{
    let after = pushed(s, path, is_dir, label, source);
    if is_dir && !s.seen.contains(path.parts) {
        assert(after.seen[after.seen.len() - 1] == path.parts);
        assert(after.seen.no_duplicates()) by {
            assert forall|a: int, b: int|
                0 <= a < after.seen.len() && 0 <= b < after.seen.len() && a != b implies after.seen[a]
                != after.seen[b] by {
                if a < s.seen.len() && b < s.seen.len() {
                } else if a == s.seen.len() {
                    assert(s.seen[b] == after.seen[b]);
                } else {
                    assert(s.seen[a] == after.seen[a]);
                }
            }
        }
        assert forall|x: Seq<ComponentView>| s.seen.contains(x) implies after.seen.contains(x) by {
            let i = choose|i: int| 0 <= i < s.seen.len() && s.seen[i] == x;
            assert(after.seen[i] == x);
        }
    }
}

} // verus!

verus! {

/// The label given to roots recognised by their layout or account folder.
pub open spec fn google_drive_label() -> Seq<char> {
    "Google Drive"@
}

/// A folder under `~/Library/CloudStorage` that holds one Google account.
pub open spec fn is_account_folder(e: EntryView) -> bool {
    is_prefix("googledrive-"@, lowercase(e.name)) && e.is_dir
}

/// Whether an already lower-cased folder name starts with `googledrive-`.
pub fn lowered_name_is_account(lower: &str) -> (r: bool)
    ensures
        r == is_prefix("googledrive-"@, lower@),
{
    let lower_chars = chars_of(lower);
    let prefix = chars_of("googledrive-");
    starts_with_chars(&lower_chars, &prefix)
}

/// The candidates after looking at the entries `es` of the cloud storage
/// folder, in order.
pub open spec fn add_accounts(s: CandidatesState, es: Seq<EntryView>, source: Seq<char>) -> CandidatesState
    decreases es.len(),
{
    if es.len() == 0 {
        s
    } else {
        let prev = add_accounts(s, es.drop_last(), source);
        let e = es.last();
        if is_account_folder(e) {
            pushed(prev, e.path, e.is_dir, google_drive_label(), source)
        } else {
            prev
        }
    }
}

/// Offers every account folder among `entries` (the listing of the cloud
/// storage folder) as a drive root.
pub fn add_google_drive_account_roots(
    candidates: &mut DriveCandidates,
    entries: &Vec<EntryInfo>,
    source: &str,
)
    requires
        well_formed(old(candidates)@),
    ensures
        final(candidates)@ == add_accounts(old(candidates)@, entries_view(entries@), source@),
        well_formed(final(candidates)@),
{
    let ghost start = candidates@;
    let mut i: usize = 0;
    while i < entries.len()
        invariant
            i <= entries@.len(),
            well_formed(candidates@),
            candidates@ == add_accounts(start, entries_view(entries@).take(i as int), source@),
        decreases entries@.len() - i,
    {
        let entry = &entries[i];
        let lower = to_lowercase(entry.name.as_str());
        proof {
            assert(entries_view(entries@).take(i + 1).drop_last() =~= entries_view(entries@).take(
                i as int,
            ));
            assert(entries_view(entries@).take(i + 1).last() == entry@);
        }
        if lowered_name_is_account(lower.as_str()) && entry.is_dir {
            push_drive_candidate(
                candidates,
                &entry.path,
                entry.is_dir,
                String::from_str("Google Drive"),
                source,
            );
        }
        i = i + 1;
    }
    assert(entries_view(entries@).take(entries@.len() as int) =~= entries_view(entries@));
}

/// Top-level folder names that mark the root of a mounted Google Drive.
pub open spec fn drive_layout_labels() -> Seq<Seq<char>> {
    seq![
        "Meu Drive"@,
        "My Drive"@,
        "Drive compartilhado"@,
        "Drives compartilhados"@,
        "Drivers compartilhados"@,
        "Shared drives"@,
    ]
}

/// Some probe of a Drive top-level name under the volume found a folder.
pub open spec fn has_drive_layout(ps: Seq<ProbeView>) -> bool {
    exists|i: int|
        0 <= i < ps.len() && ps[i].is_dir && drive_layout_labels().contains(#[trigger] ps[i].label)
}

/// Whether `label` is one of the names of a Drive's top-level folders,
/// Portuguese or English: `Meu Drive`, `My Drive`, `Drive compartilhado`,
/// `Drives compartilhados`, `Drivers compartilhados`, `Shared drives`.
pub open spec fn is_layout_name(label: Seq<char>) -> bool {
    ||| label == "Meu Drive"@
    ||| label == "My Drive"@
    ||| label == "Drive compartilhado"@
    ||| label == "Drives compartilhados"@
    ||| label == "Drivers compartilhados"@
    ||| label == "Shared drives"@
}

/// The labels probed under a volume are exactly the Drive's top-level
/// folder names, and a volume is laid out like a Drive exactly when the
/// probe of one of those names found a folder.
pub proof fn lemma_drive_layout_names(ps: Seq<ProbeView>)
    ensures
        forall|x: Seq<char>| drive_layout_labels().contains(x) <==> is_layout_name(x),
        has_drive_layout(ps) <==> exists|i: int|
            0 <= i < ps.len() && (#[trigger] ps[i]).is_dir && is_layout_name(ps[i].label),
{
    let l = drive_layout_labels();
    assert forall|x: Seq<char>| l.contains(x) <==> is_layout_name(x) by {
        if l.contains(x) {
            let k = choose|k: int| 0 <= k < l.len() && l[k] == x;
            assert(is_layout_name(l[k]));
        }
        if is_layout_name(x) {
            if x == "Meu Drive"@ {
                assert(l[0] == x);
            } else if x == "My Drive"@ {
                assert(l[1] == x);
            } else if x == "Drive compartilhado"@ {
                assert(l[2] == x);
            } else if x == "Drives compartilhados"@ {
                assert(l[3] == x);
            } else if x == "Drivers compartilhados"@ {
                assert(l[4] == x);
            } else {
                assert(l[5] == x);
            }
        }
    }
    if has_drive_layout(ps) {
        let i = choose|i: int| 0 <= i < ps.len() && ps[i].is_dir && l.contains(#[trigger] ps[i].label);
        assert(is_layout_name(ps[i].label));
    }
    if exists|i: int| 0 <= i < ps.len() && (#[trigger] ps[i]).is_dir && is_layout_name(ps[i].label) {
        let i = choose|i: int| 0 <= i < ps.len() && (#[trigger] ps[i]).is_dir && is_layout_name(ps[i].label);
        assert(l.contains(ps[i].label));
    }
}

/// The labels of [`drive_layout_labels`], to probe under a volume root.
pub fn drive_layout_label_list() -> (r: Vec<String>)
    ensures
        texts(r@) == drive_layout_labels(),
{
    let labels = [
        "Meu Drive",
        "My Drive",
        "Drive compartilhado",
        "Drives compartilhados",
        "Drivers compartilhados",
        "Shared drives",
    ];
    let mut r: Vec<String> = Vec::new();
    let mut i: usize = 0;
    while i < 6
        invariant
            i <= 6,
            labels@.len() == 6,
            forall|j: int| 0 <= j < 6 ==> (#[trigger] labels@[j])@ == drive_layout_labels()[j],
            texts(r@) == drive_layout_labels().take(i as int),
        decreases 6 - i,
    {
        assert(labels@[i as int]@ == drive_layout_labels()[i as int]);
        let ghost before = texts(r@);
        r.push(String::from_str(labels[i]));
        assert(texts(r@) =~= before.push(drive_layout_labels()[i as int]));
        assert(texts(r@) =~= drive_layout_labels().take(i + 1));
        i = i + 1;
    }
    assert(drive_layout_labels().take(6) =~= drive_layout_labels());
    r
}

/// Whether `s` is one of the Drive top-level names.
pub fn is_drive_layout_label(s: &String) -> (r: bool)
    ensures
        r == drive_layout_labels().contains(s@),
{
    let labels = drive_layout_label_list();
    let mut i: usize = 0;
    while i < labels.len()
        invariant
            i <= labels@.len(),
            texts(labels@) == drive_layout_labels(),
            forall|j: int| 0 <= j < i ==> drive_layout_labels()[j] != s@,
        decreases labels@.len() - i,
    {
        assert(texts(labels@)[i as int] == labels@[i as int]@);
        if same_text(&labels[i], s) {
            return true;
        }
        i = i + 1;
    }
    false
}

/// Whether some probe of a Drive top-level name found a folder.
pub fn probes_show_drive_layout(probes: &Vec<FolderProbe>) -> (r: bool)
    ensures
        r == has_drive_layout(probes_view(probes@)),
{
    let mut i: usize = 0;
    while i < probes.len()
        invariant
            i <= probes@.len(),
            forall|j: int|
                0 <= j < i ==> !(probes@[j].is_dir && drive_layout_labels().contains(
                    #[trigger] probes@[j].label@,
                )),
        decreases probes@.len() - i,
    {
        if probes[i].is_dir && is_drive_layout_label(&probes[i].label) {
            assert(probes_view(probes@)[i as int] == probes@[i as int]@);
            assert(drive_layout_labels().contains(probes_view(probes@)[i as int].label));
            return true;
        }
        i = i + 1;
    }
    assert forall|j: int| 0 <= j < probes_view(probes@).len() implies !(probes_view(probes@)[j].is_dir
        && drive_layout_labels().contains(#[trigger] probes_view(probes@)[j].label)) by {
        assert(probes_view(probes@)[j] == probes@[j]@);
    }
    false
}

/// Offers a volume root as a drive when one of the Drive top-level names
/// under it is a folder, given the probes of `volume_root.join(label)`;
/// says whether one was.
pub fn add_google_drive_volume_root(
    candidates: &mut DriveCandidates,
    volume_root: &PathValue,
    volume_is_dir: bool,
    probes: &Vec<FolderProbe>,
    source: &str,
) -> (r: bool)
    requires
        well_formed(old(candidates)@),
    ensures
        r == has_drive_layout(probes_view(probes@)),
        final(candidates)@ == if r {
            pushed(old(candidates)@, volume_root@, volume_is_dir, google_drive_label(), source@)
        } else {
            old(candidates)@
        },
        well_formed(final(candidates)@),
{
    let has_layout = probes_show_drive_layout(probes);
    if has_layout {
        push_drive_candidate(
            candidates,
            volume_root,
            volume_is_dir,
            String::from_str("Google Drive"),
            source,
        );
    }
    has_layout
}

/// A macOS volume name that denotes a Google Drive mount: lower-cased and
/// without spaces, it contains `googledrive`.
pub open spec fn is_drive_volume_name(name: Seq<char>) -> bool {
    occurs_in("googledrive"@, lowercase(name).filter(|c: char| c != ' '))
}

/// Whether an already lower-cased volume name, without its spaces,
/// contains `googledrive`.
pub fn lowered_volume_is_drive(lower: &str) -> (r: bool)
    ensures
        r == occurs_in("googledrive"@, lower@.filter(|c: char| c != ' ')),
{
    let chars = chars_of(lower);
    let mut kept: Vec<char> = Vec::new();
    let mut i: usize = 0;
    while i < chars.len()
        invariant
            i <= chars@.len(),
            kept@ == chars@.take(i as int).filter(|c: char| c != ' '),
        decreases chars@.len() - i,
    {
        proof {
            assert(chars@.take(i + 1).drop_last() =~= chars@.take(i as int));
            reveal_with_fuel(Seq::<char>::filter, 1);
        }
        if chars[i] != ' ' {
            kept.push(chars[i]);
        }
        i = i + 1;
    }
    assert(chars@.take(chars@.len() as int) =~= chars@);
    let needle = chars_of("googledrive");
    contains_chars(&kept, &needle)
}

/// Whether a macOS volume name denotes a Google Drive mount.
pub fn is_google_drive_volume_name(name: &str) -> (r: bool)
    ensures
        r == is_drive_volume_name(name@),
{
    let lower = to_lowercase(name);
    lowered_volume_is_drive(lower.as_str())
}

} // verus!

verus! {

/// Folder and volume labels under which Google Drive for desktop shows up.
pub open spec fn drive_folder_labels() -> Seq<Seq<char>> {
    seq![
        "Google Drive"@,
        "Meu Drive"@,
        "My Drive"@,
        "Drive compartilhado"@,
        "Drives compartilhados"@,
        "Drivers compartilhados"@,
        "Shared drives"@,
        "Other computers"@,
    ]
}

/// The labels probed for Drive folders are exactly `Google Drive` and the
/// Drive's top-level folder names, Portuguese and English, with `Other
/// computers`.
pub proof fn lemma_drive_folder_labels()
    ensures
        forall|x: Seq<char>| drive_folder_labels().contains(x) <==> (x == "Google Drive"@ || is_layout_name(x)
            || x == "Other computers"@),
{
    let l = drive_folder_labels();
    assert forall|x: Seq<char>| l.contains(x) <==> (x == "Google Drive"@ || is_layout_name(x) || x
        == "Other computers"@) by {
        if l.contains(x) {
            let k = choose|k: int| 0 <= k < l.len() && l[k] == x;
            assert(l[k] == "Google Drive"@ || is_layout_name(l[k]) || l[k] == "Other computers"@);
        }
        if x == "Google Drive"@ {
            assert(l[0] == x);
        } else if x == "Meu Drive"@ {
            assert(l[1] == x);
        } else if x == "My Drive"@ {
            assert(l[2] == x);
        } else if x == "Drive compartilhado"@ {
            assert(l[3] == x);
        } else if x == "Drives compartilhados"@ {
            assert(l[4] == x);
        } else if x == "Drivers compartilhados"@ {
            assert(l[5] == x);
        } else if x == "Shared drives"@ {
            assert(l[6] == x);
        } else if x == "Other computers"@ {
            assert(l[7] == x);
        }
    }
}

/// The labels of [`drive_folder_labels`], to probe under a root.
pub fn drive_folder_label_list() -> (r: Vec<String>)
    ensures
        r@.map_values(|s: String| s@) == drive_folder_labels(),
{
    let labels = [
        "Google Drive",
        "Meu Drive",
        "My Drive",
        "Drive compartilhado",
        "Drives compartilhados",
        "Drivers compartilhados",
        "Shared drives",
        "Other computers",
    ];
    let mut r: Vec<String> = Vec::new();
    let mut i: usize = 0;
    while i < 8
        invariant
            i <= 8,
            labels@.len() == 8,
            forall|j: int| 0 <= j < 8 ==> (#[trigger] labels@[j])@ == drive_folder_labels()[j],
            r@.map_values(|s: String| s@) == drive_folder_labels().take(i as int),
        decreases 8 - i,
    {
        assert(labels@[i as int]@ == drive_folder_labels()[i as int]);
        let ghost before = r@.map_values(|s: String| s@);
        r.push(String::from_str(labels[i]));
        assert(r@.map_values(|s: String| s@) =~= before.push(drive_folder_labels()[i as int]));
        i = i + 1;
        assert(r@.map_values(|s: String| s@) =~= drive_folder_labels().take(i as int));
    }
    assert(drive_folder_labels().take(8) =~= drive_folder_labels());
    r
}

/// The root of drive letter number `i` (`A:\`, `B:\`, ...).
pub open spec fn drive_letter_root(i: int) -> Seq<char> {
    seq![((65 + i) as u32) as char, ':', '\\']
}

/// The roots of the drive letters `A:\` to `Z:\`, in order.
pub fn windows_drive_roots() -> (r: Vec<String>)
    ensures
        r@.len() == 26,
        forall|i: int| 0 <= i < 26 ==> (#[trigger] r@[i])@ == drive_letter_root(i),
{
    let mut r: Vec<String> = Vec::new();
    let mut b: u8 = 65;
    while b <= 90
        invariant
            65 <= b <= 91,
            r@.len() == b - 65,
            forall|i: int| 0 <= i < r@.len() ==> (#[trigger] r@[i])@ == drive_letter_root(i),
        decreases 91 - b,
    {
        let mut s = String::new();
        crate::text::push_char(&mut s, b as char);
        crate::text::push_char(&mut s, ':');
        crate::text::push_char(&mut s, '\\');
        assert(s@ =~= drive_letter_root(b - 65));
        r.push(s);
        b = b + 1;
    }
    r
}

/// One line of the volume listing (`DeviceID,VolumeName` columns last),
/// when its volume name contains a Drive label (both lower-cased): the
/// drive root and the volume name.
pub open spec fn volume_line_match(line: Seq<char>) -> Option<(Seq<char>, Seq<char>)> {
    let cols = split_on(line, ',').map_values(|c: Seq<char>| trim(c));
    if cols.len() < 3 {
        None
    } else {
        let drive = cols[cols.len() - 2];
        let volume = cols[cols.len() - 1];
        if exists|i: int|
            0 <= i < drive_folder_labels().len() && occurs_in(
                lowercase(#[trigger] drive_folder_labels()[i]),
                lowercase(volume),
            ) {
            Some((drive + seq!['\\'], volume))
        } else {
            None
        }
    }
}

/// The matches of the lines `lines`, in order.
pub open spec fn volume_matches(lines: Seq<Seq<char>>) -> Seq<(Seq<char>, Seq<char>)>
    decreases lines.len(),
{
    if lines.len() == 0 {
        Seq::empty()
    } else {
        let prev = volume_matches(lines.drop_last());
        match volume_line_match(lines.last()) {
            Some(m) => prev.push(m),
            None => prev,
        }
    }
}

/// A volume whose name marks it as a Google Drive: its root and its name.
pub struct VolumeMatch {
    pub drive_root: String,
    pub volume: String,
}

/// Whether the lower-cased `volume` contains one of the lower-cased labels.
pub fn volume_has_drive_label(volume: &String) -> (r: bool)
    ensures
        r == exists|i: int|
            0 <= i < drive_folder_labels().len() && occurs_in(
                lowercase(#[trigger] drive_folder_labels()[i]),
                lowercase(volume@),
            ),
{
    let labels = drive_folder_label_list();
    let lowered = crate::text::lowercase_all(&labels);
    let lower_volume = to_lowercase(volume.as_str());
    let r = crate::text::occurs_in_any(&lower_volume, &lowered);
    proof {
        assert forall|i: int| 0 <= i < labels@.len() implies labels@[i]@ == #[trigger] drive_folder_labels()[i] by {
            assert(labels@.map_values(|s: String| s@)[i] == labels@[i]@);
        }
        if r {
            let i = choose|i: int| 0 <= i < lowered@.len() && occurs_in((#[trigger] lowered@[i])@, lower_volume@);
            assert(labels@[i]@ == drive_folder_labels()[i]);
        }
        assert forall|i: int| 0 <= i < drive_folder_labels().len() && occurs_in(
            lowercase(#[trigger] drive_folder_labels()[i]), lowercase(volume@)) implies r by {
            assert(labels@[i]@ == drive_folder_labels()[i]);
            assert(lowered@[i]@ == lowercase(drive_folder_labels()[i]));
        }
    }
    r
}

/// The volumes, in a `DeviceID,VolumeName` listing (one CSV line per
/// volume, those two columns last), whose names contain a Drive label,
/// compared in lower case. Lines are cut at `\n`; the columns are trimmed,
/// so a `\r` before the `\n` does not matter.
pub fn parse_volume_listing(text: &str) -> (r: Vec<VolumeMatch>)
    ensures
        r@.map_values(|m: VolumeMatch| (m.drive_root@, m.volume@)) == volume_matches(
            split_on(text@, '\n'),
        ),
{
    let chars = chars_of(text);
    let lines = split_chars(&chars, '\n');
    let ghost lines_view = lines@.map_values(|p: Vec<char>| p@);
    let mut r: Vec<VolumeMatch> = Vec::new();
    let mut i: usize = 0;
    while i < lines.len()
        invariant
            i <= lines@.len(),
            lines_view == lines@.map_values(|p: Vec<char>| p@),
            lines_view == split_on(text@, '\n'),
            r@.map_values(|m: VolumeMatch| (m.drive_root@, m.volume@)) == volume_matches(
                lines_view.take(i as int),
            ),
        decreases lines@.len() - i,
    {
        let columns = split_chars(&lines[i], ',');
        let n = columns.len();
        proof {
            assert(lines_view.take(i + 1).drop_last() =~= lines_view.take(i as int));
            assert(lines_view.take(i + 1).last() == lines@[i as int]@);
        }
        let ghost cols = split_on(lines@[i as int]@, ',').map_values(|c: Seq<char>| crate::text::trim(c));
        if n >= 3 {
            let (dlo, dhi) = crate::text::trim_bounds(&columns[n - 2]);
            let (vlo, vhi) = crate::text::trim_bounds(&columns[n - 1]);
            let drive = crate::names::slice_range(&columns[n - 2], dlo, dhi);
            let volume_chars = crate::names::slice_range(&columns[n - 1], vlo, vhi);
            let volume = crate::text::string_from_chars(&volume_chars);
            assert(columns@[n - 2]@ == split_on(lines@[i as int]@, ',')[n - 2]);
            assert(columns@[n - 1]@ == split_on(lines@[i as int]@, ',')[n - 1]);
            assert(drive@ == cols[cols.len() - 2]);
            assert(volume@ == cols[cols.len() - 1]);
            if volume_has_drive_label(&volume) {
                let mut root_chars = drive;
                root_chars.push('\\');
                assert(root_chars@ =~= cols[cols.len() - 2] + seq!['\\']);
                let ghost before = r@.map_values(|m: VolumeMatch| (m.drive_root@, m.volume@));
                r.push(VolumeMatch { drive_root: crate::text::string_from_chars(&root_chars), volume });
                assert(r@.map_values(|m: VolumeMatch| (m.drive_root@, m.volume@)) =~= before.push(
                    (cols[cols.len() - 2] + seq!['\\'], cols[cols.len() - 1]),
                ));
            }
        } else {
            assert(cols.len() < 3);
        }
        i = i + 1;
    }
    assert(lines_view.take(lines@.len() as int) =~= lines_view);
    r
}

/// Given the canonical drive root (or the message of its failure) and the
/// probes of `root/Meu Drive` and `root/My Drive`, the text of the folder
/// that holds the user's own files.
pub fn resolve_drive_content_path(root: Result<PathValue, String>, probes: &Vec<FolderProbe>) -> (r:
    Result<String, String>)
    ensures
        match root {
            Err(e) => r == Err::<String, String>(e),
            Ok(p) => r matches Ok(t) && t@ == personal_drive_folder(p@, probes_view(probes@)).text,
        },
{
    let root = match root {
        Err(e) => return Err(e),
        Ok(p) => p,
    };
    Ok(personal_drive_path(&root, probes).text)
}

} // verus!
