//! Folder listings shown to the user: the quick destinations offered under
//! the drive (children of the shared `PACK` folder, or of the personal
//! drive), and the contents of a browsed folder.

use vstd::prelude::*;
use crate::names::texts;
use crate::order::{is_stable_order, key_of, stable_order, SortKey};
use crate::paths::{
    copy_path, entries_view, personal_drive_folder, personal_drive_path, probes_view, ComponentView,
    EntryInfo, EntryView, FolderProbe, PathComponent, PathValue, PathView,
};
use crate::text::{chars_of, is_among, lowercase, lowercase_all, to_lowercase};

verus! {

/// A folder offered as a destination, with the label shown for it.
#[derive(Clone, Debug)]
pub struct DirectoryChoice {
    pub path: String,
    pub label: String,
}

/// The mathematical value of a [`DirectoryChoice`].
pub struct ChoiceView {
    pub path: Seq<char>,
    pub label: Seq<char>,
}

impl View for DirectoryChoice {
    type V = ChoiceView;

    open spec fn view(&self) -> ChoiceView {
        ChoiceView { path: self.path@, label: self.label@ }
    }
}

/// The destinations offered, and the one selected first.
#[derive(Debug)]
pub struct QuickDestinations {
    pub default_path: String,
    pub directories: Vec<DirectoryChoice>,
}

pub open spec fn choices_view(v: Seq<DirectoryChoice>) -> Seq<ChoiceView> {
    v.map_values(|c: DirectoryChoice| c@)
}

/// `Path::file_name` from the components: the last one when it is a name.
pub open spec fn file_name_of(parts: Seq<ComponentView>) -> Option<Seq<char>> {
    if parts.len() > 0 {
        match parts.last() {
            ComponentView::Normal(s) => Some(s),
            _ => None,
        }
    } else {
        None
    }
}

/// The label of a folder: its name, or its whole text when it has none.
pub open spec fn folder_label(p: PathView) -> Seq<char> {
    match file_name_of(p.parts) {
        Some(n) => n,
        None => p.text,
    }
}

/// A folder shown in a listing: a folder whose name does not start with a
/// dot.
pub open spec fn is_visible_folder(e: EntryView) -> bool {
    e.is_dir && !(e.name.len() > 0 && e.name[0] == '.')
}

/// The visible child folders, in listing order.
pub open spec fn visible_folders(es: Seq<EntryView>) -> Seq<EntryView> {
    es.filter(|e: EntryView| is_visible_folder(e))
}

/// The choices before sorting: the visible child folders labelled by name,
/// or the base folder itself when it has none.
pub open spec fn unsorted_choices(base: PathView, es: Seq<EntryView>) -> Seq<ChoiceView> {
    let children = visible_folders(es);
    if children.len() == 0 {
        seq![ChoiceView { path: base.text, label: folder_label(base) }]
    } else {
        children.map_values(|e: EntryView| ChoiceView { path: e.path.text, label: e.name })
    }
}

/// Sort keys of choices: their labels in lower case.
pub open spec fn choice_keys(cs: Seq<ChoiceView>) -> Seq<(bool, Seq<char>)> {
    cs.map_values(|c: ChoiceView| (false, lowercase(c.label)))
}

/// `out` is `cs` sorted stably by lower-cased label.
pub open spec fn sorted_choices(cs: Seq<ChoiceView>, out: Seq<ChoiceView>) -> bool {
    exists|order: Seq<usize>|
        is_stable_order(choice_keys(cs), order) && out == order.map_values(|i: usize| cs[i as int])
}


/// The label of a folder: its last component when that is a name, else its
/// whole text.
pub fn folder_label_of(p: &PathValue) -> (r: String)
    ensures
        r@ == folder_label(p@),
{
    let n = p.components.len();
    if n > 0 {
        match &p.components[n - 1] {
            PathComponent::Normal(s) => {
                assert(p@.parts.last() == p.components@[n - 1]@);
                return s.clone();
            },
            _ => {
                assert(p@.parts.last() == p.components@[n - 1]@);
            },
        }
    }
    p.text.clone()
}

fn copy_choice(c: &DirectoryChoice) -> (r: DirectoryChoice)
    ensures
        r@ == c@,
{
    DirectoryChoice { path: c.path.clone(), label: c.label.clone() }
}

/// `choices` sorted stably by lower-cased label.
pub fn sort_choices(choices: &Vec<DirectoryChoice>) -> (r: Vec<DirectoryChoice>)
    ensures
        sorted_choices(choices_view(choices@), choices_view(r@)),
{
    let ghost cs = choices_view(choices@);
    let mut keys: Vec<SortKey> = Vec::new();
    let mut i: usize = 0;
    while i < choices.len()
        invariant
            i <= choices@.len(),
            cs == choices_view(choices@),
            keys@.map_values(|k: SortKey| key_of(k)) == choice_keys(cs).take(i as int),
        decreases choices@.len() - i,
    {
        let lower = to_lowercase(choices[i].label.as_str());
        let ghost before = keys@.map_values(|k: SortKey| key_of(k));
        keys.push(SortKey { group: false, text: chars_of(lower.as_str()) });
        assert(cs[i as int] == choices@[i as int]@);
        assert(keys@.map_values(|k: SortKey| key_of(k)) =~= before.push((false, lowercase(cs[i as int].label))));
        assert(keys@.map_values(|k: SortKey| key_of(k)) =~= choice_keys(cs).take(i + 1));
        i = i + 1;
    }
    assert(choice_keys(cs).take(choices@.len() as int) =~= choice_keys(cs));
    let order = stable_order(&keys);
    let mut r: Vec<DirectoryChoice> = Vec::new();
    let mut k: usize = 0;
    while k < order.len()
        invariant
            k <= order@.len(),
            cs == choices_view(choices@),
            is_stable_order(choice_keys(cs), order@),
            choices_view(r@) == order@.take(k as int).map_values(|i: usize| cs[i as int]),
        decreases order@.len() - k,
    {
        let ghost before = choices_view(r@);
        let idx = order[k];
        assert(idx < cs.len());
        r.push(copy_choice(&choices[idx]));
        assert(cs[idx as int] == choices@[idx as int]@);
        assert(choices_view(r@) =~= before.push(cs[idx as int]));
        assert(choices_view(r@) =~= order@.take(k + 1).map_values(|i: usize| cs[i as int]));
        k = k + 1;
    }
    assert(order@.take(order@.len() as int) =~= order@);
    r
}

/// The visible child folders of a listing, as choices labelled by name.
pub fn visible_child_directories(entries: &Vec<EntryInfo>) -> (r: Vec<DirectoryChoice>)
    ensures
        choices_view(r@) == visible_folders(entries_view(entries@)).map_values(
            |e: EntryView| ChoiceView { path: e.path.text, label: e.name },
        ),
{
    let ghost es = entries_view(entries@);
    let mut r: Vec<DirectoryChoice> = Vec::new();
    let mut i: usize = 0;
    while i < entries.len()
        invariant
            i <= entries@.len(),
            es == entries_view(entries@),
            choices_view(r@) == visible_folders(es.take(i as int)).map_values(
                |e: EntryView| ChoiceView { path: e.path.text, label: e.name },
            ),
        decreases entries@.len() - i,
    {
        let entry = &entries[i];
        proof {
            assert(es.take(i + 1).drop_last() =~= es.take(i as int));
            assert(es.take(i + 1).last() == entry@);
            reveal_with_fuel(Seq::<EntryView>::filter, 1);
        }
        let name = chars_of(entry.name.as_str());
        let hidden = name.len() > 0 && name[0] == '.';
        if entry.is_dir && !hidden {
            let ghost before = choices_view(r@);
            r.push(DirectoryChoice { path: entry.path.text.clone(), label: entry.name.clone() });
            assert(choices_view(r@) =~= before.push(
                ChoiceView { path: entry@.path.text, label: entry@.name },
            ));
        }
        i = i + 1;
    }
    assert(es.take(entries@.len() as int) =~= es);
    r
}

/// The quick destinations under the chosen base folder, given its listing:
/// the visible child folders (or the base itself when there are none),
/// sorted by lower-cased label; the first is selected.
pub fn build_quick_destinations(base: &PathValue, entries: &Vec<EntryInfo>) -> (r: QuickDestinations)
    ensures
        sorted_choices(unsorted_choices(base@, entries_view(entries@)), choices_view(r.directories@)),
        r.directories@.len() >= 1,
        r.default_path@ == r.directories@[0].path@,
{
    let mut choices = visible_child_directories(entries);
    if choices.len() == 0 {
        choices.push(DirectoryChoice { path: base.text.clone(), label: folder_label_of(base) });
    }
    assert(choices_view(choices@) =~= unsorted_choices(base@, entries_view(entries@)));
    let directories = sort_choices(&choices);
    proof {
        let order = choose|order: Seq<usize>|
            is_stable_order(choice_keys(choices_view(choices@)), order) && choices_view(directories@)
                == order.map_values(|i: usize| choices_view(choices@)[i as int]);
        assert(choices_view(directories@).len() == order.len());
    }
    let default_path = directories[0].path.clone();
    QuickDestinations { default_path, directories }
}

} // verus!

verus! {

/// The first folder in a listing whose lower-cased name equals one of the
/// lower-cased `names`.
pub open spec fn first_child_matching(es: Seq<EntryView>, names: Seq<Seq<char>>) -> Option<EntryView>
    decreases es.len(),
{
    if es.len() == 0 {
        None
    } else if es[0].is_dir && exists|i: int|
        0 <= i < names.len() && lowercase(#[trigger] names[i]) == lowercase(es[0].name) {
        Some(es[0])
    } else {
        first_child_matching(es.drop_first(), names)
    }
}

/// Whether the lower-cased `name` equals one of the lower-cased `names`.
pub fn matches_any_name(name: &String, names: &Vec<String>) -> (r: bool)
    ensures
        r == exists|i: int|
            0 <= i < names@.len() && lowercase(#[trigger] texts(names@)[i])
                == lowercase(name@),
{
    let lower = to_lowercase(name.as_str());
    let lowered = lowercase_all(names);
    let r = is_among(&lower, &lowered);
    proof {
        if r {
            let i = choose|i: int| 0 <= i < lowered@.len() && (#[trigger] lowered@[i])@ == lower@;
            assert(texts(names@)[i] == names@[i]@);
        }
        assert forall|i: int| 0 <= i < names@.len() && lowercase(#[trigger] texts(names@)[i]) == lowercase(name@)
            implies r by {
            assert(texts(names@)[i] == names@[i]@);
            assert(lowered@[i]@ == lower@);
        }
    }
    r
}

/// The position of the first folder in `entries` whose name matches one of
/// `names` ignoring case, if any.
pub fn find_child_directory(entries: &Vec<EntryInfo>, names: &Vec<String>) -> (r: Option<usize>)
    ensures
        match r {
            Some(i) => i < entries@.len() && first_child_matching(
                entries_view(entries@),
                texts(names@),
            ) == Some(entries@[i as int]@),
            None => first_child_matching(entries_view(entries@), texts(names@)) is None,
        },
{
    let ghost nv = texts(names@);
    let mut i: usize = 0;
    assert(entries_view(entries@).skip(0) =~= entries_view(entries@));
    while i < entries.len()
        invariant
            i <= entries@.len(),
            nv == texts(names@),
            first_child_matching(entries_view(entries@), nv) == first_child_matching(
                entries_view(entries@).skip(i as int),
                nv,
            ),
        decreases entries@.len() - i,
    {
        let ghost rest = entries_view(entries@).skip(i as int);
        assert(rest[0] == entries@[i as int]@);
        assert(rest.drop_first() =~= entries_view(entries@).skip(i + 1));
        if entries[i].is_dir && matches_any_name(&entries[i].name, names) {
            return Some(i);
        }
        i = i + 1;
    }
    None
}

/// The folder names looked for at each level on the way from the drive
/// root to the shared `PACK` folder.
pub open spec fn chain_names(stage: int) -> Seq<Seq<char>> {
    if stage == 0 {
        seq!["Drives compartilhados"@, "Drivers compartilhados"@, "Drive compartilhado"@, "Shared drives"@]
    } else if stage == 1 {
        seq!["CONTROLE DE PROPRIEDADES DE TERCEIROS"@]
    } else if stage == 2 {
        seq!["IMPLANTAÇÃO"@]
    } else {
        seq!["PACK"@]
    }
}

proof fn lemma_first_child_found(es: Seq<EntryView>, names: Seq<Seq<char>>, j: int, k: int)
    requires
        0 <= j < es.len(),
        es[j].is_dir,
        0 <= k < names.len(),
        lowercase(names[k]) == lowercase(es[j].name),
    ensures
        first_child_matching(es, names) is Some,
    decreases j,
{
    if j == 0 {
        assert(0 <= k < names.len() && lowercase(names[k]) == lowercase(es[0].name));
    } else if !(es[0].is_dir && exists|i: int|
        0 <= i < names.len() && lowercase(#[trigger] names[i]) == lowercase(es[0].name)) {
        assert(es.drop_first()[j - 1] == es[j]);
        lemma_first_child_found(es.drop_first(), names, j - 1, k);
    }
}

proof fn lemma_first_child_is_match(es: Seq<EntryView>, names: Seq<Seq<char>>)
    ensures
        first_child_matching(es, names) matches Some(e) ==> e.is_dir && exists|i: int|
            0 <= i < names.len() && lowercase(#[trigger] names[i]) == lowercase(e.name),
    decreases es.len(),
{
    if es.len() > 0 {
        lemma_first_child_is_match(es.drop_first(), names);
    }
}

/// Whether `label` is one of the names looked for at `stage` on the way
/// to the shared `PACK` folder: any of the four spellings of the shared
/// drives folder, then `CONTROLE DE PROPRIEDADES DE TERCEIROS`, then
/// `IMPLANTAÇÃO`, then `PACK`.
pub open spec fn is_chain_label(stage: int, label: Seq<char>) -> bool {
    ||| stage == 0 && (label == "Drives compartilhados"@ || label == "Drivers compartilhados"@ || label
        == "Drive compartilhado"@ || label == "Shared drives"@)
    ||| stage == 1 && label == "CONTROLE DE PROPRIEDADES DE TERCEIROS"@
    ||| stage == 2 && label == "IMPLANTAÇÃO"@
    ||| stage == 3 && label == "PACK"@
}

/// At each stage the search goes down into a listed folder named, ignoring
/// case, like one of that stage's labels whenever the listing holds one,
/// and the folder it goes down into always is named so.
pub proof fn lemma_chain_folder_found(stage: int, es: Seq<EntryView>, j: int, label: Seq<char>)
    requires
        0 <= stage < 4,
        0 <= j < es.len(),
        es[j].is_dir,
        is_chain_label(stage, label),
        lowercase(es[j].name) == lowercase(label),
    ensures
        first_child_matching(es, chain_names(stage)) matches Some(e) && e.is_dir && exists|l: Seq<char>|
            is_chain_label(stage, l) && lowercase(l) == lowercase(e.name),
{
    let names = chain_names(stage);
    let k: int = if stage == 0 {
        if label == "Drives compartilhados"@ {
            0
        } else if label == "Drivers compartilhados"@ {
            1
        } else if label == "Drive compartilhado"@ {
            2
        } else {
            3
        }
    } else {
        0
    };
    assert(names[k] == label);
    lemma_first_child_found(es, names, j, k);
    lemma_chain_folder_is_named(stage, es);
}

/// The folder the search goes down into at a stage is a folder named,
/// ignoring case, like one of that stage's labels.
pub proof fn lemma_chain_folder_is_named(stage: int, es: Seq<EntryView>)
    requires
        0 <= stage < 4,
    ensures
        first_child_matching(es, chain_names(stage)) matches Some(e) ==> e.is_dir && exists|l: Seq<char>|
            is_chain_label(stage, l) && lowercase(l) == lowercase(e.name),
{
    let names = chain_names(stage);
    lemma_first_child_is_match(es, names);
    if let Some(e) = first_child_matching(es, names) {
        let i = choose|i: int| 0 <= i < names.len() && lowercase(#[trigger] names[i]) == lowercase(e.name);
        assert(is_chain_label(stage, names[i]));
    }
}

fn strings_of(v: &[&str]) -> (r: Vec<String>)
    ensures
        r@.len() == v@.len(),
        forall|i: int| 0 <= i < v@.len() ==> (#[trigger] r@[i])@ == v@[i]@,
{
    let mut r: Vec<String> = Vec::new();
    let mut i: usize = 0;
    while i < v.len()
        invariant
            i <= v@.len(),
            r@.len() == i,
            forall|j: int| 0 <= j < i ==> (#[trigger] r@[j])@ == v@[j]@,
        decreases v@.len() - i,
    {
        r.push(String::from_str(v[i]));
        i = i + 1;
    }
    r
}

fn chain_name_list(stage: u8) -> (r: Vec<String>)
    requires
        stage < 4,
    ensures
        texts(r@) == chain_names(stage as int),
{
    let r = if stage == 0 {
        strings_of(&["Drives compartilhados", "Drivers compartilhados", "Drive compartilhado", "Shared drives"])
    } else if stage == 1 {
        strings_of(&["CONTROLE DE PROPRIEDADES DE TERCEIROS"])
    } else if stage == 2 {
        strings_of(&["IMPLANTAÇÃO"])
    } else {
        strings_of(&["PACK"])
    };
    assert(texts(r@) =~= chain_names(stage as int));
    r
}

/// What the quick-destination search asks for next: the listing of a
/// folder, or nothing more because the destinations are known.
pub enum QuickAction {
    List(PathValue),
    Done(QuickDestinations),
}

/// The action asks for the listing of `p`.
pub open spec fn lists(action: QuickAction, p: PathView) -> bool {
    action matches QuickAction::List(x) && x@ == p
}

/// The destinations built from the listing `es` of the base folder `base`.
pub open spec fn is_quick_result(q: QuickDestinations, base: PathView, es: Seq<EntryView>) -> bool {
    &&& sorted_choices(unsorted_choices(base, es), choices_view(q.directories@))
    &&& q.directories@.len() >= 1
    &&& q.default_path@ == q.directories@[0].path@
}

/// The action ends the search with the destinations built from `es`.
pub open spec fn finishes_with(action: QuickAction, base: PathView, es: Seq<EntryView>) -> bool {
    action matches QuickAction::Done(q) && is_quick_result(q, base, es)
}

/// The search for the folder whose children are offered as quick
/// destinations. Stages 0 to 3 walk from the drive root towards the shared
/// `PACK` folder; stage 4 lists the chosen base folder (the `PACK` folder,
/// or else the personal-drive folder); stage 5 is done.
pub struct QuickDestinationSearch {
    root: PathValue,
    personal: PathValue,
    stage: u8,
    current: PathValue,
}

/// The mathematical value of a [`QuickDestinationSearch`].
pub struct SearchView {
    pub root: PathView,
    pub personal: PathView,
    pub stage: nat,
    pub current: PathView,
}

impl View for QuickDestinationSearch {
    type V = SearchView;

    closed spec fn view(&self) -> SearchView {
        SearchView {
            root: self.root@,
            personal: self.personal@,
            stage: self.stage as nat,
            current: self.current@,
        }
    }
}


impl QuickDestinationSearch {
    /// Starts at the canonical drive root, given the probes of
    /// `root/Meu Drive` and `root/My Drive` (used when the shared `PACK`
    /// folder is not found); the root is listed first.
    pub fn new(root: &PathValue, personal_probes: &Vec<FolderProbe>) -> (r: (Self, PathValue))
        ensures
            r.0@.stage == 0,
            r.0@.root == root@,
            r.0@.personal == personal_drive_folder(root@, probes_view(personal_probes@)),
            r.0@.current == root@,
            r.1@ == root@,
    {
        let s = QuickDestinationSearch {
            root: copy_path(root),
            personal: personal_drive_path(root, personal_probes),
            stage: 0,
            current: copy_path(root),
        };
        (s, copy_path(root))
    }

    /// Whether the search has finished.
    pub fn is_done(&self) -> (r: bool)
        ensures
            r == (self@.stage >= 5),
    {
        self.stage >= 5
    }

    /// Takes the listing of the folder last asked for and says what to do
    /// next. From stage `k < 4`, a matching child of the listed folder is
    /// listed at stage `k + 1`; when there is none, the personal-drive
    /// folder found at the start is listed at stage 4. At stage 4 the listing is that of the
    /// base, and the destinations are built from it.
    pub fn step(&mut self, listing: &Vec<EntryInfo>) -> (action: QuickAction)
        requires
            old(self)@.stage <= 4,
        ensures
            final(self)@.stage > old(self)@.stage,
            final(self)@.root == old(self)@.root,
            final(self)@.personal == old(self)@.personal,
            old(self)@.stage < 4 ==> match first_child_matching(
                entries_view(listing@),
                chain_names(old(self)@.stage as int),
            ) {
                Some(e) => final(self)@.stage == old(self)@.stage + 1 && final(self)@.current == e.path
                    && lists(action, e.path),
                None => final(self)@.stage == 4 && final(self)@.current == old(self)@.personal
                    && lists(action, final(self)@.current),
            },
            old(self)@.stage == 4 ==> final(self)@.stage == 5 && finishes_with(
                action,
                old(self)@.current,
                entries_view(listing@),
            ),
    {
        if self.stage < 4 {
            let names = chain_name_list(self.stage);
            match find_child_directory(listing, &names) {
                Some(i) => {
                    self.stage = self.stage + 1;
                    self.current = copy_path(&listing[i].path);
                    QuickAction::List(copy_path(&listing[i].path))
                },
                None => {
                    let base = copy_path(&self.personal);
                    self.stage = 4;
                    self.current = copy_path(&base);
                    QuickAction::List(base)
                },
            }
        } else {
            self.stage = 5;
            QuickAction::Done(build_quick_destinations(&self.current, listing))
        }
    }
}

} // verus!

verus! {

/// A listed entry with the metadata a listing needs.
#[derive(Clone, Debug)]
pub struct EntryMeta {
    pub path: String,
    pub name: String,
    pub is_dir: bool,
    pub is_file: bool,
    pub len: u64,
    pub modified_at: Option<u64>,
}

/// An entry of a browsed folder as shown to the user.
#[derive(Clone, Debug)]
pub struct DirectoryItem {
    pub path: String,
    pub name: String,
    pub is_dir: bool,
    pub size: u64,
    pub modified_at: Option<u64>,
}

/// The mathematical value of an [`EntryMeta`].
pub struct MetaView {
    pub path: Seq<char>,
    pub name: Seq<char>,
    pub is_dir: bool,
    pub is_file: bool,
    pub len: u64,
    pub modified_at: Option<u64>,
}

/// The mathematical value of a [`DirectoryItem`].
pub struct ItemView {
    pub path: Seq<char>,
    pub name: Seq<char>,
    pub is_dir: bool,
    pub size: u64,
    pub modified_at: Option<u64>,
}

impl View for EntryMeta {
    type V = MetaView;

    open spec fn view(&self) -> MetaView {
        MetaView {
            path: self.path@,
            name: self.name@,
            is_dir: self.is_dir,
            is_file: self.is_file,
            len: self.len,
            modified_at: self.modified_at,
        }
    }
}

impl View for DirectoryItem {
    type V = ItemView;

    open spec fn view(&self) -> ItemView {
        ItemView {
            path: self.path@,
            name: self.name@,
            is_dir: self.is_dir,
            size: self.size,
            modified_at: self.modified_at,
        }
    }
}

pub open spec fn metas_view(v: Seq<EntryMeta>) -> Seq<MetaView> {
    v.map_values(|m: EntryMeta| m@)
}

pub open spec fn items_view(v: Seq<DirectoryItem>) -> Seq<ItemView> {
    v.map_values(|m: DirectoryItem| m@)
}

/// The item shown for an entry: files show their length, other entries 0.
pub open spec fn item_of(m: MetaView) -> ItemView {
    ItemView {
        path: m.path,
        name: m.name,
        is_dir: m.is_dir,
        size: if m.is_file { m.len } else { 0 },
        modified_at: m.modified_at,
    }
}

/// The items shown: folders always, other entries only when files are
/// shown; in listing order.
pub open spec fn shown_items(ms: Seq<MetaView>, show_files: bool) -> Seq<ItemView> {
    ms.filter(|m: MetaView| m.is_dir || show_files).map_values(|m: MetaView| item_of(m))
}

/// Sort keys of items: folders first, then by lower-cased name.
pub open spec fn item_keys(items: Seq<ItemView>) -> Seq<(bool, Seq<char>)> {
    items.map_values(|i: ItemView| (!i.is_dir, lowercase(i.name)))
}

/// `out` is `items` sorted stably with folders first, then by lower-cased
/// name.
pub open spec fn sorted_items(items: Seq<ItemView>, out: Seq<ItemView>) -> bool {
    exists|order: Seq<usize>|
        is_stable_order(item_keys(items), order) && out == order.map_values(|i: usize| items[i as int])
}

fn copy_item(m: &DirectoryItem) -> (r: DirectoryItem)
    ensures
        r@ == m@,
{
    DirectoryItem {
        path: m.path.clone(),
        name: m.name.clone(),
        is_dir: m.is_dir,
        size: m.size,
        modified_at: m.modified_at,
    }
}

/// The contents of a browsed folder as shown: folders, and files when
/// asked for, folders first and then by lower-cased name, listing order
/// kept between equal keys.
pub fn list_directory_items(entries: &Vec<EntryMeta>, show_files: bool) -> (r: Vec<DirectoryItem>)
    ensures
        sorted_items(shown_items(metas_view(entries@), show_files), items_view(r@)),
{
    let ghost ms = metas_view(entries@);
    let mut shown: Vec<DirectoryItem> = Vec::new();
    let mut i: usize = 0;
    while i < entries.len()
        invariant
            i <= entries@.len(),
            ms == metas_view(entries@),
            items_view(shown@) == shown_items(ms.take(i as int), show_files),
        decreases entries@.len() - i,
    {
        let m = &entries[i];
        proof {
            assert(ms.take(i + 1).drop_last() =~= ms.take(i as int));
            assert(ms.take(i + 1).last() == m@);
            reveal_with_fuel(Seq::<MetaView>::filter, 1);
            assert(ms.take(i + 1).filter(|m: MetaView| m.is_dir || show_files) == if m@.is_dir || show_files {
                ms.take(i as int).filter(|m: MetaView| m.is_dir || show_files).push(m@)
            } else {
                ms.take(i as int).filter(|m: MetaView| m.is_dir || show_files)
            });
        }
        if m.is_dir || show_files {
            let ghost before = items_view(shown@);
            shown.push(
                DirectoryItem {
                    path: m.path.clone(),
                    name: m.name.clone(),
                    is_dir: m.is_dir,
                    size: if m.is_file { m.len } else { 0 },
                    modified_at: m.modified_at,
                },
            );
            assert(items_view(shown@) =~= before.push(item_of(m@)));
        }
        proof {
            assert(shown_items(ms.take(i + 1), show_files) =~= ms.take(i + 1).filter(
                |m: MetaView| m.is_dir || show_files,
            ).map_values(|m: MetaView| item_of(m)));
        }
        i = i + 1;
    }
    assert(ms.take(entries@.len() as int) =~= ms);
    let ghost items = items_view(shown@);
    let mut keys: Vec<SortKey> = Vec::new();
    let mut k: usize = 0;
    while k < shown.len()
        invariant
            k <= shown@.len(),
            items == items_view(shown@),
            keys@.map_values(|x: SortKey| key_of(x)) == item_keys(items).take(k as int),
        decreases shown@.len() - k,
    {
        let lower = to_lowercase(shown[k].name.as_str());
        let ghost before = keys@.map_values(|x: SortKey| key_of(x));
        keys.push(SortKey { group: !shown[k].is_dir, text: chars_of(lower.as_str()) });
        assert(items[k as int] == shown@[k as int]@);
        assert(keys@.map_values(|x: SortKey| key_of(x)) =~= before.push(
            (!items[k as int].is_dir, lowercase(items[k as int].name)),
        ));
        assert(keys@.map_values(|x: SortKey| key_of(x)) =~= item_keys(items).take(k + 1));
        k = k + 1;
    }
    assert(item_keys(items).take(shown@.len() as int) =~= item_keys(items));
    let order = stable_order(&keys);
    let mut r: Vec<DirectoryItem> = Vec::new();
    let mut j: usize = 0;
    while j < order.len()
        invariant
            j <= order@.len(),
            items == items_view(shown@),
            is_stable_order(item_keys(items), order@),
            items_view(r@) == order@.take(j as int).map_values(|x: usize| items[x as int]),
        decreases order@.len() - j,
    {
        let ghost before = items_view(r@);
        let idx = order[j];
        assert(idx < items.len());
        r.push(copy_item(&shown[idx]));
        assert(items[idx as int] == shown@[idx as int]@);
        assert(items_view(r@) =~= before.push(items[idx as int]));
        assert(items_view(r@) =~= order@.take(j + 1).map_values(|x: usize| items[x as int]));
        j = j + 1;
    }
    assert(order@.take(order@.len() as int) =~= order@);
    r
}

} // verus!

verus! {

/// The quick destinations are determined by the listing: two results that
/// meet the contract of [`build_quick_destinations`] are the same list.
pub proof fn lemma_quick_destinations_determined(
    base: PathView,
    es: Seq<EntryView>,
    out1: Seq<ChoiceView>,
    out2: Seq<ChoiceView>,
)
    requires
        sorted_choices(unsorted_choices(base, es), out1),
        sorted_choices(unsorted_choices(base, es), out2),
    ensures
        out1 == out2,
{
    let cs = unsorted_choices(base, es);
    let o1 = choose|order: Seq<usize>|
        is_stable_order(choice_keys(cs), order) && out1 == order.map_values(|i: usize| cs[i as int]);
    let o2 = choose|order: Seq<usize>|
        is_stable_order(choice_keys(cs), order) && out2 == order.map_values(|i: usize| cs[i as int]);
    crate::order::lemma_stable_order_unique(choice_keys(cs), o1, o2);
}

/// Every destination offered is one of the candidates: a visible child
/// folder of the base labelled by its name, or the base itself when it has
/// none (see [`unsorted_choices`]).
pub proof fn lemma_quick_destinations_are_visible_children(
    base: PathView,
    es: Seq<EntryView>,
    out: Seq<ChoiceView>,
)
    requires
        sorted_choices(unsorted_choices(base, es), out),
    ensures
        forall|i: int| 0 <= i < out.len() ==> unsorted_choices(base, es).contains(#[trigger] out[i]),
{
    let cs = unsorted_choices(base, es);
    let o = choose|order: Seq<usize>|
        is_stable_order(choice_keys(cs), order) && out == order.map_values(|i: usize| cs[i as int]);
    assert forall|i: int| 0 <= i < out.len() implies cs.contains(#[trigger] out[i]) by {
        assert(o[i] < cs.len());
        assert(out[i] == cs[o[i] as int]);
    }
}

/// The contents of a browsed folder come out in one determined order.
pub proof fn lemma_listing_determined(items: Seq<ItemView>, out1: Seq<ItemView>, out2: Seq<ItemView>)
    requires
        sorted_items(items, out1),
        sorted_items(items, out2),
    ensures
        out1 == out2,
{
    let o1 = choose|order: Seq<usize>|
        is_stable_order(item_keys(items), order) && out1 == order.map_values(|i: usize| items[i as int]);
    let o2 = choose|order: Seq<usize>|
        is_stable_order(item_keys(items), order) && out2 == order.map_values(|i: usize| items[i as int]);
    crate::order::lemma_stable_order_unique(item_keys(items), o1, o2);
}

/// In a browsed folder's contents, every folder comes before every file.
pub proof fn lemma_folders_listed_first(items: Seq<ItemView>, out: Seq<ItemView>)
    requires
        sorted_items(items, out),
    ensures
        forall|a: int, b: int|
            0 <= a < b < out.len() && !(#[trigger] out[a]).is_dir ==> !(#[trigger] out[b]).is_dir,
{
    let o = choose|order: Seq<usize>|
        is_stable_order(item_keys(items), order) && out == order.map_values(|i: usize| items[i as int]);
    assert forall|a: int, b: int|
        0 <= a < b < out.len() && !(#[trigger] out[a]).is_dir implies !(#[trigger] out[b]).is_dir by {
        let ka = item_keys(items)[o[a] as int];
        let kb = item_keys(items)[o[b] as int];
        assert(crate::order::comes_before(item_keys(items), o[a] as int, o[b] as int));
        assert(ka.0 == !out[a].is_dir);
        assert(kb.0 == !out[b].is_dir);
    }
}

} // verus!
