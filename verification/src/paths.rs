//! Paths as the library sees them: the text shown to the user and the
//! components (`std::path::Component`) that every containment check uses.

use vstd::prelude::*;
use crate::names::{name_problem, validate_windows_name};
use crate::text::{joined, joined3, lowercase, same_text, to_lowercase, utf16_len, chars_of};

verus! {

/// One component of a path, as `std::path::Path::components` yields it
/// (prefixes and normal names carried as text).
#[derive(Clone, Debug)]
pub enum PathComponent {
    Prefix(String),
    RootDir,
    CurDir,
    ParentDir,
    Normal(String),
}

/// The mathematical value of a [`PathComponent`].
pub enum ComponentView {
    Prefix(Seq<char>),
    RootDir,
    CurDir,
    ParentDir,
    Normal(Seq<char>),
}

impl View for PathComponent {
    type V = ComponentView;

    open spec fn view(&self) -> ComponentView {
        match self {
            PathComponent::Prefix(s) => ComponentView::Prefix(s@),
            PathComponent::RootDir => ComponentView::RootDir,
            PathComponent::CurDir => ComponentView::CurDir,
            PathComponent::ParentDir => ComponentView::ParentDir,
            PathComponent::Normal(s) => ComponentView::Normal(s@),
        }
    }
}

/// The component values of a component list.
pub open spec fn parts_view(v: Seq<PathComponent>) -> Seq<ComponentView> {
    v.map_values(|c: PathComponent| c@)
}

/// A path: its text (`to_string_lossy`) and its components.
#[derive(Clone, Debug)]
pub struct PathValue {
    pub text: String,
    pub components: Vec<PathComponent>,
}

/// The mathematical value of a [`PathValue`].
pub struct PathView {
    pub text: Seq<char>,
    pub parts: Seq<ComponentView>,
}

impl View for PathValue {
    type V = PathView;

    open spec fn view(&self) -> PathView {
        PathView { text: self.text@, parts: parts_view(self.components@) }
    }
}

/// A directory entry as a listing reports it: its name, its path, and
/// whether that path is a folder (following links).
#[derive(Clone, Debug)]
pub struct EntryInfo {
    pub name: String,
    pub path: PathValue,
    pub is_dir: bool,
}

/// The mathematical value of an [`EntryInfo`].
pub struct EntryView {
    pub name: Seq<char>,
    pub path: PathView,
    pub is_dir: bool,
}

impl View for EntryInfo {
    type V = EntryView;

    open spec fn view(&self) -> EntryView {
        EntryView { name: self.name@, path: self.path@, is_dir: self.is_dir }
    }
}

/// The values of a listing.
pub open spec fn entries_view(v: Seq<EntryInfo>) -> Seq<EntryView> {
    v.map_values(|e: EntryInfo| e@)
}

impl PathValue {
    /// The component values of this path.
    pub open spec fn parts(&self) -> Seq<ComponentView> {
        parts_view(self.components@)
    }
}

/// `base` is a whole-component prefix of `path` (`Path::starts_with`).
pub open spec fn is_prefix_of(base: Seq<ComponentView>, path: Seq<ComponentView>) -> bool {
    base.len() <= path.len() && path.take(base.len() as int) == base
}

/// The path holds a `..` component.
pub open spec fn has_parent(parts: Seq<ComponentView>) -> bool {
    exists|i: int| 0 <= i < parts.len() && parts[i] == ComponentView::ParentDir
}

/// The displayed text of a path.
pub fn path_text(path: &PathValue) -> (r: String)
    ensures
        r@ == path.text@,
{
    path.text.clone()
}

/// Two components are equal.
pub fn same_component(a: &PathComponent, b: &PathComponent) -> (r: bool)
    ensures
        r == (a@ == b@),
{
    match (a, b) {
        (PathComponent::Prefix(x), PathComponent::Prefix(y)) => same_text(x, y),
        (PathComponent::RootDir, PathComponent::RootDir) => true,
        (PathComponent::CurDir, PathComponent::CurDir) => true,
        (PathComponent::ParentDir, PathComponent::ParentDir) => true,
        (PathComponent::Normal(x), PathComponent::Normal(y)) => same_text(x, y),
        _ => false,
    }
}

/// `path` begins with all the components of `base`.
pub fn starts_with_components(path: &Vec<PathComponent>, base: &Vec<PathComponent>) -> (r: bool)
    ensures
        r == is_prefix_of(parts_view(base@), parts_view(path@)),
{
    if base.len() > path.len() {
        return false;
    }
    let mut i: usize = 0;
    while i < base.len()
        invariant
            base@.len() <= path@.len(),
            i <= base@.len(),
            forall|j: int| 0 <= j < i ==> path@[j]@ == base@[j]@,
        decreases base@.len() - i,
    {
        if !same_component(&path[i], &base[i]) {
            assert(parts_view(path@).take(base@.len() as int)[i as int] == path@[i as int]@);
            return false;
        }
        i = i + 1;
    }
    assert(parts_view(path@).take(base@.len() as int) =~= parts_view(base@));
    true
}

/// Both component lists are the same.
pub fn same_components(a: &Vec<PathComponent>, b: &Vec<PathComponent>) -> (r: bool)
    ensures
        r == (parts_view(a@) == parts_view(b@)),
{
    if a.len() != b.len() {
        assert(parts_view(a@).len() != parts_view(b@).len());
        return false;
    }
    let r = starts_with_components(a, b);
    assert(parts_view(a@).take(b@.len() as int) =~= parts_view(a@));
    r
}

/// Whether the path holds a `..` component.
pub fn has_parent_component(path: &PathValue) -> (r: bool)
    ensures
        r == has_parent(path.parts()),
{
    let n = path.components.len();
    let mut i: usize = 0;
    while i < n
        invariant
            i <= n == path.components@.len(),
            forall|j: int| 0 <= j < i ==> path.parts()[j] != ComponentView::ParentDir,
        decreases n - i,
    {
        if let PathComponent::ParentDir = &path.components[i] {
            assert(path.parts()[i as int] == ComponentView::ParentDir);
            return true;
        }
        i = i + 1;
    }
    false
}

/// The message for a path that cannot be resolved.
pub open spec fn unreachable_message(requested: Seq<char>, error: Seq<char>) -> Seq<char> {
    "Não foi possível acessar "@ + requested + ": "@ + error
}

/// The message for a path that resolves to something other than a folder.
pub open spec fn not_a_folder_message(requested: Seq<char>) -> Seq<char> {
    requested + " não é uma pasta."@
}

/// Turns the outcome of resolving `requested` (its canonical form and
/// whether that is a folder, or the error text) into the canonical folder,
/// or the message the user sees.
pub fn canonical_directory(requested: &str, resolved: Result<(PathValue, bool), String>) -> (r:
    Result<PathValue, String>)
    ensures
        match resolved {
            Err(e) => r matches Err(m) && m@ == unreachable_message(requested@, e@),
            Ok((p, is_dir)) => if is_dir {
                r == Ok::<PathValue, String>(p)
            } else {
                r matches Err(m) && m@ == not_a_folder_message(requested@)
            },
        },
{
    match resolved {
        Err(e) => {
            let head = joined("Não foi possível acessar ", requested);
            Err(joined3(head.as_str(), ": ", e.as_str()))
        },
        Ok((p, is_dir)) => {
            if is_dir {
                Ok(p)
            } else {
                Err(joined(requested, " não é uma pasta."))
            }
        },
    }
}

/// The message for a candidate outside the allowed folder.
pub open spec fn outside_message() -> Seq<char> {
    "O caminho selecionado está fora da pasta permitida."@
}

/// Given the canonical allowed root and the canonical candidate (or the
/// messages of their failures), returns both when the candidate lies in the
/// root: the root's failure first, then the candidate's, then containment.
pub fn ensure_inside(root: Result<PathValue, String>, candidate: Result<PathValue, String>) -> (r:
    Result<(PathValue, PathValue), String>)
    ensures
        match (root, candidate) {
            (Err(e), _) => r == Err::<(PathValue, PathValue), String>(e),
            (Ok(_), Err(e)) => r == Err::<(PathValue, PathValue), String>(e),
            (Ok(a), Ok(b)) => if is_prefix_of(a.parts(), b.parts()) {
                r == Ok::<(PathValue, PathValue), String>((a, b))
            } else {
                r matches Err(m) && m@ == outside_message()
            },
        },
{
    let root = match root {
        Err(e) => return Err(e),
        Ok(p) => p,
    };
    let candidate = match candidate {
        Err(e) => return Err(e),
        Ok(p) => p,
    };
    if starts_with_components(&candidate.components, &root.components) {
        Ok((root, candidate))
    } else {
        Err(String::from_str("O caminho selecionado está fora da pasta permitida."))
    }
}

/// The longest path (in UTF-16 units) written on Windows without risk.
pub const WINDOWS_SAFE_PATH_LENGTH: usize = 240;

/// On Windows, whether the path text needs more than 240 UTF-16 units;
/// elsewhere never.
pub fn exceeds_safe_path_length(text: &str, on_windows: bool) -> (r: bool)
    ensures
        r == (on_windows && utf16_len(text@) > 240),
{
    if !on_windows {
        return false;
    }
    let v = chars_of(text);
    let n = v.len();
    let mut count: usize = 0;
    let mut i: usize = 0;
    while i < n
        invariant
            i <= n == v@.len(),
            v@ == text@,
            on_windows,
            count == utf16_len(v@.take(i as int)),
            count <= 240,
        decreases n - i,
    {
        let w: usize = if (v[i] as u32) >= 0x10000 { 2 } else { 1 };
        assert(v@.take(i + 1).drop_last() =~= v@.take(i as int));
        assert(v@.take(i + 1).last() == v@[i as int]);
        assert(utf16_len(v@.take(i + 1)) == count + w);
        count = count + w;
        i = i + 1;
        if count > 240 {
            proof { lemma_utf16_len_monotone(v@, i as int); }
            return true;
        }
    }
    assert(v@.take(n as int) =~= v@);
    false
}

proof fn lemma_utf16_len_monotone(s: Seq<char>, i: int)
    requires
        0 <= i <= s.len(),
    ensures
        utf16_len(s.take(i)) <= utf16_len(s),
    decreases s.len() - i,
{
    if i < s.len() {
        lemma_utf16_len_monotone(s, i + 1);
        assert(s.take(i + 1).drop_last() =~= s.take(i));
    } else {
        assert(s.take(i) =~= s);
    }
}

} // verus!

verus! {

/// Folder names of the Drive layout itself (lower case), which the user
/// may not delete when they sit directly under the drive root.
pub open spec fn protected_names() -> Seq<Seq<char>> {
    seq![
        "meu drive"@,
        "my drive"@,
        "outros computadores"@,
        "other computers"@,
        "drive compartilhado"@,
        "drives compartilhados"@,
        "drivers compartilhados"@,
        "shared drives"@,
    ]
}

/// Whether `name` (in lower case) is the name of one of the Drive's own
/// top-level folders, Portuguese or English.
pub open spec fn is_drive_folder_name(name: Seq<char>) -> bool {
    ||| name == "meu drive"@
    ||| name == "my drive"@
    ||| name == "outros computadores"@
    ||| name == "other computers"@
    ||| name == "drive compartilhado"@
    ||| name == "drives compartilhados"@
    ||| name == "drivers compartilhados"@
    ||| name == "shared drives"@
}

/// The protected names are exactly the eight Drive folder names; a folder
/// directly under the drive root is refused as part of the Drive's
/// structure exactly when its lower-cased name is one of them, and any
/// other folder there may be deleted.
pub proof fn lemma_drive_structure_protected(root: Seq<ComponentView>, name: Seq<char>)
    ensures
        forall|x: Seq<char>| protected_names().contains(x) <==> is_drive_folder_name(x),
        deletion_refusal(root, root.push(ComponentView::Normal(name))) == if is_drive_folder_name(
            lowercase(name),
        ) {
            Some(DeletionRefusal::DriveStructure)
        } else {
            None
        },
{
    let l = protected_names();
    assert forall|x: Seq<char>| l.contains(x) <==> is_drive_folder_name(x) by {
        if l.contains(x) {
            let k = choose|k: int| 0 <= k < l.len() && l[k] == x;
            assert(is_drive_folder_name(l[k]));
        }
        if is_drive_folder_name(x) {
            if x == "meu drive"@ {
                assert(l[0] == x);
            } else if x == "my drive"@ {
                assert(l[1] == x);
            } else if x == "outros computadores"@ {
                assert(l[2] == x);
            } else if x == "other computers"@ {
                assert(l[3] == x);
            } else if x == "drive compartilhado"@ {
                assert(l[4] == x);
            } else if x == "drives compartilhados"@ {
                assert(l[5] == x);
            } else if x == "drivers compartilhados"@ {
                assert(l[6] == x);
            } else {
                assert(l[7] == x);
            }
        }
    }
    let target = root.push(ComponentView::Normal(name));
    assert(target.len() != root.len());
    assert(target.take(root.len() as int) =~= root);
    assert(component_name(target.last()) == name);
}

/// Why a deletion is refused.
#[derive(Clone, Copy, Debug, PartialEq, Eq, Structural)]
pub enum DeletionRefusal {
    /// The target is the drive root itself.
    DriveRoot,
    /// The target lies outside the drive root.
    Outside,
    /// The target is one of the Drive's own top-level folders.
    DriveStructure,
}

/// The text `Path::file_name` gives for a single-component relative path
/// (empty when that component is not a name).
pub open spec fn component_name(c: ComponentView) -> Seq<char> {
    match c {
        ComponentView::Normal(s) => s,
        _ => Seq::empty(),
    }
}

/// Whether and why deleting `target` under the drive root `root` is refused
/// (both canonical).
pub open spec fn deletion_refusal(root: Seq<ComponentView>, target: Seq<ComponentView>) -> Option<
    DeletionRefusal,
> {
    if target == root {
        Some(DeletionRefusal::DriveRoot)
    } else if !is_prefix_of(root, target) {
        Some(DeletionRefusal::Outside)
    } else if target.len() == root.len() + 1 && protected_names().contains(
        lowercase(component_name(target.last())),
    ) {
        Some(DeletionRefusal::DriveStructure)
    } else {
        None
    }
}

pub open spec fn refusal_message(r: DeletionRefusal) -> Seq<char> {
    match r {
        DeletionRefusal::DriveRoot => "A raiz do Google Drive não pode ser excluída."@,
        DeletionRefusal::Outside => "O item está fora do Google Drive configurado."@,
        DeletionRefusal::DriveStructure => "Essa pasta faz parte da estrutura do Google Drive."@,
    }
}

impl DeletionRefusal {
    pub fn message(&self) -> (m: String)
        ensures
            m@ == refusal_message(*self),
    {
        match self {
            DeletionRefusal::DriveRoot => String::from_str(
                "A raiz do Google Drive não pode ser excluída.",
            ),
            DeletionRefusal::Outside => String::from_str(
                "O item está fora do Google Drive configurado.",
            ),
            DeletionRefusal::DriveStructure => String::from_str(
                "Essa pasta faz parte da estrutura do Google Drive.",
            ),
        }
    }
}

/// Whether `s` (a name already in lower case) is one of the protected
/// folder names.
pub fn is_protected_name(s: &String) -> (r: bool)
    ensures
        r == protected_names().contains(s@),
{
    let names = [
        "meu drive",
        "my drive",
        "outros computadores",
        "other computers",
        "drive compartilhado",
        "drives compartilhados",
        "drivers compartilhados",
        "shared drives",
    ];
    let mut i: usize = 0;
    while i < 8
        invariant
            i <= 8,
            names@.len() == 8,
            forall|j: int| 0 <= j < 8 ==> (#[trigger] names@[j])@ == protected_names()[j],
            forall|j: int| 0 <= j < i ==> protected_names()[j] != s@,
        decreases 8 - i,
    {
        let candidate = String::from_str(names[i]);
        if same_text(&candidate, s) {
            assert(protected_names()[i as int] == s@);
            return true;
        }
        i = i + 1;
    }
    false
}

/// Checks that `target` may be deleted under the drive root `root` (both
/// canonical): not the root, inside it, and not a top-level folder of the
/// Drive layout.
pub fn check_deletion(root: &PathValue, target: &PathValue) -> (r: Option<DeletionRefusal>)
    ensures
        r == deletion_refusal(root.parts(), target.parts()),
{
    if same_components(&target.components, &root.components) {
        return Some(DeletionRefusal::DriveRoot);
    }
    if !starts_with_components(&target.components, &root.components) {
        return Some(DeletionRefusal::Outside);
    }
    if target.components.len() > 0 && target.components.len() - 1 == root.components.len() {
        let last = &target.components[target.components.len() - 1];
        let name = match last {
            PathComponent::Normal(s) => to_lowercase(s.as_str()),
            _ => to_lowercase(""),
        };
        proof {
            assert(target.parts().last() == last@);
            assert(""@ == Seq::<char>::empty()) by {
                reveal_strlit("");
            }
        }
        if is_protected_name(&name) {
            return Some(DeletionRefusal::DriveStructure);
        }
    }
    None
}

} // verus!

verus! {

/// A copy of a component.
pub fn copy_component(c: &PathComponent) -> (d: PathComponent)
    ensures
        d@ == c@,
{
    match c {
        PathComponent::Prefix(s) => PathComponent::Prefix(s.clone()),
        PathComponent::RootDir => PathComponent::RootDir,
        PathComponent::CurDir => PathComponent::CurDir,
        PathComponent::ParentDir => PathComponent::ParentDir,
        PathComponent::Normal(s) => PathComponent::Normal(s.clone()),
    }
}

/// A copy of a component list.
pub fn copy_components(v: &Vec<PathComponent>) -> (r: Vec<PathComponent>)
    ensures
        parts_view(r@) == parts_view(v@),
{
    let mut r: Vec<PathComponent> = Vec::new();
    let mut i: usize = 0;
    while i < v.len()
        invariant
            i <= v@.len(),
            r@.len() == i,
            forall|j: int| 0 <= j < i ==> (#[trigger] r@[j])@ == v@[j]@,
        decreases v@.len() - i,
    {
        r.push(copy_component(&v[i]));
        i = i + 1;
    }
    assert(parts_view(r@) =~= parts_view(v@)) by {
        assert forall|j: int| 0 <= j < r@.len() implies parts_view(r@)[j] == parts_view(v@)[j] by {
            assert(r@[j]@ == v@[j]@);
        }
    }
    r
}

/// A copy of a path value.
pub fn copy_path(p: &PathValue) -> (r: PathValue)
    ensures
        r@ == p@,
{
    PathValue { text: p.text.clone(), components: copy_components(&p.components) }
}

/// The components of `parent` followed by the single name `name`
/// (what `Path::join` gives for a name free of separators).
pub fn child_components(parent: &Vec<PathComponent>, name: &String) -> (r: Vec<PathComponent>)
    ensures
        parts_view(r@) == parts_view(parent@).push(ComponentView::Normal(name@)),
{
    let mut r = copy_components(parent);
    let ghost before = parts_view(r@);
    r.push(PathComponent::Normal(name.clone()));
    assert(parts_view(r@) =~= before.push(ComponentView::Normal(name@)));
    r
}

/// The name of the folder made inside each attendance folder for the files
/// being sent.
pub open spec fn collection_folder() -> Seq<char> {
    "Coleta"@
}

/// The optional sibling of the collection folder.
pub open spec fn send_folder() -> Seq<char> {
    "Envio"@
}

/// What to create for a destination: the attendance folder to add under
/// the chosen parent (if any), the folders to create inside the target, and
/// the folder inside the target that receives the files (if any).
pub struct DestinationPlan {
    pub folder: Option<String>,
    pub subfolders: Vec<String>,
    pub destination_subfolder: Option<String>,
}

/// The plan for an attendance folder `name`: create it, create the
/// collection folder (and the send folder when asked) inside, and send the
/// files to the collection folder.
pub open spec fn is_attendance_plan(plan: DestinationPlan, name: Seq<char>, create_envio: bool) -> bool {
    &&& plan.folder matches Some(f) && f@ == name
    &&& plan.subfolders@.len() == (if create_envio { 2int } else { 1int })
    &&& plan.subfolders@[0]@ == collection_folder()
    &&& create_envio ==> plan.subfolders@[1]@ == send_folder()
    &&& plan.destination_subfolder matches Some(d) && d@ == collection_folder()
}

/// The plan that sends the files to the chosen folder itself.
pub open spec fn is_plain_plan(plan: DestinationPlan) -> bool {
    &&& plan.folder is None
    &&& plan.subfolders@.len() == 0
    &&& plan.destination_subfolder is None
}

pub open spec fn destination_outside_message() -> Seq<char> {
    "O destino está fora da pasta permitida."@
}

/// Plans a destination under the canonical `(root, parent)` pair that
/// `ensure_inside` gave (or its message). With an attendance folder name,
/// the name must be valid; the target is then that folder with a
/// collection folder inside (and a send folder beside it when asked), and
/// the files go to the collection folder. Without one, the parent itself
/// receives the files.
pub fn plan_destination(
    inside: Result<(PathValue, PathValue), String>,
    folder_name: Option<String>,
    create_envio: bool,
) -> (r: Result<DestinationPlan, String>)
    ensures
        match inside {
            Err(e) => r == Err::<DestinationPlan, String>(e),
            Ok((root, parent)) => match folder_name {
                Some(name) => match name_problem(name@) {
                    Some(p) => r matches Err(m) && m@ == crate::names::problem_message(p),
                    None => {
                        let target = parent.parts().push(ComponentView::Normal(name@));
                        if !is_prefix_of(root.parts(), target) || has_parent(target) {
                            r matches Err(m) && m@ == destination_outside_message()
                        } else {
                            r matches Ok(plan) && is_attendance_plan(plan, name@, create_envio)
                        }
                    },
                },
                None => if !is_prefix_of(root.parts(), parent.parts()) || has_parent(parent.parts()) {
                    r matches Err(m) && m@ == destination_outside_message()
                } else {
                    r matches Ok(plan) && is_plain_plan(plan)
                },
            },
        },
{
    let (root, parent) = match inside {
        Err(e) => return Err(e),
        Ok(pair) => pair,
    };
    let target = match &folder_name {
        Some(name) => {
            match validate_windows_name(name.as_str()) {
                Err(m) => return Err(m),
                Ok(()) => {},
            }
            PathValue { text: parent.text.clone(), components: child_components(&parent.components, name) }
        },
        None => parent,
    };
    if !starts_with_components(&target.components, &root.components) || has_parent_component(
        &target,
    ) {
        return Err(String::from_str("O destino está fora da pasta permitida."));
    }
    match folder_name {
        Some(name) => {
            let mut subfolders: Vec<String> = Vec::new();
            subfolders.push(String::from_str("Coleta"));
            if create_envio {
                subfolders.push(String::from_str("Envio"));
            }
            Ok(
                DestinationPlan {
                    folder: Some(name),
                    subfolders,
                    destination_subfolder: Some(String::from_str("Coleta")),
                },
            )
        },
        None => Ok(DestinationPlan { folder: None, subfolders: Vec::new(), destination_subfolder: None }),
    }
}

pub open spec fn disallowed_path_message() -> Seq<char> {
    "O caminho informado não é permitido."@
}

/// Decides the name of a new folder inside a browsed folder: the name's own
/// validity first, then the `(root, parent)` pair from `ensure_inside`,
/// then that the new path holds no `..`. Gives the trimmed name to create.
pub fn plan_new_directory(name: &str, inside: Result<(PathValue, PathValue), String>) -> (r:
    Result<String, String>)
    ensures
        match name_problem(name@) {
            Some(p) => r matches Err(m) && m@ == crate::names::problem_message(p),
            None => match inside {
                Err(e) => r == Err::<String, String>(e),
                Ok((_, parent)) => {
                    let target = parent.parts().push(
                        ComponentView::Normal(crate::text::trim(name@)),
                    );
                    if has_parent(target) {
                        r matches Err(m) && m@ == disallowed_path_message()
                    } else {
                        r matches Ok(t) && t@ == crate::text::trim(name@)
                    }
                },
            },
        },
{
    match validate_windows_name(name) {
        Err(m) => return Err(m),
        Ok(()) => {},
    }
    let (_, parent) = match inside {
        Err(e) => return Err(e),
        Ok(pair) => pair,
    };
    let trimmed = crate::text::trim_string(name);
    let target = PathValue {
        text: parent.text.clone(),
        components: child_components(&parent.components, &trimmed),
    };
    if has_parent_component(&target) {
        return Err(String::from_str("O caminho informado não é permitido."));
    }
    Ok(trimmed)
}

} // verus!

verus! {

/// A destination made by adding an accepted folder name to a folder inside
/// the allowed root stays inside that root and holds no `..`.
pub proof fn lemma_accepted_destination_stays_inside(
    root: Seq<ComponentView>,
    parent: Seq<ComponentView>,
    name: Seq<char>,
)
    requires
        is_prefix_of(root, parent),
        !has_parent(parent),
        name_problem(name) is None,
    ensures
        is_prefix_of(root, parent.push(ComponentView::Normal(name))),
        !has_parent(parent.push(ComponentView::Normal(name))),
{
    let target = parent.push(ComponentView::Normal(name));
    assert(target.take(root.len() as int) =~= parent.take(root.len() as int));
    assert forall|i: int| 0 <= i < target.len() implies target[i] != ComponentView::ParentDir by {
        if i < parent.len() {
            assert(target[i] == parent[i]);
        }
    }
}

/// The drive root itself can never be deleted, nor anything outside it.
pub proof fn lemma_root_and_outside_never_deleted(root: Seq<ComponentView>, target: Seq<ComponentView>)
    ensures
        deletion_refusal(root, root) == Some(DeletionRefusal::DriveRoot),
        !is_prefix_of(root, target) ==> deletion_refusal(root, target) is Some,
{
    assert(root.take(root.len() as int) =~= root);
}

/// A folder two or more levels below the drive root is never refused for
/// its name.
pub proof fn lemma_deep_items_deletable(root: Seq<ComponentView>, target: Seq<ComponentView>)
    requires
        is_prefix_of(root, target),
        target.len() >= root.len() + 2,
    ensures
        deletion_refusal(root, target) is None,
{
}

} // verus!

verus! {

/// The file system's answer for `parent.join(label)`: the label probed, the
/// joined path, and whether that path is a folder (`Path::is_dir`, which
/// follows links and, on volumes that ignore case, matches any casing).
#[derive(Clone, Debug)]
pub struct FolderProbe {
    pub label: String,
    pub path: PathValue,
    pub is_dir: bool,
}

/// The mathematical value of a [`FolderProbe`].
pub struct ProbeView {
    pub label: Seq<char>,
    pub path: PathView,
    pub is_dir: bool,
}

impl View for FolderProbe {
    type V = ProbeView;

    open spec fn view(&self) -> ProbeView {
        ProbeView { label: self.label@, path: self.path@, is_dir: self.is_dir }
    }
}

/// The values of a list of probes.
pub open spec fn probes_view(v: Seq<FolderProbe>) -> Seq<ProbeView> {
    v.map_values(|p: FolderProbe| p@)
}

/// The first probe of `label` that found a folder.
pub open spec fn first_folder_probe(ps: Seq<ProbeView>, label: Seq<char>) -> Option<ProbeView>
    decreases ps.len(),
{
    if ps.len() == 0 {
        None
    } else if ps[0].is_dir && ps[0].label == label {
        Some(ps[0])
    } else {
        first_folder_probe(ps.drop_first(), label)
    }
}

/// The position of the first probe of `label` that found a folder, if any.
pub fn find_folder_probe(probes: &Vec<FolderProbe>, label: &String) -> (r: Option<usize>)
    ensures
        match r {
            Some(i) => i < probes@.len() && first_folder_probe(probes_view(probes@), label@)
                == Some(probes@[i as int]@),
            None => first_folder_probe(probes_view(probes@), label@) is None,
        },
{
    let mut i: usize = 0;
    assert(probes_view(probes@).skip(0) =~= probes_view(probes@));
    while i < probes.len()
        invariant
            i <= probes@.len(),
            first_folder_probe(probes_view(probes@), label@) == first_folder_probe(
                probes_view(probes@).skip(i as int),
                label@,
            ),
        decreases probes@.len() - i,
    {
        let ghost rest = probes_view(probes@).skip(i as int);
        assert(rest[0] == probes@[i as int]@);
        assert(rest.drop_first() =~= probes_view(probes@).skip(i + 1));
        if probes[i].is_dir && same_text(&probes[i].label, label) {
            return Some(i);
        }
        i = i + 1;
    }
    None
}

/// The names of the personal-drive folder, in the order they are looked
/// for.
pub open spec fn personal_drive_labels() -> Seq<Seq<char>> {
    seq!["Meu Drive"@, "My Drive"@]
}

/// The personal-drive folder is looked for under its Portuguese name
/// first, then its English one: the labels probed are `Meu Drive` and
/// `My Drive`, in that order, and a folder found for the first is chosen
/// over one found for the second.
pub proof fn lemma_personal_drive_names(root: PathView, ps: Seq<ProbeView>)
    ensures
        personal_drive_labels().len() == 2,
        personal_drive_labels()[0] == "Meu Drive"@,
        personal_drive_labels()[1] == "My Drive"@,
        first_folder_probe(ps, "Meu Drive"@) matches Some(p) ==> personal_drive_folder(root, ps) == p.path,
        first_folder_probe(ps, "Meu Drive"@) is None ==> personal_drive_folder(root, ps) == match first_folder_probe(
            ps,
            "My Drive"@,
        ) {
            Some(p) => p.path,
            None => root,
        },
{
}

/// The labels of [`personal_drive_labels`], to probe under a drive root.
pub fn personal_drive_label_list() -> (r: Vec<String>)
    ensures
        crate::names::texts(r@) == personal_drive_labels(),
{
    let mut r: Vec<String> = Vec::new();
    r.push(String::from_str("Meu Drive"));
    r.push(String::from_str("My Drive"));
    assert(crate::names::texts(r@) =~= personal_drive_labels());
    r
}

/// The folder in a drive root where the user's own files live:
/// `root/Meu Drive` when it is a folder, else `root/My Drive` when it is a
/// folder, else the root, given the probes of those two paths.
pub open spec fn personal_drive_folder(root: PathView, ps: Seq<ProbeView>) -> PathView {
    match first_folder_probe(ps, "Meu Drive"@) {
        Some(p) => p.path,
        None => match first_folder_probe(ps, "My Drive"@) {
            Some(p) => p.path,
            None => root,
        },
    }
}

/// The personal-drive folder of `root`, given the probes of
/// `root/Meu Drive` and `root/My Drive`.
pub fn personal_drive_path(root: &PathValue, probes: &Vec<FolderProbe>) -> (r: PathValue)
    ensures
        r@ == personal_drive_folder(root@, probes_view(probes@)),
{
    match find_folder_probe(probes, &String::from_str("Meu Drive")) {
        Some(i) => return copy_path(&probes[i].path),
        None => {},
    }
    match find_folder_probe(probes, &String::from_str("My Drive")) {
        Some(i) => copy_path(&probes[i].path),
        None => copy_path(root),
    }
}

} // verus!

verus! {

/// Where an item selected for copying lands, relative to the destination:
/// under the name of the selected file or folder, at the same place it has
/// inside that folder (`inside` empty for the selected item itself). This
/// is how a copied folder keeps its structure.
pub fn copy_relative_path(selected_name: &String, inside: &Vec<String>) -> (r: Vec<String>)
    ensures
        crate::names::texts(r@) == seq![selected_name@] + crate::names::texts(inside@),
{
    let mut r: Vec<String> = Vec::new();
    r.push(selected_name.clone());
    let mut i: usize = 0;
    while i < inside.len()
        invariant
            i <= inside@.len(),
            crate::names::texts(r@) == seq![selected_name@] + crate::names::texts(inside@).take(i as int),
        decreases inside@.len() - i,
    {
        let ghost before = crate::names::texts(r@);
        r.push(inside[i].clone());
        assert(crate::names::texts(r@) =~= before.push(inside@[i as int]@));
        assert(crate::names::texts(r@) =~= seq![selected_name@] + crate::names::texts(inside@).take(i + 1));
        i = i + 1;
    }
    assert(crate::names::texts(inside@).take(inside@.len() as int) =~= crate::names::texts(inside@));
    r
}

} // verus!
