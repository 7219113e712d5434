use packdrive::listing::{
    build_quick_destinations, list_directory_items, EntryMeta, QuickAction, QuickDestinationSearch,
    QuickDestinations,
};
use packdrive::listing::matches_any_name;
use packdrive::paths::{personal_drive_label_list, EntryInfo, FolderProbe, PathComponent, PathValue};

fn path(text: &str) -> PathValue {
    let mut components = vec![PathComponent::RootDir];
    for part in text.split('/').filter(|p| !p.is_empty()) {
        components.push(PathComponent::Normal(part.to_string()));
    }
    PathValue { text: text.to_string(), components }
}

fn entry(parent: &str, name: &str, is_dir: bool) -> EntryInfo {
    EntryInfo { name: name.to_string(), path: path(&format!("{}/{}", parent, name)), is_dir }
}

/// Runs the search against a fixed tree: `listing` gives each folder's
/// entries by path.
fn search(root: &str, listing: &dyn Fn(&str) -> Vec<EntryInfo>) -> QuickDestinations {
    let root_listing = listing(root);
    let probes: Vec<FolderProbe> = personal_drive_label_list()
        .into_iter()
        .map(|label| FolderProbe {
            is_dir: root_listing.iter().any(|e| e.is_dir && e.name.to_lowercase() == label.to_lowercase()),
            path: path(&format!("{}/{}", root, label)),
            label,
        })
        .collect();
    let (mut s, mut next) = QuickDestinationSearch::new(&path(root), &probes);
    loop {
        let entries = listing(&next.text);
        match s.step(&entries) {
            QuickAction::List(p) => next = p,
            QuickAction::Done(q) => return q,
        }
    }
}

#[test]
fn lists_children_of_pack_as_quick_destinations() {
    let root = "/tmp/packdrive-quick-test";
    let shared = format!("{}/Drives compartilhados", root);
    let control = format!("{}/CONTROLE DE PROPRIEDADES DE TERCEIROS", shared);
    let deployment = format!("{}/IMPLANTAÇÃO", control);
    let pack = format!("{}/PACK", deployment);
    let listing = |p: &str| -> Vec<EntryInfo> {
        if p == root {
            vec![entry(root, "Outro destino", true), entry(root, "Drives compartilhados", true)]
        } else if p == shared {
            vec![entry(&shared, "CONTROLE DE PROPRIEDADES DE TERCEIROS", true)]
        } else if p == control {
            vec![entry(&control, "IMPLANTAÇÃO", true)]
        } else if p == deployment {
            vec![entry(&deployment, "PACK", true)]
        } else if p == pack {
            vec![entry(&pack, "Cliente B", true), entry(&pack, ".interno", true), entry(&pack, "Cliente A", true)]
        } else {
            Vec::new()
        }
    };
    let choices = search(root, &listing);
    assert_eq!(choices.default_path, format!("{}/Cliente A", pack));
    assert!(choices.directories.iter().any(|d| d.path == format!("{}/Cliente B", pack)));
    assert!(!choices.directories.iter().any(|d| d.label.contains(".interno")));
    assert!(!choices.directories.iter().any(|d| d.path == format!("{}/Outro destino/Subpasta", root)));
    assert_eq!(choices.directories.len(), 2);
}

#[test]
fn falls_back_to_children_of_standard_drive_path() {
    let root = "/tmp/packdrive-quick-test";
    let standard = format!("{}/Meu Drive", root);
    let listing = |p: &str| -> Vec<EntryInfo> {
        if p == root {
            vec![entry(root, "Meu Drive", true)]
        } else if p == standard {
            vec![entry(&standard, "Projetos", true), entry(&standard, "Atendimentos", true)]
        } else {
            Vec::new()
        }
    };
    let choices = search(root, &listing);
    assert_eq!(choices.directories.len(), 2);
    assert!(choices.directories.iter().any(|d| d.label == "Atendimentos"));
    assert_eq!(choices.directories[0].path, format!("{}/Atendimentos", standard));
    assert!(choices.directories.iter().any(|d| d.label == "Projetos"));
    assert_eq!(choices.directories[0].label, "Atendimentos");
}

#[test]
fn shared_folder_names_match_ignoring_case_and_stop_at_missing_level() {
    let root = "/d";
    let listing = |p: &str| -> Vec<EntryInfo> {
        if p == "/d" {
            vec![entry("/d", "shared DRIVES", true), entry("/d", "My Drive", true)]
        } else if p == "/d/shared DRIVES" {
            vec![entry("/d/shared DRIVES", "Outra", true)]
        } else if p == "/d/My Drive" {
            vec![entry("/d/My Drive", "x", false)]
        } else {
            Vec::new()
        }
    };
    let choices = search(root, &listing);
    assert_eq!(choices.directories.len(), 1);
    assert_eq!(choices.directories[0].path, "/d/My Drive");
    assert_eq!(choices.directories[0].label, "My Drive");
    assert_eq!(choices.default_path, "/d/My Drive");
}

#[test]
fn base_without_children_offers_itself() {
    let q = build_quick_destinations(&path("/"), &Vec::new());
    assert_eq!(q.directories.len(), 1);
    assert_eq!(q.directories[0].label, "/");
    assert_eq!(q.default_path, "/");
    let q = build_quick_destinations(&path("/a/Base"), &vec![entry("/a/Base", "f.txt", false)]);
    assert_eq!(q.directories[0].label, "Base");
}

#[test]
fn sorts_by_lowercase_label_keeping_listing_order_for_ties() {
    let base = "/b";
    let entries = vec![entry(base, "beta", true), entry(base, "Alpha", true), entry(base, "BETA", true)];
    let q = build_quick_destinations(&path(base), &entries);
    let labels: Vec<&str> = q.directories.iter().map(|d| d.label.as_str()).collect();
    assert_eq!(labels, vec!["Alpha", "beta", "BETA"]);
}

fn meta(name: &str, is_dir: bool, len: u64) -> EntryMeta {
    EntryMeta {
        path: format!("/x/{}", name),
        name: name.to_string(),
        is_dir,
        is_file: !is_dir,
        len,
        modified_at: Some(7),
    }
}

#[test]
fn directory_listing_shows_folders_first() {
    let entries = vec![meta("b.txt", false, 5), meta("Zeta", true, 4096), meta("a.txt", false, 3), meta("alfa", true, 0)];
    let items = list_directory_items(&entries, true);
    let names: Vec<&str> = items.iter().map(|i| i.name.as_str()).collect();
    assert_eq!(names, vec!["alfa", "Zeta", "a.txt", "b.txt"]);
    assert_eq!(items[1].size, 0);
    assert_eq!(items[3].size, 5);
    let only_dirs = list_directory_items(&entries, false);
    assert_eq!(only_dirs.len(), 2);
}

#[test]
fn personal_folder_probe_ignores_case_on_such_volumes() {
    let listing = |p: &str| -> Vec<EntryInfo> {
        if p == "/e" {
            vec![entry("/e", "MEU DRIVE", true)]
        } else if p == "/e/Meu Drive" {
            vec![entry("/e/Meu Drive", "Clientes", true)]
        } else {
            Vec::new()
        }
    };
    let choices = search("/e", &listing);
    assert_eq!(choices.default_path, "/e/Meu Drive/Clientes");
}

#[test]
fn names_match_ignoring_case() {
    let names = vec!["IMPLANTAÇÃO".to_string(), "PACK".to_string()];
    assert!(matches_any_name(&"implantação".to_string(), &names));
    assert!(matches_any_name(&"Pack".to_string(), &names));
    assert!(!matches_any_name(&"PACKS".to_string(), &names));
}
