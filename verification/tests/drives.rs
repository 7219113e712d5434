use packdrive::drives::{
    add_google_drive_account_roots, add_google_drive_volume_root, drive_folder_label_list,
    is_google_drive_volume_name, parse_volume_listing, push_drive_candidate, resolve_drive_content_path,
    windows_drive_roots, DriveCandidates,
};
use packdrive::drives::{
    drive_layout_label_list, lowered_name_is_account, lowered_volume_is_drive, volume_has_drive_label,
};
use packdrive::paths::{personal_drive_label_list, EntryInfo, FolderProbe, PathComponent, PathValue};

/// Probes `parent/label` for each label against the folders `dirs`,
/// compared ignoring case as NTFS and APFS do.
fn probes(parent: &str, labels: Vec<String>, dirs: &[&str]) -> Vec<FolderProbe> {
    labels
        .into_iter()
        .map(|label| FolderProbe {
            is_dir: dirs.iter().any(|d| d.to_lowercase() == label.to_lowercase()),
            path: path(&format!("{}/{}", parent, label)),
            label,
        })
        .collect()
}

fn path(text: &str) -> PathValue {
    let mut components = vec![PathComponent::RootDir];
    for part in text.split('/').filter(|p| !p.is_empty()) {
        components.push(PathComponent::Normal(part.to_string()));
    }
    PathValue { text: text.to_string(), components }
}

fn entry(parent: &str, name: &str, is_dir: bool) -> EntryInfo {
    EntryInfo { name: name.to_string(), path: path(&format!("{}/{}", parent, name)), is_dir }
}

#[test]
fn finds_google_drive_accounts_in_macos_cloud_storage_layout() {
    let root = "/tmp/packdrive-cloud-test";
    let entries = vec![entry(root, "GoogleDrive-contato@example.com", true)];
    let mut candidates = DriveCandidates::new();
    add_google_drive_account_roots(&mut candidates, &entries, "macOS test");
    let found = candidates.into_candidates();
    assert_eq!(found.len(), 1);
    assert_eq!(found[0].path, format!("{}/GoogleDrive-contato@example.com", root));
    assert_eq!(found[0].label, "Google Drive");
}

#[test]
fn account_roots_skip_files_and_other_names() {
    let root = "/cs";
    let entries = vec![
        entry(root, "googledrive-a@x.com", false),
        entry(root, "OneDrive-b", true),
        entry(root, "GOOGLEDRIVE-c@x.com", true),
    ];
    let mut candidates = DriveCandidates::new();
    add_google_drive_account_roots(&mut candidates, &entries, "s");
    let found = candidates.into_candidates();
    assert_eq!(found.len(), 1);
    assert_eq!(found[0].path, "/cs/GOOGLEDRIVE-c@x.com");
    assert_eq!(found[0].source, "s");
}

#[test]
fn uses_volume_root_when_personal_and_shared_drives_are_siblings() {
    let root = "/tmp/packdrive-volume-test";
    let layout = probes(root, drive_layout_label_list(), &["Meu Drive", "Drives compartilhados"]);
    let mut candidates = DriveCandidates::new();
    assert!(add_google_drive_volume_root(&mut candidates, &path(root), true, &layout, "Windows test"));
    let found = candidates.candidates();
    assert_eq!(found.len(), 1);
    assert_eq!(found[0].path, root);
    assert_eq!(found[0].label, "Google Drive");
}

#[test]
fn volume_without_layout_is_not_offered() {
    let layout = probes("/v", drive_layout_label_list(), &["Documentos", "Other computers"]);
    let mut candidates = DriveCandidates::new();
    assert!(!add_google_drive_volume_root(&mut candidates, &path("/v"), true, &layout, "s"));
    assert!(candidates.candidates().is_empty());
    let layout = probes("/v", drive_layout_label_list(), &["MEU DRIVE"]);
    assert!(add_google_drive_volume_root(&mut candidates, &path("/v"), true, &layout, "s"));
    assert_eq!(candidates.candidates().len(), 1);
}

#[test]
fn a_folder_is_offered_once() {
    let mut candidates = DriveCandidates::new();
    let p = path("/home/u/Google Drive");
    push_drive_candidate(&mut candidates, &p, true, "Google Drive".into(), "Pasta do usuário");
    push_drive_candidate(&mut candidates, &p, true, "Outro".into(), "Outra origem");
    push_drive_candidate(&mut candidates, &path("/home/u/My Drive"), false, "My Drive".into(), "x");
    let found = candidates.into_candidates();
    assert_eq!(found.len(), 1);
    assert_eq!(found[0].label, "Google Drive");
    assert_eq!(found[0].source, "Pasta do usuário");
}

#[test]
fn resolves_personal_drive_inside_macos_account_root() {
    let root = "/tmp/packdrive-root-test";
    let found = probes(root, personal_drive_label_list(), &["Meu Drive"]);
    assert_eq!(resolve_drive_content_path(Ok(path(root)), &found).unwrap(), format!("{}/Meu Drive", root));
    let found = probes(root, personal_drive_label_list(), &["My Drive", "Meu Drive"]);
    assert_eq!(resolve_drive_content_path(Ok(path(root)), &found).unwrap(), format!("{}/Meu Drive", root));
    let found = probes(root, personal_drive_label_list(), &["my drive"]);
    assert_eq!(resolve_drive_content_path(Ok(path(root)), &found).unwrap(), format!("{}/My Drive", root));
    let found = probes(root, personal_drive_label_list(), &[]);
    assert_eq!(resolve_drive_content_path(Ok(path(root)), &found).unwrap(), root);
    assert_eq!(resolve_drive_content_path(Err("falhou".into()), &Vec::new()).unwrap_err(), "falhou");
}

#[test]
fn recognises_drive_volumes_by_name() {
    assert!(is_google_drive_volume_name("Google Drive"));
    assert!(is_google_drive_volume_name("GoogleDrive-conta"));
    assert!(!is_google_drive_volume_name("Macintosh HD"));
    assert!(!is_google_drive_volume_name("Google-Drive"));
}

#[test]
fn parses_volume_listing() {
    let text = "\r\nNode,DeviceID,VolumeName\r\nPC,C:,Windows\r\nPC,G:,Google Drive\r\nPC,H:, Meu DRIVE \r\nbroken\r\n";
    let found = parse_volume_listing(text);
    assert_eq!(found.len(), 2);
    assert_eq!(found[0].drive_root, "G:\\");
    assert_eq!(found[0].volume, "Google Drive");
    assert_eq!(found[1].drive_root, "H:\\");
    assert_eq!(found[1].volume, "Meu DRIVE");
}

#[test]
fn lists_drive_roots_and_labels() {
    let roots = windows_drive_roots();
    assert_eq!(roots.len(), 26);
    assert_eq!(roots[0], "A:\\");
    assert_eq!(roots[25], "Z:\\");
    let labels = drive_folder_label_list();
    assert_eq!(labels.len(), 8);
    assert_eq!(labels[0], "Google Drive");
    assert_eq!(labels[7], "Other computers");
}

#[test]
fn checks_on_lowered_names() {
    assert!(lowered_name_is_account("googledrive-x@y.com"));
    assert!(!lowered_name_is_account("GoogleDrive-x@y.com"));
    assert!(lowered_volume_is_drive("google drive (g:)"));
    assert!(!lowered_volume_is_drive("Google Drive"));
    assert!(volume_has_drive_label(&"Volume SHARED DRIVES".to_string()));
    assert!(!volume_has_drive_label(&"Backup".to_string()));
}
