use packdrive::paths::{
    canonical_directory, check_deletion, copy_relative_path, is_protected_name, ensure_inside, exceeds_safe_path_length, has_parent_component,
    path_text, plan_destination, plan_new_directory, DeletionRefusal, PathComponent, PathValue,
};

fn path(text: &str) -> PathValue {
    let mut components = vec![PathComponent::RootDir];
    for part in text.split('/').filter(|p| !p.is_empty()) {
        components.push(match part {
            ".." => PathComponent::ParentDir,
            "." => PathComponent::CurDir,
            other => PathComponent::Normal(other.to_string()),
        });
    }
    PathValue { text: text.to_string(), components }
}

#[test]
fn canonical_directory_reports_failures() {
    let err = canonical_directory("/x", Err("not found".to_string())).unwrap_err();
    assert_eq!(err, "Não foi possível acessar /x: not found");
    let err = canonical_directory("/x/a.txt", Ok((path("/x/a.txt"), false))).unwrap_err();
    assert_eq!(err, "/x/a.txt não é uma pasta.");
    let ok = canonical_directory("/x/", Ok((path("/x"), true))).unwrap();
    assert_eq!(path_text(&ok), "/x");
}

#[test]
fn ensure_inside_checks_whole_components() {
    let r = ensure_inside(Ok(path("/drive")), Ok(path("/drive/a/b"))).unwrap();
    assert_eq!(r.1.text, "/drive/a/b");
    assert_eq!(
        ensure_inside(Ok(path("/drive")), Ok(path("/drivex"))).unwrap_err(),
        "O caminho selecionado está fora da pasta permitida."
    );
    assert_eq!(ensure_inside(Err("root".into()), Err("cand".into())).unwrap_err(), "root");
    assert_eq!(ensure_inside(Ok(path("/drive")), Err("cand".into())).unwrap_err(), "cand");
    assert!(has_parent_component(&path("/a/../b")));
    assert!(!has_parent_component(&path("/a/b")));
}

#[test]
fn safe_path_length_counts_utf16_units_on_windows_only() {
    let long = "a".repeat(241);
    assert!(exceeds_safe_path_length(&long, true));
    assert!(!exceeds_safe_path_length(&long, false));
    assert!(!exceeds_safe_path_length(&"a".repeat(240), true));
    let astral = "\u{1F600}".repeat(121);
    assert!(exceeds_safe_path_length(&astral, true));
    assert!(!exceeds_safe_path_length(&"\u{1F600}".repeat(120), true));
}

#[test]
fn deletes_items_but_protects_drive_roots() {
    let root = path("/tmp/packdrive-delete-test");
    assert_eq!(check_deletion(&root, &path("/tmp/packdrive-delete-test/documento.txt")), None);
    assert_eq!(check_deletion(&root, &path("/tmp/packdrive-delete-test/temporaria")), None);
    assert_eq!(
        check_deletion(&root, &path("/tmp/packdrive-delete-test/Meu Drive")),
        Some(DeletionRefusal::DriveStructure)
    );
    assert_eq!(check_deletion(&root, &root), Some(DeletionRefusal::DriveRoot));
    assert_eq!(check_deletion(&root, &path("/tmp/outra")), Some(DeletionRefusal::Outside));
    assert_eq!(
        check_deletion(&root, &path("/tmp/packdrive-delete-test/SHARED DRIVES")),
        Some(DeletionRefusal::DriveStructure)
    );
    assert_eq!(check_deletion(&root, &path("/tmp/packdrive-delete-test/Meu Drive/x")), None);
    assert_eq!(
        DeletionRefusal::DriveRoot.message(),
        "A raiz do Google Drive não pode ser excluída."
    );
}

#[test]
fn creates_collection_folder_inside_atendimento_destination() {
    let root = path("/drive");
    let plan = plan_destination(Ok((root.clone(), root)), Some("[1234567890]".into()), false).unwrap();
    assert_eq!(plan.folder.as_deref(), Some("[1234567890]"));
    assert_eq!(plan.subfolders, vec!["Coleta".to_string()]);
    assert_eq!(plan.destination_subfolder.as_deref(), Some("Coleta"));
}

#[test]
fn creates_envio_folder_when_enabled_for_atendimento() {
    let root = path("/drive");
    let plan = plan_destination(Ok((root.clone(), root)), Some("[1234567890]".into()), true).unwrap();
    assert_eq!(plan.subfolders, vec!["Coleta".to_string(), "Envio".to_string()]);
    assert_eq!(plan.destination_subfolder.as_deref(), Some("Coleta"));
}

#[test]
fn plain_destination_and_refusals() {
    let root = path("/drive");
    let plan = plan_destination(Ok((root.clone(), path("/drive/a"))), None, true).unwrap();
    assert!(plan.folder.is_none() && plan.subfolders.is_empty() && plan.destination_subfolder.is_none());
    assert_eq!(
        plan_destination(Ok((root.clone(), root.clone())), Some("CON".into()), false).err().unwrap(),
        "Esse nome é reservado pelo Windows."
    );
    assert_eq!(
        plan_destination(Ok((root.clone(), path("/drive/../x"))), None, false).err().unwrap(),
        "O destino está fora da pasta permitida."
    );
    assert_eq!(plan_destination(Err("e".into()), Some("CON".into()), false).err().unwrap(), "e");
    assert_eq!(plan_new_directory("  Nova  ", Ok((root.clone(), root.clone()))).unwrap(), "Nova");
    assert_eq!(
        plan_new_directory("?", Err("inside".into())).unwrap_err(),
        "O nome contém caracteres que não são permitidos no Windows."
    );
    assert_eq!(plan_new_directory("ok", Err("inside".into())).unwrap_err(), "inside");
    assert_eq!(
        plan_new_directory("ok", Ok((root.clone(), path("/drive/../x")))).unwrap_err(),
        "O caminho informado não é permitido."
    );
}

#[test]
fn protected_names_and_relative_paths() {
    assert!(is_protected_name(&"meu drive".to_string()));
    assert!(!is_protected_name(&"Meu Drive".to_string()));
    assert!(!is_protected_name(&"clientes".to_string()));
    let inside = vec!["sub".to_string(), "a.txt".to_string()];
    assert_eq!(copy_relative_path(&"Empresa".to_string(), &inside), vec!["Empresa", "sub", "a.txt"]);
    assert_eq!(copy_relative_path(&"f.zip".to_string(), &Vec::new()), vec!["f.zip"]);
}
