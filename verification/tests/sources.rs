use packdrive::sources::{
    folder_creation_failure, folder_path_refusal, plan_copy, plan_folders, FolderEntry, FolderScan, FolderTask,
    PlannedFile, SourceKind, SourceScan,
};

fn names(parts: &[&str]) -> Vec<String> {
    parts.iter().map(|p| p.to_string()).collect()
}

fn file(text: &str, name: &str, size: u64) -> SourceScan {
    SourceScan {
        text: text.into(),
        kind: Ok(SourceKind::File),
        name: Some(name.into()),
        size,
        entries: Vec::new(),
    }
}

fn folder(text: &str, name: Option<&str>, entries: Vec<Result<FolderEntry, String>>) -> SourceScan {
    SourceScan { text: text.into(), kind: Ok(SourceKind::Folder), name: name.map(String::from), size: 0, entries }
}

fn entry(is_file: bool, inside: &[&str], size: u64) -> Result<FolderEntry, String> {
    Ok(FolderEntry { is_file, inside: Some(names(inside)), size })
}

#[test]
fn copied_folders_keep_their_structure_under_their_name() {
    let scans = vec![
        file("/origem/nota.pdf", "nota.pdf", 5),
        folder(
            "/origem/pasta",
            Some("pasta"),
            vec![
                entry(false, &[], 0),
                entry(false, &["sub"], 0),
                entry(true, &["sub", "a.txt"], 3),
                entry(true, &["b.txt"], 1),
            ],
        ),
        SourceScan { text: "/dev/x".into(), kind: Ok(SourceKind::Other), name: Some("x".into()), size: 0, entries: vec![] },
    ];
    let planned = plan_copy(&scans).unwrap();
    assert_eq!(
        planned,
        vec![
            PlannedFile { source: 0, entry: None, relative: names(&["nota.pdf"]), size: 5 },
            PlannedFile { source: 1, entry: Some(2), relative: names(&["pasta", "sub", "a.txt"]), size: 3 },
            PlannedFile { source: 1, entry: Some(3), relative: names(&["pasta", "b.txt"]), size: 1 },
        ]
    );
}

#[test]
fn the_first_unusable_source_stops_the_copy() {
    let unreadable = SourceScan {
        text: "/origem/sumiu".into(),
        kind: Err("não existe".into()),
        name: Some("sumiu".into()),
        size: 0,
        entries: vec![],
    };
    assert_eq!(
        plan_copy(&vec![file("/a", "a", 1), unreadable, folder("/p", None, vec![])]).unwrap_err(),
        "A origem /origem/sumiu não está disponível: não existe"
    );
    let mut nameless = file("/", "x", 0);
    nameless.name = None;
    assert_eq!(plan_copy(&vec![nameless]).unwrap_err(), "Um arquivo selecionado não possui nome válido.");
    assert_eq!(
        plan_copy(&vec![folder("/", None, vec![])]).unwrap_err(),
        "Uma pasta selecionada não possui nome válido."
    );
    assert_eq!(
        plan_copy(&vec![folder("/p", Some("p"), vec![entry(false, &[], 0), Err("permissão".into())])]).unwrap_err(),
        "Falha ao ler a pasta: permissão"
    );
    assert_eq!(
        plan_copy(&vec![folder("/p", Some("p"), vec![Ok(FolderEntry { is_file: true, inside: None, size: 2 })])])
            .unwrap_err(),
        "Falha ao preservar a estrutura da pasta."
    );
    assert!(plan_copy(&vec![]).unwrap().is_empty());
}

#[test]
fn selected_folders_are_recreated_before_the_copy() {
    let scans = vec![
        FolderScan { is_dir: false, text: "/a.txt".into(), name: Some("a.txt".into()), folders: vec![] },
        FolderScan { is_dir: true, text: "/".into(), name: None, folders: vec![Some(vec![])] },
        FolderScan {
            is_dir: true,
            text: "/origem/pasta".into(),
            name: Some("pasta".into()),
            folders: vec![Some(vec![]), Some(names(&["sub"])), None, Some(names(&["sub", "fundo"]))],
        },
    ];
    assert_eq!(
        plan_folders(&scans),
        vec![
            FolderTask::Report("A pasta / não possui um nome válido.".into()),
            FolderTask::Create(names(&["pasta"])),
            FolderTask::Create(names(&["pasta", "sub"])),
            FolderTask::Create(names(&["pasta", "sub", "fundo"])),
        ]
    );
}

#[test]
fn folder_paths_too_long_on_windows_are_reported() {
    let long = format!("C:\\{}", "d".repeat(240));
    assert_eq!(folder_path_refusal(&long, true), Some(format!("O caminho da pasta é muito longo: {long}")));
    assert_eq!(folder_path_refusal(&long, false), None);
    assert_eq!(folder_path_refusal("C:\\curto", true), None);
    assert_eq!(
        folder_creation_failure("/destino/pasta", "negado"),
        "Não foi possível criar a pasta /destino/pasta: negado"
    );
}
