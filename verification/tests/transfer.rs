use packdrive::transfer::{
    answered_choice, check_copy_request, check_space, destination_choice, is_cancelled,
    inspect_path_item, parse_conflict_action, poll_duplicate_answer, probe_file_name, resolve_duplicate,
    total_size, upload_temp_name, validation_after_probe, validation_before_probe, AnswerBoard,
    CancelRegistry, ConflictAction, CopyRequest, CopySession, CopyStatus, DestinationChoice,
    PathMetadata, skipped_file_status,
};

#[test]
fn cancellation_requests_are_seen_until_forgotten() {
    let mut reg = CancelRegistry::new();
    assert!(!is_cancelled("op-1", Some(&reg)));
    reg.insert("op-1".to_string());
    reg.insert("op-1".to_string());
    reg.insert("op-2".to_string());
    assert!(is_cancelled("op-1", Some(&reg)));
    reg.remove("op-1");
    assert!(!is_cancelled("op-1", Some(&reg)));
    assert!(is_cancelled("op-2", Some(&reg)));
    assert!(is_cancelled("qualquer", None));
}

#[test]
fn conflict_answers_are_taken_once() {
    let mut board = AnswerBoard::new();
    assert!(resolve_duplicate(&mut board, "c1".into(), "skip".into()).is_ok());
    assert!(resolve_duplicate(&mut board, "c1".into(), "replace".into()).is_ok());
    assert_eq!(
        resolve_duplicate(&mut board, "c2".into(), "apagar".into()).unwrap_err(),
        "Ação de conflito inválida."
    );
    assert_eq!(board.take(&"c2".to_string()), None);
    assert_eq!(board.take(&"c1".to_string()), Some("replace".to_string()));
    assert_eq!(board.take(&"c1".to_string()), None);
    assert_eq!(parse_conflict_action("cancel"), Some(ConflictAction::Cancel));
    assert_eq!(parse_conflict_action("Rename"), None);
}

#[test]
fn duplicate_behaviour_decides_the_destination() {
    assert_eq!(destination_choice(false, "skip"), DestinationChoice::UseDesired);
    assert_eq!(destination_choice(true, "replace"), DestinationChoice::UseDesired);
    assert_eq!(destination_choice(true, "skip"), DestinationChoice::Skip);
    assert_eq!(destination_choice(true, "ask"), DestinationChoice::Ask);
    assert_eq!(destination_choice(true, "rename"), DestinationChoice::Rename);
    assert_eq!(destination_choice(true, "qualquer"), DestinationChoice::Rename);
    assert_eq!(answered_choice("replace"), DestinationChoice::UseDesired);
    assert_eq!(answered_choice("skip"), DestinationChoice::Skip);
    assert_eq!(answered_choice("cancel"), DestinationChoice::Skip);
    assert_eq!(answered_choice("rename"), DestinationChoice::Rename);
    assert_eq!(poll_duplicate_answer(true, Some("replace".into())), Some("cancel".into()));
    assert_eq!(poll_duplicate_answer(false, Some("replace".into())), Some("replace".into()));
    assert_eq!(poll_duplicate_answer(false, None), None);
}

#[test]
fn temporary_and_probe_names() {
    assert_eq!(upload_temp_name("arquivo.zip", "op-9"), "arquivo.zip.op-9.uploading");
    assert_eq!(upload_temp_name("", "x"), "arquivo.x.uploading");
    assert_eq!(probe_file_name("abc"), ".packdrive-abc.tmp");
}

#[test]
fn session_counts_and_status() {
    let mut s = CopySession::new(3, 30, vec!["pasta falhou".to_string()]);
    assert!(s.begin_file(false));
    s.complete_file();
    s.add_copied(10);
    assert!(s.begin_file(false));
    s.skip_file();
    assert!(s.begin_file(false));
    s.fail_file("x: erro".to_string(), false);
    assert!(!s.is_stopped());
    assert_eq!(s.completed_items(), 1);
    assert_eq!(s.skipped_items(), 1);
    assert_eq!(s.copied_bytes(), 10);
    let out = s.finish("op".into(), "/dest".into(), false);
    assert_eq!(out.status, CopyStatus::CompletedWithErrors);
    assert_eq!(out.status.as_text(), "completed_with_errors");
    assert_eq!(out.errors, vec!["pasta falhou".to_string(), "x: erro".to_string()]);
    assert_eq!(out.total_items, 3);

    let mut s = CopySession::new(1, 0, Vec::new());
    s.complete_file();
    assert_eq!(s.finish("op".into(), "/d".into(), false).status, CopyStatus::Completed);
    let mut s = CopySession::new(1, 0, Vec::new());
    s.fail_file("e".into(), false);
    assert_eq!(s.finish("op".into(), "/d".into(), false).status, CopyStatus::Error);
    let mut s = CopySession::new(2, 0, Vec::new());
    s.fail_file("Cópia cancelada.".into(), true);
    assert!(!s.begin_file(true));
    assert!(s.is_stopped());
    let out = s.finish("op".into(), "/d".into(), true);
    assert_eq!(out.status, CopyStatus::Cancelled);
    assert!(out.errors.is_empty());
    assert_eq!(CopyStatus::Cancelled.as_text(), "cancelled");
    assert_eq!(CopyStatus::Error.as_text(), "error");
    assert_eq!(skipped_file_status(true), "cancelled");
    assert_eq!(skipped_file_status(false), "skipped");
}

#[test]
fn space_and_sizes() {
    assert_eq!(total_size(&vec![1, 2, 3]), Some(6));
    assert_eq!(total_size(&vec![u64::MAX, 1]), None);
    assert!(check_space(Some(5), 6).is_err());
    assert!(check_space(Some(6), 6).is_ok());
    assert!(check_space(None, u64::MAX).is_ok());
    assert_eq!(check_space(Some(0), 1).unwrap_err(), "Não há espaço disponível suficiente no destino.");
}

fn request(sources: Vec<&str>, id: &str) -> CopyRequest {
    CopyRequest {
        operation_id: id.to_string(),
        sources: sources.into_iter().map(String::from).collect(),
        allowed_root: "/r".into(),
        destination: "/r/d".into(),
        duplicate_behavior: "rename".into(),
    }
}

#[test]
fn copy_requests_are_checked() {
    assert_eq!(check_copy_request(&request(vec![], "op")).unwrap_err(), "Selecione ao menos um arquivo ou pasta.");
    assert_eq!(
        check_copy_request(&request(vec!["/a"], "  ")).unwrap_err(),
        "A operação não possui um identificador válido."
    );
    assert!(check_copy_request(&request(vec!["/a"], "op")).is_ok());
}

#[test]
fn destination_validation() {
    let v = validation_before_probe(false, Some(10), 1).unwrap();
    assert!(!v.valid && !v.exists && v.free_bytes.is_none());
    assert_eq!(v.message, "A pasta de destino não foi encontrada.");
    let v = validation_before_probe(true, Some(1), 10).unwrap();
    assert!(!v.valid && v.exists && v.writable);
    assert_eq!(v.message, "Não há espaço disponível suficiente no destino.");
    assert!(validation_before_probe(true, None, 10).is_none());
    assert!(validation_before_probe(true, Some(10), 10).is_none());
    let v = validation_after_probe(Some(3), true);
    assert!(v.valid && v.writable);
    assert_eq!(v.message, "Destino pronto para receber arquivos.");
    let v = validation_after_probe(None, false);
    assert!(!v.valid && v.exists);
    assert_eq!(v.message, "A pasta existe, mas não permite gravação.");
}

#[test]
fn inspected_paths() {
    let item = inspect_path_item("/a/b.txt".into(), Some("b.txt".into()), Ok(PathMetadata { is_dir: false, len: 9, file_sizes: vec![] })).unwrap();
    assert_eq!((item.name.as_str(), item.size, item.exists), ("b.txt", 9, true));
    let item = inspect_path_item("/a/d".into(), Some("d".into()), Ok(PathMetadata { is_dir: true, len: 4096, file_sizes: vec![1, 2] })).unwrap();
    assert_eq!((item.size, item.is_dir), (3, true));
    let item = inspect_path_item("/".into(), None, Err("sem acesso".into())).unwrap();
    assert_eq!(item.name, "/");
    assert_eq!(item.error.as_deref(), Some("sem acesso"));
    assert!(!item.exists);
}
