use packdrive::copy_run::{failure_message, CopyAction, CopyEvent, CopyFailure, CopyPhase, CopyRun};
use packdrive::transfer::{CopySession, CopyStatus};

fn start(files: usize, bytes: u64, on_windows: bool) -> (CopyRun, CopyAction) {
    let session = CopySession::new(files, bytes, Vec::new());
    CopyRun::new(session, "op1".to_string(), "/dest".to_string(), on_windows)
}

fn send(run: &mut CopyRun, event: CopyEvent) -> CopyAction {
    assert!(run.accepts(&event), "unexpected event {event:?}");
    run.step(event)
}

fn begin(run: &mut CopyRun, source: &str, desired: &str) -> CopyAction {
    send(
        run,
        CopyEvent::FileStarted { cancelled: false, source: source.to_string(), desired: desired.to_string() },
    )
}

/// Brings the current file up to its first block.
fn open_file(run: &mut CopyRun, name: &str) {
    assert_eq!(begin(run, &format!("/src/{name}"), &format!("/dest/{name}")), CopyAction::CreateParent);
    assert_eq!(send(run, CopyEvent::ParentReady), CopyAction::ResolveDestination);
    assert_eq!(
        send(run, CopyEvent::Resolved { name: Some(name.to_string()), cancelled: false }),
        CopyAction::OpenTemp { temp_name: format!("{name}.op1.uploading") }
    );
    assert_eq!(send(run, CopyEvent::Opened), CopyAction::CheckCancel);
    assert_eq!(send(run, CopyEvent::CancelState(false)), CopyAction::CopyBlock);
}

#[test]
fn copies_a_file_through_a_temporary_name() {
    let (mut run, first) = start(1, 10, false);
    assert_eq!(first, CopyAction::StartFile(0));
    open_file(&mut run, "a.txt");
    assert_eq!(send(&mut run, CopyEvent::BlockCopied(6)), CopyAction::CheckCancel);
    assert_eq!(send(&mut run, CopyEvent::CancelState(false)), CopyAction::CopyBlock);
    assert_eq!(send(&mut run, CopyEvent::BlockCopied(4)), CopyAction::CheckCancel);
    assert_eq!(run.session().copied_bytes(), 10);
    assert_eq!(send(&mut run, CopyEvent::CancelState(false)), CopyAction::CopyBlock);
    assert_eq!(send(&mut run, CopyEvent::SourceEnd), CopyAction::SyncTemp);
    assert_eq!(send(&mut run, CopyEvent::Synced { destination_exists: false }), CopyAction::RenameTemp);
    assert_eq!(run.session().completed_items(), 0);
    assert_eq!(send(&mut run, CopyEvent::Renamed), CopyAction::ReportCompleted);
    assert_eq!(run.session().completed_items(), 1);
    assert_eq!(send(&mut run, CopyEvent::Continue), CopyAction::Conclude);
    assert_eq!(send(&mut run, CopyEvent::CancelState(false)), CopyAction::Finish);
    assert_eq!(run.phase(), CopyPhase::Finished);
    let outcome = run.outcome();
    assert_eq!(outcome.status, CopyStatus::Completed);
    assert_eq!(outcome.completed_items, 1);
    assert_eq!(outcome.skipped_items, 0);
    assert_eq!(outcome.copied_bytes, 10);
    assert_eq!(outcome.total_bytes, 10);
    assert_eq!(outcome.operation_id, "op1");
    assert_eq!(outcome.destination, "/dest");
    assert!(outcome.errors.is_empty());
}

#[test]
fn an_existing_destination_is_removed_before_the_rename() {
    let (mut run, _) = start(1, 3, false);
    open_file(&mut run, "b.txt");
    assert_eq!(send(&mut run, CopyEvent::BlockCopied(3)), CopyAction::CheckCancel);
    assert_eq!(send(&mut run, CopyEvent::CancelState(false)), CopyAction::CopyBlock);
    assert_eq!(send(&mut run, CopyEvent::BlockCopied(0)), CopyAction::SyncTemp);
    assert_eq!(send(&mut run, CopyEvent::Synced { destination_exists: true }), CopyAction::RemoveExisting);
    assert!(!run.accepts(&CopyEvent::Renamed));
    assert_eq!(send(&mut run, CopyEvent::Removed), CopyAction::RenameTemp);
    assert_eq!(send(&mut run, CopyEvent::Renamed), CopyAction::ReportCompleted);
}

#[test]
fn cancelling_between_blocks_removes_the_partial_file_without_an_error() {
    let (mut run, _) = start(2, 20, false);
    open_file(&mut run, "c.txt");
    assert_eq!(send(&mut run, CopyEvent::BlockCopied(5)), CopyAction::CheckCancel);
    assert_eq!(send(&mut run, CopyEvent::CancelState(true)), CopyAction::RemoveTemp);
    assert_eq!(send(&mut run, CopyEvent::TempRemoved { cancelled: true }), CopyAction::StartFile(1));
    assert_eq!(
        send(
            &mut run,
            CopyEvent::FileStarted { cancelled: true, source: "/src/d.txt".into(), desired: "/dest/d.txt".into() }
        ),
        CopyAction::Conclude
    );
    assert!(run.session().is_stopped());
    assert_eq!(run.session().handled_items(), 1);
    assert_eq!(send(&mut run, CopyEvent::CancelState(true)), CopyAction::Finish);
    let outcome = run.outcome();
    assert_eq!(outcome.status, CopyStatus::Cancelled);
    assert_eq!(outcome.completed_items, 0);
    assert_eq!(outcome.copied_bytes, 5);
    assert!(outcome.errors.is_empty());
}

#[test]
fn a_cancelled_run_starts_no_file() {
    let (mut run, first) = start(3, 0, false);
    assert_eq!(first, CopyAction::StartFile(0));
    assert_eq!(
        send(
            &mut run,
            CopyEvent::FileStarted { cancelled: true, source: "/src/a".into(), desired: "/dest/a".into() }
        ),
        CopyAction::Conclude
    );
    assert!(!run.accepts(&CopyEvent::Opened));
    assert_eq!(send(&mut run, CopyEvent::CancelState(true)), CopyAction::Finish);
    let outcome = run.outcome();
    assert_eq!(outcome.status, CopyStatus::Cancelled);
    assert_eq!(outcome.completed_items + outcome.skipped_items, 0);
}

#[test]
fn a_failed_step_removes_the_temporary_file_and_records_the_source() {
    let (mut run, _) = start(1, 8, false);
    assert_eq!(begin(&mut run, "/src/e.txt", "/dest/e.txt"), CopyAction::CreateParent);
    assert_eq!(send(&mut run, CopyEvent::ParentReady), CopyAction::ResolveDestination);
    assert!(matches!(
        send(&mut run, CopyEvent::Resolved { name: Some("e.txt".into()), cancelled: false }),
        CopyAction::OpenTemp { .. }
    ));
    assert_eq!(
        send(&mut run, CopyEvent::Failed { failure: CopyFailure::OpenSource, error: "negado".into() }),
        CopyAction::RemoveTemp
    );
    assert_eq!(send(&mut run, CopyEvent::TempRemoved { cancelled: false }), CopyAction::Conclude);
    assert_eq!(send(&mut run, CopyEvent::CancelState(false)), CopyAction::Finish);
    let outcome = run.outcome();
    assert_eq!(outcome.status, CopyStatus::Error);
    assert_eq!(outcome.errors, vec!["/src/e.txt: Não foi possível abrir a origem: negado".to_string()]);
}

#[test]
fn a_failure_after_a_completed_file_gives_completed_with_errors() {
    let (mut run, _) = start(2, 4, false);
    open_file(&mut run, "f.txt");
    assert_eq!(send(&mut run, CopyEvent::SourceEnd), CopyAction::SyncTemp);
    assert_eq!(send(&mut run, CopyEvent::Synced { destination_exists: false }), CopyAction::RenameTemp);
    assert_eq!(send(&mut run, CopyEvent::Renamed), CopyAction::ReportCompleted);
    assert_eq!(send(&mut run, CopyEvent::Continue), CopyAction::StartFile(1));
    open_file(&mut run, "g.txt");
    assert_eq!(
        send(&mut run, CopyEvent::Failed { failure: CopyFailure::Write, error: "disco cheio".into() }),
        CopyAction::RemoveTemp
    );
    assert_eq!(send(&mut run, CopyEvent::TempRemoved { cancelled: false }), CopyAction::Conclude);
    assert_eq!(send(&mut run, CopyEvent::CancelState(false)), CopyAction::Finish);
    let outcome = run.outcome();
    assert_eq!(outcome.status, CopyStatus::CompletedWithErrors);
    assert_eq!(outcome.completed_items, 1);
    assert_eq!(outcome.errors, vec!["/src/g.txt: Falha durante a gravação: disco cheio".to_string()]);
}

#[test]
fn skipped_files_are_reported_and_counted() {
    let (mut run, _) = start(2, 0, false);
    assert_eq!(begin(&mut run, "/src/h", "/dest/h"), CopyAction::CreateParent);
    assert_eq!(send(&mut run, CopyEvent::ParentReady), CopyAction::ResolveDestination);
    assert_eq!(
        send(&mut run, CopyEvent::Resolved { name: None, cancelled: false }),
        CopyAction::ReportSkipped { status: "skipped".into() }
    );
    assert_eq!(send(&mut run, CopyEvent::Continue), CopyAction::StartFile(1));
    assert_eq!(begin(&mut run, "/src/i", "/dest/i"), CopyAction::CreateParent);
    assert_eq!(send(&mut run, CopyEvent::ParentReady), CopyAction::ResolveDestination);
    assert_eq!(
        send(&mut run, CopyEvent::Resolved { name: None, cancelled: true }),
        CopyAction::ReportSkipped { status: "cancelled".into() }
    );
    assert_eq!(send(&mut run, CopyEvent::Continue), CopyAction::Conclude);
    assert_eq!(send(&mut run, CopyEvent::CancelState(false)), CopyAction::Finish);
    let outcome = run.outcome();
    assert_eq!(outcome.skipped_items, 2);
    assert_eq!(outcome.status, CopyStatus::Completed);
}

#[test]
fn a_parent_folder_that_cannot_be_made_is_an_error_and_the_run_goes_on() {
    let (mut run, _) = start(2, 0, false);
    assert_eq!(begin(&mut run, "/src/j", "/dest/x/j"), CopyAction::CreateParent);
    assert_eq!(
        send(&mut run, CopyEvent::ParentFailed { parent: "/dest/x".into(), error: "negado".into() }),
        CopyAction::StartFile(1)
    );
    assert_eq!(run.index(), 1);
    assert_eq!(run.session().handled_items(), 0);
    assert_eq!(
        send(
            &mut run,
            CopyEvent::FileStarted { cancelled: true, source: "/src/k".into(), desired: "/dest/k".into() }
        ),
        CopyAction::Conclude
    );
    assert_eq!(send(&mut run, CopyEvent::CancelState(false)), CopyAction::Finish);
    let outcome = run.outcome();
    assert_eq!(outcome.errors, vec!["Não foi possível criar /dest/x: negado".to_string()]);
    assert_eq!(outcome.status, CopyStatus::Error);
}

#[test]
fn a_destination_path_too_long_on_windows_is_refused() {
    let long = format!("C:\\{}", "a".repeat(240));
    let (mut run, _) = start(1, 0, true);
    assert_eq!(begin(&mut run, "/src/l", &long), CopyAction::Conclude);
    assert_eq!(send(&mut run, CopyEvent::CancelState(false)), CopyAction::Finish);
    let outcome = run.outcome();
    assert_eq!(outcome.errors, vec![format!("O caminho de destino é muito longo: {long}")]);

    let (mut elsewhere, _) = start(1, 0, false);
    assert_eq!(begin(&mut elsewhere, "/src/l", &long), CopyAction::CreateParent);
}

#[test]
fn a_run_without_files_concludes_at_once() {
    let (mut run, first) = start(0, 0, false);
    assert_eq!(first, CopyAction::Conclude);
    assert!(!run.accepts(&CopyEvent::Continue));
    assert_eq!(send(&mut run, CopyEvent::CancelState(false)), CopyAction::Finish);
    assert!(!run.accepts(&CopyEvent::CancelState(false)));
    assert_eq!(run.outcome().status, CopyStatus::Completed);
}

#[test]
fn blocks_that_would_overflow_the_byte_count_are_not_accepted() {
    let (mut run, _) = start(1, 0, false);
    open_file(&mut run, "m");
    assert_eq!(send(&mut run, CopyEvent::BlockCopied(u64::MAX - 1)), CopyAction::CheckCancel);
    assert_eq!(send(&mut run, CopyEvent::CancelState(false)), CopyAction::CopyBlock);
    assert!(run.accepts(&CopyEvent::BlockCopied(1)));
    assert!(!run.accepts(&CopyEvent::BlockCopied(2)));
}

#[test]
fn failure_messages_name_the_failing_step() {
    assert_eq!(failure_message(CopyFailure::Read, "x"), "Falha durante a leitura: x");
    assert_eq!(failure_message(CopyFailure::Sync, "y"), "Falha ao finalizar o arquivo: y");
    assert_eq!(failure_message(CopyFailure::Replace, "z"), "Não foi possível substituir o arquivo: z");
    assert_eq!(failure_message(CopyFailure::Rename, "w"), "Não foi possível concluir o arquivo: w");
    assert_eq!(
        failure_message(CopyFailure::CreateTemp, "v"),
        "Não foi possível criar o arquivo temporário: v"
    );
}
