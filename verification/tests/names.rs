use packdrive::names::{renamed_path, validate_windows_name, windows_name_problem, NameProblem, RenameSearch};

/// Runs the duplicate-name search against a folder holding `existing`
/// (the desired file is probed by its own name); `None` keeps the desired
/// name.
fn rename(name: &str, existing: &[&str], ignore_case: bool) -> String {
    let exists = |candidate: &str| {
        existing.iter().any(|e| if ignore_case { e.to_lowercase() == candidate.to_lowercase() } else { *e == candidate })
    };
    let mut search = RenameSearch::new(name);
    let mut candidate = name.to_string();
    loop {
        match renamed_path(&mut search, exists(&candidate)) {
            None => return candidate,
            Some(next) => candidate = next,
        }
    }
}

#[test]
fn validates_windows_folder_names() {
    assert!(validate_windows_name("Documentos recebidos").is_ok());
    assert!(validate_windows_name("Empresa.2026").is_ok());
    assert!(validate_windows_name("../fora").is_err());
    assert!(validate_windows_name("relatorio?.pdf").is_err());
    assert!(validate_windows_name("CON").is_err());
    assert!(validate_windows_name("com1.txt").is_err());
    assert!(validate_windows_name("nome.").is_err());
}

#[test]
fn generates_next_available_duplicate_name() {
    assert_eq!(rename("backup.zip", &["backup.zip"], false), "backup (1).zip");
    assert_eq!(rename("backup.zip", &["backup.zip", "backup (1).zip"], false), "backup (2).zip");
}

#[test]
fn name_problems_are_reported_in_rule_order() {
    assert_eq!(windows_name_problem("   "), Some(NameProblem::Blank));
    assert_eq!(windows_name_problem(" .. "), Some(NameProblem::Blank));
    assert_eq!(windows_name_problem("a:b."), Some(NameProblem::BadEnding));
    assert_eq!(windows_name_problem("a\u{7}b"), Some(NameProblem::ForbiddenCharacter));
    assert_eq!(windows_name_problem("lpt9"), Some(NameProblem::Reserved));
    assert_eq!(windows_name_problem("COM0"), None);
    assert_eq!(windows_name_problem("  Pasta  "), None);
    assert_eq!(
        validate_windows_name("nome.").unwrap_err(),
        "O nome não pode terminar com ponto ou espaço."
    );
}

#[test]
fn free_names_are_kept_and_duplicates_count_from_one() {
    assert_eq!(rename("relatorio.pdf", &["outro.txt"], false), "relatorio.pdf");
    assert_eq!(rename("LEIAME", &["LEIAME"], false), "LEIAME (1)");
    assert_eq!(rename(".bashrc", &[".bashrc"], false), ".bashrc (1)");
    assert_eq!(rename("a.tar.gz", &["a.tar.gz", "a.tar (1).gz", "a.tar (2).gz"], false), "a.tar (3).gz");
    let many: Vec<String> = (1..=10).map(|i| format!("x ({}).bin", i)).chain(["x.bin".to_string()]).collect();
    let many: Vec<&str> = many.iter().map(|s| s.as_str()).collect();
    assert_eq!(rename("x.bin", &many, false), "x (11).bin");
}

#[test]
fn existence_is_the_file_systems_answer() {
    assert_eq!(rename("Relatorio.pdf", &["relatorio.pdf"], true), "Relatorio (1).pdf");
    assert_eq!(rename("Relatorio.pdf", &["relatorio.pdf"], false), "Relatorio.pdf");
}

#[test]
fn search_steps() {
    let mut search = RenameSearch::new("");
    assert_eq!(search.index(), 0);
    assert_eq!(renamed_path(&mut search, true), Some("arquivo (1)".to_string()));
    assert_eq!(renamed_path(&mut search, true), Some("arquivo (2)".to_string()));
    assert_eq!(search.index(), 2);
    assert_eq!(renamed_path(&mut search, false), None);
    assert_eq!(search.index(), 2);
}

#[test]
fn every_problem_has_its_message() {
    assert_eq!(NameProblem::Blank.message(), "Informe um nome de pasta válido.");
    assert_eq!(
        NameProblem::ForbiddenCharacter.message(),
        "O nome contém caracteres que não são permitidos no Windows."
    );
    assert_eq!(NameProblem::Reserved.message(), "Esse nome é reservado pelo Windows.");
    assert_eq!(validate_windows_name("").unwrap_err(), "Informe um nome de pasta válido.");
    assert_eq!(validate_windows_name("a|b").unwrap_err(), "O nome contém caracteres que não são permitidos no Windows.");
    assert_eq!(validate_windows_name("aux.log").unwrap_err(), "Esse nome é reservado pelo Windows.");
}

#[test]
fn surrounding_unicode_space_is_trimmed_before_checking() {
    assert_eq!(windows_name_problem("\u{3000}Nome\u{a0}"), None);
    assert_eq!(windows_name_problem("\u{2003}nul\u{2003}"), Some(NameProblem::Reserved));
    assert_eq!(windows_name_problem("\u{85}.\u{85}"), Some(NameProblem::Blank));
}

