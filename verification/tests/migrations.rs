use judgeapp::migrations::{
    is_duplicate_column, migration_outcome, needs_baseline, pending_migrations, split_statements,
    MigrationInfo, MigrationOutcome,
};

#[test]
fn statements_are_split_and_trimmed() {
    assert_eq!(
        split_statements("CREATE TABLE a (x);\n\n  ;ALTER TABLE a ADD y ; "),
        vec!["CREATE TABLE a (x)".to_string(), "ALTER TABLE a ADD y".to_string()]
    );
    assert!(split_statements("").is_empty());
}

#[test]
fn duplicate_columns_are_tolerated() {
    assert!(is_duplicate_column(Some("Duplicate Column Name: y")));
    assert!(!is_duplicate_column(Some("no such table: a")));
    assert!(!is_duplicate_column(None));
}

#[test]
fn pending_and_outcomes() {
    let ms = vec![
        MigrationInfo { id: "0001_init", best_effort: false },
        MigrationInfo { id: "0002_x", best_effort: false },
        MigrationInfo { id: "0003_y", best_effort: true },
    ];
    assert_eq!(pending_migrations(&ms, &vec!["0002_x".to_string()]), vec![0, 2]);
    assert!(needs_baseline(&vec![], true));
    assert!(!needs_baseline(&vec!["0001_init".to_string()], true));
    assert!(!needs_baseline(&vec![], false));
    assert_eq!(migration_outcome(true, false), MigrationOutcome::Record);
    assert_eq!(migration_outcome(false, true), MigrationOutcome::Retry);
    assert_eq!(migration_outcome(false, false), MigrationOutcome::Abort);
}
