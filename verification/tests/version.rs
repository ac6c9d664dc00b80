use postgres_migrations::text::{contains_text, is_hidden, same_text, text_lt};
use postgres_migrations::{version_from_name, version_from_path, MigrationDirectory, MigrationError};
use std::path::Path;

/// The directory at `path`, with what the platform reads from the path.
fn directory(path: &str) -> MigrationDirectory {
    let at = Path::new(path);
    MigrationDirectory {
        path: path.to_string(),
        name: at.file_name().map(|name| name.to_string_lossy().into_owned()),
        up_sql: at.join("up.sql").to_string_lossy().into_owned(),
        down_sql: at.join("down.sql").to_string_lossy().into_owned(),
    }
}

#[test]
fn version_is_the_prefix_before_the_first_underscore() {
    assert_eq!(version_from_name("20240101000000_add_users"), "20240101000000");
    let version = version_from_path(&directory("20240101000000_add_users")).unwrap();
    assert_eq!(version, "20240101000000");
}

#[test]
fn version_uses_the_last_name_of_the_path() {
    let version =
        version_from_path(&directory("/srv/app/migrations/20240101000000_add_users")).unwrap();
    assert_eq!(version, "20240101000000");
}

#[test]
fn version_of_a_path_that_ends_in_a_slash() {
    assert_eq!(version_from_path(&directory("0001_x/")).unwrap(), "0001");
    assert_eq!(version_from_path(&directory("migrations/0001_init/")).unwrap(), "0001");
    assert_eq!(version_from_path(&directory("migrations//0002_b/.")).unwrap(), "0002");
}

#[test]
fn version_drops_hyphens() {
    assert_eq!(version_from_name("2024-01-01-000000_add_users"), "20240101000000");
    let version = version_from_path(&directory("migrations/2024-01-01-000000_add_users")).unwrap();
    assert_eq!(version, "20240101000000");
}

#[test]
fn version_stops_at_the_first_of_several_underscores() {
    assert_eq!(version_from_name("0001_add_users_table"), "0001");
    assert_eq!(version_from_name("0001__x"), "0001");
}

#[test]
fn version_keeps_hyphens_behind_the_separator_out_of_it() {
    assert_eq!(version_from_name("00-01_add-users"), "0001");
}

#[test]
fn version_of_a_name_without_separator_is_the_name() {
    assert_eq!(version_from_name("0001"), "0001");
    assert_eq!(version_from_name("abc"), "abc");
    assert_eq!(version_from_name("add-users"), "addusers");
    assert_eq!(version_from_path(&directory("m/abc")).unwrap(), "abc");
}

#[test]
fn version_of_a_name_without_prefix_is_empty() {
    assert_eq!(version_from_name(""), "");
    assert_eq!(version_from_name("_add_users"), "");
    assert_eq!(version_from_name("---_add_users"), "");
    assert_eq!(version_from_name("-"), "");
}

#[test]
fn version_of_a_path_without_last_name_is_refused() {
    for path in ["", "/", "migrations/..", ".."] {
        match version_from_path(&directory(path)) {
            Err(MigrationError::UnknownMigrationFormat(named)) => assert_eq!(named, path),
            other => panic!("unexpected: {:?}", other),
        }
    }
}

#[test]
fn version_with_an_empty_prefix_is_refused() {
    match version_from_path(&directory("migrations/_add_users")) {
        Err(MigrationError::UnknownMigrationFormat(path)) => {
            assert_eq!(path, "migrations/_add_users")
        }
        other => panic!("unexpected: {:?}", other),
    }
}

#[test]
fn version_of_hyphens_alone_is_refused() {
    assert!(matches!(
        version_from_path(&directory("---_add_users")),
        Err(MigrationError::UnknownMigrationFormat(_))
    ));
    assert!(matches!(
        version_from_path(&directory("-")),
        Err(MigrationError::UnknownMigrationFormat(_))
    ));
}

#[test]
fn version_goes_by_the_name_that_is_handed_over() {
    let directory = MigrationDirectory {
        path: "anywhere".to_string(),
        name: Some("0007_g".to_string()),
        up_sql: "u".to_string(),
        down_sql: "d".to_string(),
    };
    assert_eq!(version_from_path(&directory).unwrap(), "0007");
}

#[test]
fn version_keeps_characters_beyond_ascii() {
    assert_eq!(version_from_path(&directory("répertoire/ö-1_é")).unwrap(), "ö1");
}

#[test]
fn texts_are_ordered_by_their_bytes() {
    assert!(text_lt("0001", "0002"));
    assert!(!text_lt("0002", "0001"));
    assert!(!text_lt("0001", "0001"));
    assert!(text_lt("0001", "00010"));
    assert!(!text_lt("00010", "0001"));
    assert!(text_lt("", "0"));
    assert!(!text_lt("", ""));
    assert!(text_lt("10", "9"));
    assert!(text_lt("z", "é"));
    assert!(text_lt("20231231235959", "20240101000000"));
}

#[test]
fn text_order_agrees_with_the_order_of_str() {
    let samples = ["", "0", "0001", "0002", "00010", "10", "9", "a", "z", "é", "日本", "A_b"];
    for a in samples {
        for b in samples {
            assert_eq!(text_lt(a, b), a < b, "{:?} < {:?}", a, b);
            assert_eq!(same_text(a, b), a == b, "{:?} == {:?}", a, b);
        }
    }
}

#[test]
fn same_text_compares_all_of_both() {
    assert!(same_text("up.sql", "up.sql"));
    assert!(!same_text("up.sql", "up.sq"));
    assert!(!same_text("up.sql", "up.sqm"));
    assert!(same_text("", ""));
}

#[test]
fn hidden_names_begin_with_a_dot() {
    assert!(is_hidden(".git"));
    assert!(is_hidden("."));
    assert!(!is_hidden("0001_x"));
    assert!(!is_hidden(""));
    assert!(!is_hidden("a.b"));
}

#[test]
fn contains_text_finds_an_equal_text() {
    let texts = vec!["up.sql".to_string(), "down.sql".to_string()];
    assert!(contains_text(&texts, "down.sql"));
    assert!(!contains_text(&texts, "down"));
    assert!(!contains_text(&Vec::new(), "down.sql"));
}
