use cosmonaut_code::common::{exec_duration_message, report_file_paths};
use cosmonaut_code::retrieval::git::{count_file_changes, tally_contributions};
use cosmonaut_code::review::code::LanguageBreakdown;
use cosmonaut_code::review::report::{
    create_named_timestamped_filename, create_report, OutputType, ReportError, ReportRenderer, ReportTimestamp,
};
use cosmonaut_code::review::tools::{
    get_blacklist_dirs, handle_character_class_pattern, is_not_blacklisted, is_valid_extension, LanguageFileTypes,
};
use std::path::Path;

#[test]
fn test_create_named_timestamped_filename() {
    let base_path = "/some/path";
    let file_extension = "txt";
    let mock_time = ReportTimestamp { year: 2022, month: 4, day: 1, hour: 12, minute: 30, second: 45 };

    let result = create_named_timestamped_filename(base_path, "repos_name", file_extension, mock_time);
    let result = Path::new(&result);

    assert_eq!(result.parent(), Some(Path::new(base_path)));
    assert_eq!(result.extension().and_then(|e| e.to_str()), Some(file_extension));
    let expected_filename = format!("repos_name-20220401_123045.{}", file_extension);
    assert_eq!(result.file_name().unwrap().to_str().unwrap(), &expected_filename);
}

#[test]
fn timestamped_filename_joins_like_a_path() {
    let t = ReportTimestamp { year: 999, month: 1, day: 2, hour: 3, minute: 4, second: 5 };
    assert_eq!(create_named_timestamped_filename("out/", "r", "json", t), "out/r-09990102_030405.json");
    assert_eq!(create_named_timestamped_filename("", "r", "html", t), "r-09990102_030405.html");
}

#[test]
fn timestamped_filename_signs_years_outside_four_digits() {
    let at = |year: i32| ReportTimestamp { year, month: 1, day: 2, hour: 3, minute: 4, second: 5 };
    assert_eq!(create_named_timestamped_filename("", "r", "txt", at(10000)), "r-+100000102_030405.txt");
    assert_eq!(create_named_timestamped_filename("", "r", "txt", at(-1)), "r--00010102_030405.txt");
    assert_eq!(create_named_timestamped_filename("", "r", "txt", at(-12345)), "r--123450102_030405.txt");
    assert_eq!(create_named_timestamped_filename("", "r", "txt", at(0)), "r-00000102_030405.txt");
}

#[test]
fn reports_by_output_type() {
    assert_eq!(create_report(OutputType::Json), Ok(ReportRenderer::Json));
    assert_eq!(create_report(OutputType::Html), Ok(ReportRenderer::Html));
    assert_eq!(create_report(OutputType::Pdf), Err(ReportError::NotImplemented));
    assert_eq!(OutputType::default(), OutputType::Json);
}

#[test]
fn language_file_types() {
    let types = LanguageFileTypes::new();
    assert!(is_valid_extension(&types, "Rust", "rs"));
    assert!(is_valid_extension(&types, "Rust", "toml"));
    assert!(!is_valid_extension(&types, "Rust", "py"));
    assert!(is_valid_extension(&types, ".Net-Web", "razor"));
    assert!(is_valid_extension(&types, "Ruby", "gemspec"));
    assert!(!is_valid_extension(&types, "Cobol", "cbl"));
    assert!(!is_valid_extension(&types, "rust", "rs"));
}

#[test]
fn blacklist_from_gitignore() {
    let list = get_blacklist_dirs(None);
    assert_eq!(list, vec![".git".to_string()]);
    let gitignore = "# comment\n\n   \n/target/\n[Rr]elease/\n[Dd]ebug/\nnode_modules\r\n*.log\n";
    let list = get_blacklist_dirs(Some(gitignore));
    assert_eq!(list, vec![".git", "target", "Release", "release", "node_modules", "*.log"]);
    assert!(!is_not_blacklisted(Some(".git"), &list));
    assert!(!is_not_blacklisted(Some("release"), &list));
    assert!(is_not_blacklisted(Some("src"), &list));
    assert!(is_not_blacklisted(None, &list));
}

#[test]
fn character_class_patterns() {
    let mut list: Vec<String> = vec![];
    handle_character_class_pattern(&mut list, "[Bb]in/");
    assert!(list.is_empty());
    handle_character_class_pattern(&mut list, "[Rr]/");
    assert_eq!(list, vec!["R", "r"]);
}

#[test]
fn file_change_counts() {
    let commits = vec![
        Some(vec![Some("src/a.rs".to_string()), Some("src/b.rs".to_string())]),
        Some(vec![Some("src/b.rs".to_string())]),
        Some(vec![None, Some("src/a.rs".to_string())]),
        None,
    ];
    assert_eq!(count_file_changes(&commits, "src/a.rs"), (2, 4));
    assert_eq!(count_file_changes(&commits, "src/c.rs"), (0, 4));
    assert_eq!(count_file_changes(&[], "x"), (0, 0));
}

#[test]
fn contributor_tallies() {
    let commits = vec![
        ("ann".to_string(), 100),
        ("bob".to_string(), 50),
        ("ann".to_string(), 90),
        ("ann".to_string(), 300),
        ("".to_string(), 7),
    ];
    let (tallies, total) = tally_contributions(&commits);
    assert_eq!(total, 5);
    assert_eq!(tallies.len(), 3);
    assert_eq!((tallies[0].name.as_str(), tallies[0].num_commits, tallies[0].last_contribution), ("ann", 3, 300));
    assert_eq!((tallies[1].name.as_str(), tallies[1].num_commits, tallies[1].last_contribution), ("bob", 1, 50));
    assert_eq!((tallies[2].name.as_str(), tallies[2].num_commits, tallies[2].last_contribution), ("", 1, 7));
    assert_eq!(tallies.iter().map(|t| t.num_commits).sum::<i32>(), total);
    let (none, zero) = tally_contributions(&[]);
    assert!(none.is_empty());
    assert_eq!(zero, 0);
}

#[test]
fn execution_time_message() {
    assert_eq!(
        exec_duration_message(125, 7),
        "TOTAL EXECUTION TIME: 2 minutes, 5 seconds, and 7 milliseconds"
    );
    assert_eq!(exec_duration_message(0, 0), "TOTAL EXECUTION TIME: 0 minutes, 0 seconds, and 0 milliseconds");
    assert_eq!(
        exec_duration_message(3600, 999),
        "TOTAL EXECUTION TIME: 60 minutes, 0 seconds, and 999 milliseconds"
    );
}

#[test]
fn report_paths_are_split_and_trimmed() {
    assert_eq!(report_file_paths("a.json, b.html"), vec!["a.json", "b.html"]);
    assert_eq!(report_file_paths("one"), vec!["one"]);
    assert_eq!(report_file_paths(""), vec![""]);
}

#[test]
fn language_breakdown_counts_by_language_and_extension() {
    let mut b = LanguageBreakdown::new();
    assert_eq!(b.total_size(), 0);
    assert!(b.to_language_file_types().is_empty());
    b.add_usage("Rust", "rs", 100, 10);
    b.add_usage("Rust", "rs", 50, 5);
    b.add_usage("Rust", "toml", 7, 3);
    b.add_usage("Python", "py", 20, 2);
    assert_eq!(b.total_size(), 177);
    let mut types: Vec<(String, String, u64, i32, i64)> = b
        .to_language_file_types()
        .into_iter()
        .map(|t| (t.language, t.extension, t.total_size, t.file_count, t.loc))
        .collect();
    types.sort();
    assert_eq!(
        types,
        vec![
            ("Python".to_string(), "py".to_string(), 20, 1, 2),
            ("Rust".to_string(), "rs".to_string(), 150, 2, 15),
            ("Rust".to_string(), "toml".to_string(), 7, 1, 3),
        ]
    );
}
