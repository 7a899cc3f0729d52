use cosmonaut_code::retrieval::code::{
    analyse_file_language, calculate_hash_from, count_lines_of_code, hex_lower_string, get_file_contents_size, FileClassification,
    LanguageScope, ResolvedLanguage,
};
use cosmonaut_code::retrieval::data::{LanguageType, SourceFileError, SourceFileInfo, Statistics};

fn stats(loc: i64, size: i64, num_files: i32, num_commits: i32, frequency: f32) -> Statistics {
    Statistics { size, loc, num_files, num_commits, frequency_bits: frequency.to_bits() }
}

#[test]
fn test_get_file_contents_size() {
    let file_contents = "Hello, world!";
    let result = get_file_contents_size(file_contents);
    assert_eq!(result, Ok(13));
}

#[test]
fn test_count_lines_of_code() {
    let file_content: &str = r#"fn main() { // line 1 \n
                // this comment line doesn't add to the loc\n
                rror!(\"Hello, world!\"); // line 2 \n
            } // line 3 "#;
    let result: Result<i64, &str> = count_lines_of_code(file_content.to_string());
    assert_eq!(result, Ok(3));
}

#[test]
fn test_has_extension_of() {
    let file_types = vec![
        LanguageType { name: "Rust".to_string(), extension: ".rs".to_string(), statistics: None },
        LanguageType { name: "Python".to_string(), extension: ".py".to_string(), statistics: None },
    ];

    assert!(LanguageType::_has_extension_of(".rs", &file_types));
    assert!(!LanguageType::_has_extension_of(".toml", &file_types));
}

#[test]
fn test_sum_lines_of_code() {
    let language_types = vec![
        LanguageType {
            name: "Rust".to_string(),
            extension: ".rs".to_string(),
            statistics: Some(stats(100, 2345, 3, 12, 12.34)),
        },
        LanguageType {
            name: "Python".to_string(),
            extension: ".py".to_string(),
            statistics: Some(stats(200, 12345, 10, 12, 12.34)),
        },
    ];

    assert_eq!(LanguageType::sum_lines_of_code(&language_types), 300);
}

#[test]
fn sum_lines_of_code_skips_types_without_statistics() {
    let language_types = vec![
        LanguageType { name: "Go".to_string(), extension: ".go".to_string(), statistics: None },
        LanguageType {
            name: "Rust".to_string(),
            extension: ".rs".to_string(),
            statistics: Some(stats(7, 1, 1, 1, 0.0)),
        },
    ];
    assert_eq!(LanguageType::sum_lines_of_code(&language_types), 7);
    assert_eq!(LanguageType::sum_lines_of_code(&[]), 0);
}

#[test]
fn block_comments_and_comment_prefixes_are_not_counted() {
    let src = "/* start\ninside\nend */\n# hash\n/// doc\n//! inner\n\"\"\" doc\ncode();\n\n  x = 1;\n";
    // blank and whitespace-only lines are not counted
    assert_eq!(count_lines_of_code(src.to_string()), Ok(2));
    assert_eq!(count_lines_of_code("let a = 1;\n\nlet b = 2;".to_string()), Ok(2));
    assert_eq!(count_lines_of_code("a\n   \t\nb\n\n".to_string()), Ok(2));
    assert_eq!(count_lines_of_code(String::new()), Ok(0));
    // the line that closes a block is never counted, even with code on it
    assert_eq!(count_lines_of_code("a();\n/* c */\nb();".to_string()), Ok(2));
}

#[test]
fn count_never_exceeds_the_number_of_lines() {
    let src = "a\r\nb\nc";
    let n = count_lines_of_code(src.to_string()).unwrap();
    assert!(n as usize <= src.lines().count());
    assert_eq!(n, 3);
}

#[test]
fn file_size_counts_bytes() {
    assert_eq!(get_file_contents_size(""), Ok(0));
    assert_eq!(get_file_contents_size("é"), Ok(2));
}

#[test]
fn hash_is_lower_hex_sha256() {
    assert_eq!(
        calculate_hash_from(""),
        "e3b0c44298fc1c149afbf4c8996fb92427ae41e4649b934ca495991b7852b855"
    );
    assert_eq!(
        calculate_hash_from("abc"),
        "ba7816bf8f01cfea414140de5dae2223b00361a396177a9cb410ff61f20015ad"
    );
    assert_eq!(calculate_hash_from("hello").len(), 64);
}

#[test]
fn contents_are_read_back() {
    let lang = LanguageType { name: String::new(), extension: "rs".to_string(), statistics: None };
    let mut info = SourceFileInfo::new(
        "main.rs".to_string(),
        "src/main.rs".to_string(),
        lang,
        "h".to_string(),
        Statistics::new(),
    );
    assert_eq!(info.get_source_file_contents(), "");
    info.set_source_file_contents("fn main() {}".to_string());
    assert_eq!(info.get_source_file_contents(), "fn main() {}");
    assert_eq!(info.name, "main.rs");
}

#[test]
fn source_file_error_text() {
    assert_eq!(SourceFileError::GitError("bad".to_string()).to_text(), "Git error: bad");
}

fn classification(scope: LanguageScope, extensions: Vec<Option<String>>, is_vendor: bool) -> FileClassification {
    FileClassification {
        is_vendor,
        is_documentation: false,
        is_dotfile: false,
        is_configuration: false,
        resolved: Some(ResolvedLanguage { name: "Rust".to_string(), extensions, scope }),
    }
}

fn source_info() -> SourceFileInfo {
    let lang = LanguageType { name: String::new(), extension: "rs".to_string(), statistics: Some(stats(9, 9, 9, 2, 0.5)) };
    let mut info = SourceFileInfo::new("a.rs".to_string(), "src/a.rs".to_string(), lang, "h".to_string(), stats(0, 0, 0, 2, 0.5));
    info.set_source_file_contents("fn a() {}\n\n// c\nfn b() {}\n".to_string());
    info
}

#[test]
fn language_analysis_sets_a_fresh_language_and_counts() {
    let mut info = source_info();
    let c = classification(LanguageScope::Programming, vec![Some(".rs".to_string()), Some(".rs.in".to_string())], false);
    assert!(analyse_file_language(&mut info, &c));
    let lang = info.language.as_ref().unwrap();
    assert_eq!(lang.name, "Rust");
    assert_eq!(lang.extension, ".rs");
    assert!(lang.statistics.is_none());
    assert_eq!(info.statistics.size, 26);
    assert_eq!(info.statistics.loc, 2);
    assert_eq!(info.statistics.num_files, 1);
    assert_eq!(info.statistics.num_commits, 2);
}

#[test]
fn language_analysis_leaves_excluded_and_data_files() {
    let mut info = source_info();
    assert!(!analyse_file_language(&mut info, &classification(LanguageScope::Programming, vec![], true)));
    assert_eq!(info.language.as_ref().unwrap().extension, "rs");
    assert_eq!(info.statistics.num_files, 0);
    assert!(!analyse_file_language(&mut info, &classification(LanguageScope::Data, vec![], false)));
    assert_eq!(info.language.as_ref().unwrap().name, "");
}

#[test]
fn language_type_from_resolved_language() {
    let r = ResolvedLanguage { name: "Go".to_string(), extensions: vec![], scope: LanguageScope::Programming };
    let l = LanguageType::from_language(&r);
    assert_eq!((l.name.as_str(), l.extension.as_str()), ("Go", ""));
    assert!(l.statistics.is_none());
    let r = ResolvedLanguage { name: "Go".to_string(), extensions: vec![None, Some(".go".to_string())], scope: LanguageScope::Programming };
    assert_eq!(LanguageType::from_language(&r).extension, "");
}

#[test]
fn hex_encoding_is_lower_case_two_digits_per_byte() {
    assert_eq!(hex_lower_string(&[0x00, 0xab, 0x0f]), "00ab0f");
    assert_eq!(hex_lower_string(&[]), "");
    assert_eq!(hex_lower_string(&[0xff, 0x10]), "ff10");
}
