//! Searching the index: modes, automatic mode detection, and the
//! regular-expression, language and extension filters.

use gist_cache::error::GistCacheError;
use gist_cache::search::{SearchMode, SearchOptions, SearchQuery};
use gist_cache::types::{GistFile, GistInfo};

const NOW: i64 = 1_700_000_000;

fn create_test_gist(id: &str, desc: Option<&str>, filenames: Vec<&str>) -> GistInfo {
    GistInfo {
        id: id.to_string(),
        description: desc.map(|s| s.to_string()),
        files: filenames
            .into_iter()
            .map(|name| GistFile {
                filename: name.to_string(),
                language: None,
                size: 100,
            })
            .collect(),
        updated_at: NOW,
        public: true,
        html_url: format!("https://gist.github.com/{}", id),
    }
}

fn create_test_gist_with_language(
    id: &str,
    desc: Option<&str>,
    files: Vec<(&str, Option<&str>)>,
) -> GistInfo {
    GistInfo {
        id: id.to_string(),
        description: desc.map(|s| s.to_string()),
        files: files
            .into_iter()
            .map(|(name, lang)| GistFile {
                filename: name.to_string(),
                language: lang.map(|l| l.to_string()),
                size: 100,
            })
            .collect(),
        updated_at: NOW,
        public: true,
        html_url: format!("https://gist.github.com/{}", id),
    }
}

#[test]
fn test_search_mode_auto_detects_id() {
    let query = SearchQuery::new("a".repeat(32), SearchMode::Auto);
    let mode = query.detect_mode();
    assert!(matches!(mode, SearchMode::Id));
}

#[test]
fn test_search_mode_auto_detects_both() {
    let query = SearchQuery::new("test".to_string(), SearchMode::Auto);
    let mode = query.detect_mode();
    assert!(matches!(mode, SearchMode::Both));
}

#[test]
fn test_search_by_id() {
    let gists = vec![
        create_test_gist("abc123", Some("Test 1"), vec!["file1.rs"]),
        create_test_gist("def456", Some("Test 2"), vec!["file2.rs"]),
    ];

    let query = SearchQuery::new("abc123".to_string(), SearchMode::Id);
    let results = query.search(&gists).unwrap();
    assert_eq!(results.len(), 1);
    assert_eq!(results[0].id, "abc123");
}

#[test]
fn test_search_by_filename() {
    let gists = vec![
        create_test_gist("abc123", Some("Test 1"), vec!["hello.rs"]),
        create_test_gist("def456", Some("Test 2"), vec!["world.js"]),
    ];

    let query = SearchQuery::new("hello".to_string(), SearchMode::Filename);
    let results = query.search(&gists).unwrap();
    assert_eq!(results.len(), 1);
    assert_eq!(results[0].id, "abc123");
}

#[test]
fn test_search_by_filename_case_insensitive() {
    let gists = vec![create_test_gist("abc123", Some("Test"), vec!["Hello.rs"])];

    let query = SearchQuery::new("hello".to_string(), SearchMode::Filename);
    let results = query.search(&gists).unwrap();
    assert_eq!(results.len(), 1);
}

#[test]
fn test_search_by_description() {
    let gists = vec![
        create_test_gist("abc123", Some("Rust script"), vec!["file.rs"]),
        create_test_gist("def456", Some("Python script"), vec!["file.py"]),
    ];

    let query = SearchQuery::new("rust".to_string(), SearchMode::Description);
    let results = query.search(&gists).unwrap();
    assert_eq!(results.len(), 1);
    assert_eq!(results[0].id, "abc123");
}

#[test]
fn test_search_by_description_case_insensitive() {
    let gists = vec![create_test_gist(
        "abc123",
        Some("Rust Script"),
        vec!["file.rs"],
    )];

    let query = SearchQuery::new("rust".to_string(), SearchMode::Description);
    let results = query.search(&gists).unwrap();
    assert_eq!(results.len(), 1);
}

#[test]
fn test_search_by_description_no_description() {
    let gists = vec![create_test_gist("abc123", None, vec!["file.rs"])];

    let query = SearchQuery::new("rust".to_string(), SearchMode::Description);
    let results = query.search(&gists).unwrap();
    assert_eq!(results.len(), 0);
}

#[test]
fn test_search_both() {
    let gists = vec![
        create_test_gist("abc123", Some("Rust script"), vec!["main.rs"]),
        create_test_gist("def456", Some("Python script"), vec!["rust_file.py"]),
        create_test_gist("ghi789", Some("Other"), vec!["file.js"]),
    ];

    let query = SearchQuery::new("rust".to_string(), SearchMode::Both);
    let results = query.search(&gists).unwrap();
    assert_eq!(results.len(), 2);
}

#[test]
fn test_search_no_results() {
    let gists = vec![create_test_gist("abc123", Some("Test"), vec!["file.rs"])];

    let query = SearchQuery::new("nonexistent".to_string(), SearchMode::Both);
    let results = query.search(&gists).unwrap();
    assert_eq!(results.len(), 0);
}

#[test]
fn test_search_with_auto_mode_id() {
    let gists = vec![
        create_test_gist(
            "abc123def456789012345678901234ab",
            Some("Test 1"),
            vec!["file1.rs"],
        ),
        create_test_gist("def456", Some("Test 2"), vec!["file2.rs"]),
    ];

    let query = SearchQuery::new(
        "abc123def456789012345678901234ab".to_string(),
        SearchMode::Auto,
    );
    let results = query.search(&gists).unwrap();
    assert_eq!(results.len(), 1);
    assert_eq!(results[0].id, "abc123def456789012345678901234ab");
}

#[test]
fn test_search_with_auto_mode_keyword() {
    let gists = vec![
        create_test_gist("abc123", Some("Rust script"), vec!["main.rs"]),
        create_test_gist("def456", Some("Python script"), vec!["main.py"]),
    ];

    let query = SearchQuery::new("rust".to_string(), SearchMode::Auto);
    let results = query.search(&gists).unwrap();
    assert_eq!(results.len(), 1);
    assert_eq!(results[0].id, "abc123");
}

#[test]
fn test_search_both_description_only_match() {
    let gists = vec![
        create_test_gist("abc123", Some("contains keyword"), vec!["other.rs"]),
        create_test_gist("def456", Some("no match"), vec!["file.py"]),
    ];

    let query = SearchQuery::new("keyword".to_string(), SearchMode::Both);
    let results = query.search(&gists).unwrap();
    assert_eq!(results.len(), 1);
    assert_eq!(results[0].id, "abc123");
}

#[test]
fn test_search_both_filename_only_match() {
    let gists = vec![
        create_test_gist("abc123", Some("description"), vec!["keyword.rs"]),
        create_test_gist("def456", Some("other"), vec!["file.py"]),
    ];

    let query = SearchQuery::new("keyword".to_string(), SearchMode::Both);
    let results = query.search(&gists).unwrap();
    assert_eq!(results.len(), 1);
    assert_eq!(results[0].id, "abc123");
}

#[test]
fn test_search_both_no_description() {
    let gists = vec![
        create_test_gist("abc123", None, vec!["keyword.rs"]),
        create_test_gist("def456", Some("has desc"), vec!["file.py"]),
    ];

    let query = SearchQuery::new("keyword".to_string(), SearchMode::Both);
    let results = query.search(&gists).unwrap();
    assert_eq!(results.len(), 1);
    assert_eq!(results[0].id, "abc123");
}

#[test]
fn test_search_filename_multiple_files() {
    let gists = vec![
        create_test_gist("abc123", Some("Test"), vec!["main.rs", "lib.rs"]),
        create_test_gist("def456", Some("Test"), vec!["test.py", "target.rs"]),
    ];

    let query = SearchQuery::new("target".to_string(), SearchMode::Filename);
    let results = query.search(&gists).unwrap();
    assert_eq!(results.len(), 1);
    assert_eq!(results[0].id, "def456");
}

#[test]
fn test_search_both_multiple_matches() {
    let gists = vec![
        create_test_gist("abc123", Some("rust programming"), vec!["main.rs"]),
        create_test_gist("def456", Some("python code"), vec!["rust.py"]),
        create_test_gist("ghi789", Some("javascript"), vec!["app.js"]),
    ];

    let query = SearchQuery::new("rust".to_string(), SearchMode::Both);
    let results = query.search(&gists).unwrap();
    assert_eq!(results.len(), 2);
}

#[test]
fn test_search_empty_gist_list() {
    let gists: Vec<GistInfo> = vec![];

    let query = SearchQuery::new("test".to_string(), SearchMode::Both);
    let results = query.search(&gists).unwrap();
    assert_eq!(results.len(), 0);
}

#[test]
fn test_search_id_no_match() {
    let gists = vec![create_test_gist("abc123", Some("Test"), vec!["file.rs"])];

    let query = SearchQuery::new("xyz999".to_string(), SearchMode::Id);
    let results = query.search(&gists).unwrap();
    assert_eq!(results.len(), 0);
}

#[test]
fn test_search_mode_auto_with_short_hex() {
    // 31 hex digits are one short of an id
    let query = SearchQuery::new("a".repeat(31), SearchMode::Auto);
    let mode = query.detect_mode();
    assert!(matches!(mode, SearchMode::Both));
}

#[test]
fn test_search_mode_auto_with_non_hex() {
    // 32 characters, but not all hex digits
    let query = SearchQuery::new("g".repeat(32), SearchMode::Auto);
    let mode = query.detect_mode();
    assert!(matches!(mode, SearchMode::Both));
}

#[test]
fn test_filter_by_regex() {
    let gists = vec![
        create_test_gist("abc123", Some("Test regex pattern"), vec!["file1.rs"]),
        create_test_gist("def456", Some("Another test"), vec!["file2.py"]),
        create_test_gist("ghi789", Some("No match"), vec!["file3.js"]),
    ];

    let options = SearchOptions {
        regex: Some(r"^Test".to_string()),
        language: None,
        extension: None,
    };

    let query = SearchQuery::new_with_options("test".to_string(), SearchMode::Both, options);
    let results = query.search(&gists).unwrap();
    assert_eq!(results.len(), 1);
    assert_eq!(results[0].id, "abc123");
}

#[test]
fn test_filter_by_regex_filename() {
    let gists = vec![
        create_test_gist("abc123", Some("Description"), vec!["config.toml"]),
        create_test_gist("def456", Some("Description"), vec!["script.py"]),
        create_test_gist("ghi789", Some("Description"), vec!["main.rs"]),
    ];

    let options = SearchOptions {
        regex: Some(r"\.toml$".to_string()),
        language: None,
        extension: None,
    };

    let query = SearchQuery::new_with_options("".to_string(), SearchMode::Both, options);
    let results = query.search(&gists).unwrap();
    assert_eq!(results.len(), 1);
    assert_eq!(results[0].id, "abc123");
}

#[test]
fn test_filter_by_invalid_regex() {
    let gists = vec![create_test_gist("abc123", Some("Test"), vec!["file.rs"])];

    let options = SearchOptions {
        regex: Some("[invalid".to_string()),
        language: None,
        extension: None,
    };

    let query = SearchQuery::new_with_options("test".to_string(), SearchMode::Both, options);
    let result = query.search(&gists);
    assert!(result.is_err());
    assert!(matches!(
        result.unwrap_err(),
        GistCacheError::InvalidPattern(_)
    ));
}

#[test]
fn test_filter_by_language() {
    let gists = vec![
        create_test_gist_with_language(
            "abc123",
            Some("Rust script"),
            vec![("main.rs", Some("Rust"))],
        ),
        create_test_gist_with_language(
            "def456",
            Some("Python script"),
            vec![("script.py", Some("Python"))],
        ),
        create_test_gist_with_language(
            "ghi789",
            Some("JS file"),
            vec![("app.js", Some("JavaScript"))],
        ),
    ];

    let options = SearchOptions {
        regex: None,
        language: Some("rust".to_string()),
        extension: None,
    };

    let query = SearchQuery::new_with_options("script".to_string(), SearchMode::Both, options);
    let results = query.search(&gists).unwrap();
    assert_eq!(results.len(), 1);
    assert_eq!(results[0].id, "abc123");
}

#[test]
fn test_filter_by_language_case_insensitive() {
    let gists = vec![
        create_test_gist_with_language("abc123", Some("Test"), vec![("file.py", Some("Python"))]),
        create_test_gist_with_language("def456", Some("Test"), vec![("file.rs", Some("Rust"))]),
    ];

    let options = SearchOptions {
        regex: None,
        language: Some("PYTHON".to_string()),
        extension: None,
    };

    let query = SearchQuery::new_with_options("test".to_string(), SearchMode::Both, options);
    let results = query.search(&gists).unwrap();
    assert_eq!(results.len(), 1);
    assert_eq!(results[0].id, "abc123");
}

#[test]
fn test_filter_by_language_no_match() {
    let gists = vec![create_test_gist_with_language(
        "abc123",
        Some("Test"),
        vec![("file.py", Some("Python"))],
    )];

    let options = SearchOptions {
        regex: None,
        language: Some("Rust".to_string()),
        extension: None,
    };

    let query = SearchQuery::new_with_options("test".to_string(), SearchMode::Both, options);
    let results = query.search(&gists).unwrap();
    assert_eq!(results.len(), 0);
}

#[test]
fn test_filter_by_extension() {
    let gists = vec![
        create_test_gist("abc123", Some("Rust file"), vec!["main.rs"]),
        create_test_gist("def456", Some("Python file"), vec!["script.py"]),
        create_test_gist("ghi789", Some("Config file"), vec!["config.toml"]),
    ];

    let options = SearchOptions {
        regex: None,
        language: None,
        extension: Some("rs".to_string()),
    };

    let query = SearchQuery::new_with_options("file".to_string(), SearchMode::Both, options);
    let results = query.search(&gists).unwrap();
    assert_eq!(results.len(), 1);
    assert_eq!(results[0].id, "abc123");
}

#[test]
fn test_filter_by_extension_with_dot() {
    let gists = vec![
        create_test_gist("abc123", Some("Test"), vec!["file.py"]),
        create_test_gist("def456", Some("Test"), vec!["file.rs"]),
    ];

    let options = SearchOptions {
        regex: None,
        language: None,
        extension: Some(".py".to_string()),
    };

    let query = SearchQuery::new_with_options("test".to_string(), SearchMode::Both, options);
    let results = query.search(&gists).unwrap();
    assert_eq!(results.len(), 1);
    assert_eq!(results[0].id, "abc123");
}

#[test]
fn test_filter_by_extension_case_insensitive() {
    let gists = vec![
        create_test_gist("abc123", Some("Test"), vec!["File.RS"]),
        create_test_gist("def456", Some("Test"), vec!["file.py"]),
    ];

    let options = SearchOptions {
        regex: None,
        language: None,
        extension: Some("RS".to_string()),
    };

    let query = SearchQuery::new_with_options("test".to_string(), SearchMode::Both, options);
    let results = query.search(&gists).unwrap();
    assert_eq!(results.len(), 1);
    assert_eq!(results[0].id, "abc123");
}

#[test]
fn test_combined_filters() {
    let gists = vec![
        create_test_gist_with_language(
            "abc123",
            Some("Rust config"),
            vec![("config.toml", Some("TOML"))],
        ),
        create_test_gist_with_language(
            "def456",
            Some("Rust script"),
            vec![("main.rs", Some("Rust"))],
        ),
        create_test_gist_with_language(
            "ghi789",
            Some("Python script"),
            vec![("script.py", Some("Python"))],
        ),
    ];

    let options = SearchOptions {
        regex: Some(r"^Rust".to_string()),
        language: Some("Rust".to_string()),
        extension: Some("rs".to_string()),
    };

    let query = SearchQuery::new_with_options("script".to_string(), SearchMode::Both, options);
    let results = query.search(&gists).unwrap();
    assert_eq!(results.len(), 1);
    assert_eq!(results[0].id, "def456");
}

#[test]
fn test_filter_with_multiple_files() {
    let gists = vec![
        create_test_gist_with_language(
            "abc123",
            Some("Mixed project"),
            vec![("main.rs", Some("Rust")), ("script.py", Some("Python"))],
        ),
        create_test_gist_with_language(
            "def456",
            Some("Rust only"),
            vec![("lib.rs", Some("Rust"))],
        ),
    ];

    let options = SearchOptions {
        regex: None,
        language: Some("Python".to_string()),
        extension: None,
    };

    let query = SearchQuery::new_with_options("project".to_string(), SearchMode::Both, options);
    let results = query.search(&gists).unwrap();
    assert_eq!(results.len(), 1);
    assert_eq!(results[0].id, "abc123");
}

#[test]
fn test_no_filters_applied() {
    let gists = vec![
        create_test_gist("abc123", Some("Test 1"), vec!["file1.rs"]),
        create_test_gist("def456", Some("Test 2"), vec!["file2.py"]),
    ];

    let options = SearchOptions::default();

    let query = SearchQuery::new_with_options("test".to_string(), SearchMode::Both, options);
    let results = query.search(&gists).unwrap();
    assert_eq!(results.len(), 2);
}

#[test]
fn test_filter_results_in_no_matches() {
    let gists = vec![create_test_gist_with_language(
        "abc123",
        Some("Python script"),
        vec![("script.py", Some("Python"))],
    )];

    let options = SearchOptions {
        regex: None,
        language: Some("Rust".to_string()),
        extension: None,
    };

    let query = SearchQuery::new_with_options("script".to_string(), SearchMode::Both, options);
    let results = query.search(&gists).unwrap();
    assert_eq!(results.len(), 0);
}
