//! Record types, run options, the updater carrier and the timestamp
//! conversions.

use gist_cache::config::{Config, UserConfig};
use gist_cache::execution::{RunOptions, ScriptRunner};
use gist_cache::self_update::{UpdateOptions, Updater};
use gist_cache::time::{format_timestamp, parse_timestamp};
use gist_cache::update::build_index_now;
use gist_cache::error::GistCacheError;
use gist_cache::types::gist_record;
use gist_cache::types::{GistFile, GistInfo};

fn test_config() -> Config {
    Config {
        cache_dir: "/tmp/gist-cache".to_string(),
        cache_file: "/tmp/gist-cache/cache.json".to_string(),
        contents_dir: "/tmp/gist-cache/contents".to_string(),
        download_dir: "/tmp/downloads".to_string(),
        config_file: "/tmp/gist-cache/config.toml".to_string(),
        user_config: UserConfig::default(),
    }
}

fn create_test_gist() -> GistInfo {
    GistInfo {
        id: "test123".to_string(),
        description: Some("Test gist".to_string()),
        files: vec![
            GistFile {
                filename: "test.sh".to_string(),
                language: Some("Shell".to_string()),
                size: 100,
            },
            GistFile {
                filename: "test.py".to_string(),
                language: Some("Python".to_string()),
                size: 200,
            },
        ],
        updated_at: 1_700_000_000,
        public: true,
        html_url: "https://gist.github.com/test123".to_string(),
    }
}

#[test]
fn test_gist_file_clone() {
    let file = GistFile {
        filename: "test.rs".to_string(),
        language: Some("Rust".to_string()),
        size: 100,
    };

    let cloned = file.clone();
    assert_eq!(file.filename, cloned.filename);
    assert_eq!(file.language, cloned.language);
    assert_eq!(file.size, cloned.size);
}

#[test]
fn test_gist_info_without_description() {
    let gist = GistInfo {
        id: "test123".to_string(),
        description: None,
        files: vec![],
        updated_at: 1_700_000_000,
        public: false,
        html_url: "https://gist.github.com/test123".to_string(),
    };

    assert_eq!(gist.description, None);
    assert!(!gist.public);
}

#[test]
fn test_run_options() {
    let options = RunOptions {
        interactive: true,
        preview: false,
        download: true,
        force_file_based: false,
    };

    assert!(options.interactive);
    assert!(!options.preview);
    assert!(options.download);
    assert!(!options.force_file_based);
}

#[test]
fn test_run_options_combinations() {
    let options = RunOptions {
        interactive: true,
        preview: true,
        download: true,
        force_file_based: true,
    };

    assert!(options.interactive);
    assert!(options.preview);
    assert!(options.download);
    assert!(options.force_file_based);
}

#[test]
fn test_run_options_preview_mode() {
    let options = RunOptions {
        interactive: false,
        preview: true,
        download: false,
        force_file_based: false,
    };

    assert!(options.preview);
    assert!(!options.interactive);
}

#[test]
fn test_run_options_download_mode() {
    let options = RunOptions {
        interactive: false,
        preview: false,
        download: true,
        force_file_based: false,
    };

    assert!(options.download);
    assert!(!options.preview);
}

#[test]
fn test_runner_new() {
    let gist = create_test_gist();
    let config = test_config();

    let runner = ScriptRunner::new(
        gist,
        "bash".to_string(),
        None,
        true,
        RunOptions {
            interactive: false,
            preview: false,
            download: false,
            force_file_based: false,
        },
        vec![],
        config,
    );

    assert_eq!(runner.interpreter, "bash");
    assert!(runner.is_shell);
}

#[test]
fn test_select_main_file_single_file() {
    let config = test_config();
    let mut gist = create_test_gist();
    gist.files = vec![GistFile {
        filename: "single.sh".to_string(),
        language: Some("Shell".to_string()),
        size: 100,
    }];

    let runner = ScriptRunner::new(
        gist,
        "bash".to_string(),
        None,
        true,
        RunOptions {
            interactive: false,
            preview: false,
            download: false,
            force_file_based: false,
        },
        vec![],
        config,
    );

    let main_file = runner.select_main_file().unwrap();
    assert_eq!(main_file.filename, "single.sh");
}

#[test]
fn test_select_main_file_multiple_files() {
    let config = test_config();
    let gist = create_test_gist();

    let runner = ScriptRunner::new(
        gist,
        "python3".to_string(),
        None,
        false,
        RunOptions {
            interactive: false,
            preview: false,
            download: false,
            force_file_based: false,
        },
        vec![],
        config,
    );

    // the interpreter's preferred extension decides
    let main_file = runner.select_main_file().unwrap();
    assert_eq!(main_file.filename, "test.py");
}

#[test]
fn test_select_main_file_with_explicit_filename() {
    let config = test_config();
    let gist = create_test_gist();

    // the run command does not pick files by name; the interpreter decides
    let runner = ScriptRunner::new(
        gist,
        "bash".to_string(),
        Some("test.py".to_string()),
        true,
        RunOptions {
            interactive: false,
            preview: false,
            download: false,
            force_file_based: false,
        },
        vec![],
        config,
    );

    let main_file = runner.select_main_file().unwrap();
    assert_eq!(main_file.filename, "test.sh");
}

#[test]
fn test_updater_creation() {
    let options = UpdateOptions {
        from_source: false,
        check: false,
        force: false,
        version: None,
        verbose: false,
    };

    let updater = Updater::new(options);
    assert!(!updater.options.from_source);
    assert!(!updater.options.check);
    assert!(!updater.options.force);
    assert!(updater.options.version.is_none());
    assert!(!updater.options.verbose);
}

#[test]
fn test_updater_with_options() {
    let options = UpdateOptions {
        from_source: true,
        check: true,
        force: true,
        version: Some("0.5.0".to_string()),
        verbose: true,
    };

    let updater = Updater::new(options);
    assert!(updater.options.from_source);
    assert!(updater.options.check);
    assert!(updater.options.force);
    assert_eq!(updater.options.version, Some("0.5.0".to_string()));
    assert!(updater.options.verbose);
}

#[test]
fn test_format_timestamp_rfc3339() {
    assert_eq!(
        format_timestamp(1_704_110_400),
        Some("2024-01-01T12:00:00Z".to_string())
    );
    assert_eq!(format_timestamp(0), Some("1970-01-01T00:00:00Z".to_string()));
}

#[test]
fn test_parse_timestamp_rfc3339() {
    assert_eq!(parse_timestamp("2024-01-01T12:00:00Z"), Some(1_704_110_400));
    assert_eq!(parse_timestamp("not a timestamp"), None);
    // the two conversions agree with each other
    let rendered = format_timestamp(1_700_000_000).unwrap();
    assert_eq!(parse_timestamp(&rendered), Some(1_700_000_000));
}

#[test]
fn test_gist_record_decodes_timestamp() {
    let r = gist_record(
        "abc".to_string(),
        Some("a gist".to_string()),
        vec![],
        "2024-01-01T12:00:00Z",
        true,
        "https://gist.github.com/abc".to_string(),
    )
    .unwrap();
    assert_eq!(r.id, "abc");
    assert_eq!(r.updated_at, 1_704_110_400);

    let bad = gist_record(
        "abc".to_string(),
        None,
        vec![],
        "yesterday-ish",
        true,
        String::new(),
    );
    assert!(matches!(bad.unwrap_err(), GistCacheError::CacheParse(_)));
}

#[test]
fn test_build_index_now_counts() {
    let idx = build_index_now(vec![create_test_gist()], "someone".to_string());
    assert_eq!(idx.metadata.total_count, 1);
    assert_eq!(idx.metadata.github_user, "someone");
    assert_eq!(idx.gists[0].id, "test123");
}
