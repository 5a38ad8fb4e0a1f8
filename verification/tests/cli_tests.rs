//! Byte formatting, shebang parsing, extension analysis and the
//! interpreter run-plan table.

use gist_cache::cli::{
    detect_interpreter_from_config, detect_interpreter_from_filename, detect_shebang, format_bytes,
    get_file_extension, get_valid_interpreters_for_extension, language_to_interpreter,
    parse_interpreter, resolve_interpreter, select_main_file_for_gist, OutputFormat, Shell,
};
use gist_cache::config::{Config, DefaultsConfig, InterpreterSetting, UserConfig};
use gist_cache::error::GistCacheError;
use gist_cache::types::{GistFile, GistInfo};

fn empty_config() -> Config {
    Config {
        cache_dir: "/tmp/cache".to_string(),
        cache_file: "/tmp/cache/cache.json".to_string(),
        contents_dir: "/tmp/cache/contents".to_string(),
        download_dir: "/tmp/downloads".to_string(),
        config_file: "/tmp/config.toml".to_string(),
        user_config: UserConfig::default(),
    }
}

#[test]
fn test_parse_interpreter_bash() {
    let result = parse_interpreter(Some("bash"), None).unwrap();
    assert_eq!(result.0, "bash");
    assert_eq!(result.1, None);
    assert!(result.2); // is_shell
    assert!(!result.3); // force_file_based
}

#[test]
fn test_parse_interpreter_sh() {
    let result = parse_interpreter(Some("sh"), None).unwrap();
    assert_eq!(result.0, "sh");
    assert!(result.2);
}

#[test]
fn test_parse_interpreter_zsh() {
    let result = parse_interpreter(Some("zsh"), None).unwrap();
    assert_eq!(result.0, "zsh");
    assert!(result.2);
}

#[test]
fn test_parse_interpreter_python() {
    let result = parse_interpreter(Some("python3"), None).unwrap();
    assert_eq!(result.0, "python3");
    assert!(!result.2);
}

#[test]
fn test_parse_interpreter_ruby() {
    let result = parse_interpreter(Some("ruby"), None).unwrap();
    assert_eq!(result.0, "ruby");
    assert!(!result.2);
}

#[test]
fn test_parse_interpreter_node() {
    let result = parse_interpreter(Some("node"), None).unwrap();
    assert_eq!(result.0, "node");
    assert!(!result.2);
}

#[test]
fn test_parse_interpreter_perl() {
    let result = parse_interpreter(Some("perl"), None).unwrap();
    assert_eq!(result.0, "perl");
    assert!(!result.2);
}

#[test]
fn test_parse_interpreter_uv() {
    let result = parse_interpreter(Some("uv"), None).unwrap();
    assert_eq!(result.0, "python3");
    assert_eq!(result.1, Some("uv run".to_string()));
    assert!(result.3);
}

#[test]
fn test_parse_interpreter_poetry() {
    // poetry falls back to python3
    let result = parse_interpreter(Some("poetry"), None).unwrap();
    assert_eq!(result.0, "python3");
    assert_eq!(result.1, None);
    assert!(!result.3);
}

#[test]
fn test_parse_interpreter_none() {
    let result = parse_interpreter(None, None).unwrap();
    assert_eq!(result.0, "bash");
    assert!(result.2);
}

#[test]
fn test_parse_interpreter_php() {
    let result = parse_interpreter(Some("php"), None).unwrap();
    assert_eq!(result.0, "php");
    assert!(result.3);
}

#[test]
fn test_parse_interpreter_pwsh() {
    let result = parse_interpreter(Some("pwsh"), None).unwrap();
    assert_eq!(result.0, "pwsh");
    assert!(result.3);
}

#[test]
fn test_parse_interpreter_powershell() {
    let result = parse_interpreter(Some("powershell"), None).unwrap();
    assert_eq!(result.0, "powershell");
    assert!(result.3);
}

#[test]
fn test_parse_interpreter_ts_node() {
    let result = parse_interpreter(Some("ts-node"), None).unwrap();
    assert_eq!(result.0, "ts-node");
    assert!(result.3);
}

#[test]
fn test_parse_interpreter_deno() {
    let result = parse_interpreter(Some("deno"), None).unwrap();
    assert_eq!(result.0, "deno");
    assert_eq!(result.1, Some("deno run".to_string()));
    assert!(result.3);
}

#[test]
fn test_parse_interpreter_bun() {
    let result = parse_interpreter(Some("bun"), None).unwrap();
    assert_eq!(result.0, "bun");
    assert!(result.3);
}

#[test]
fn test_parse_interpreter_python_alias() {
    let result = parse_interpreter(Some("python"), None).unwrap();
    assert_eq!(result.0, "python");
    assert!(!result.2);
}

#[test]
fn test_parse_interpreter_custom_invalid() {
    let result = parse_interpreter(Some("nonexistent_xyz_123"), None);
    assert!(result.is_err());
    assert!(matches!(
        result.unwrap_err(),
        GistCacheError::InvalidInterpreter(_)
    ));
}

#[test]
fn test_format_bytes() {
    assert_eq!(format_bytes(0), "0 bytes");
    assert_eq!(format_bytes(512), "512 bytes");
    assert_eq!(format_bytes(1024), "1.00 KB");
    assert_eq!(format_bytes(1024 * 1024), "1.00 MB");
    assert_eq!(format_bytes(1024 * 1024 * 1024), "1.00 GB");
    assert_eq!(format_bytes(1536), "1.50 KB");
    assert_eq!(format_bytes(2560), "2.50 KB");
    assert_eq!(format_bytes(1024 * 1024 * 2), "2.00 MB");
}

#[test]
fn test_format_bytes_multiple_gb() {
    assert_eq!(format_bytes(1024 * 1024 * 1024 * 2), "2.00 GB");
    assert_eq!(format_bytes(1536 * 1024 * 1024), "1.50 GB");
}

#[test]
fn test_format_bytes_edge_cases() {
    assert_eq!(format_bytes(1023), "1023 bytes");
    // just below the MB threshold
    let result = format_bytes(1024 * 1024 - 1);
    assert!(result.starts_with("1023.") || result.starts_with("1024."));
    // just below the GB threshold
    let result = format_bytes(1024 * 1024 * 1024 - 1);
    assert!(result.starts_with("1023.") || result.starts_with("1024."));
}

#[test]
fn test_shell_enum_values() {
    let shells = [Shell::Bash, Shell::Zsh, Shell::Fish, Shell::PowerShell];
    assert_eq!(shells.len(), 4);

    assert_eq!(Shell::Bash, Shell::Bash);
    assert_eq!(Shell::Zsh, Shell::Zsh);
    assert_eq!(Shell::Fish, Shell::Fish);
    assert_eq!(Shell::PowerShell, Shell::PowerShell);
}

#[test]
fn test_output_format_values() {
    assert_eq!(OutputFormat::Text, OutputFormat::Text);
    assert_ne!(OutputFormat::Text, OutputFormat::Json);
}

#[test]
fn test_detect_shebang_env_format() {
    let content = "#!/usr/bin/env python3\nprint('hello')";
    assert_eq!(detect_shebang(content), Some("python3".to_string()));
}

#[test]
fn test_detect_shebang_direct_path() {
    let content = "#!/usr/bin/python3\nprint('hello')";
    assert_eq!(detect_shebang(content), Some("python3".to_string()));
}

#[test]
fn test_detect_shebang_no_shebang() {
    let content = "print('hello')";
    assert_eq!(detect_shebang(content), None);
}

#[test]
fn test_detect_shebang_bare_name() {
    assert_eq!(detect_shebang("#!bash\necho hi"), Some("bash".to_string()));
    assert_eq!(detect_shebang(""), None);
    assert_eq!(
        detect_shebang("#! /bin/sh -e\nexit 0"),
        Some("sh".to_string())
    );
}

#[test]
fn test_get_file_extension() {
    assert_eq!(get_file_extension("script.py"), Some("py".to_string()));
    assert_eq!(get_file_extension("test.rb"), Some("rb".to_string()));
    assert_eq!(get_file_extension("Makefile"), None);
    assert_eq!(get_file_extension("test.tar.gz"), Some("gz".to_string()));
}

#[test]
fn test_detect_interpreter_from_filename() {
    assert_eq!(
        detect_interpreter_from_filename("script.py"),
        Some("python3".to_string())
    );
    assert_eq!(
        detect_interpreter_from_filename("test.rb"),
        Some("ruby".to_string())
    );
    assert_eq!(
        detect_interpreter_from_filename("app.js"),
        Some("node".to_string())
    );
    assert_eq!(
        detect_interpreter_from_filename("script.sh"),
        Some("bash".to_string())
    );
    assert_eq!(
        detect_interpreter_from_filename("Makefile"),
        Some("make".to_string())
    );
}

#[test]
fn test_detect_interpreter_from_config() {
    let mut config = empty_config();

    let table = vec![
        ("py".to_string(), "python3".to_string()),
        ("rb".to_string(), "ruby".to_string()),
        ("Makefile".to_string(), "make".to_string()),
    ];
    config.user_config.defaults = Some(DefaultsConfig {
        interpreter: Some(InterpreterSetting::Multiple(table)),
    });

    assert_eq!(
        detect_interpreter_from_config(&config, "script.py"),
        Some("python3".to_string())
    );
    assert_eq!(
        detect_interpreter_from_config(&config, "test.rb"),
        Some("ruby".to_string())
    );

    assert_eq!(
        detect_interpreter_from_config(&config, "Makefile"),
        Some("make".to_string())
    );

    assert_eq!(detect_interpreter_from_config(&config, "unknown.xyz"), None);
}

#[test]
fn test_language_to_interpreter() {
    assert_eq!(
        language_to_interpreter("Python"),
        Some("python3".to_string())
    );
    assert_eq!(language_to_interpreter("Ruby"), Some("ruby".to_string()));
    assert_eq!(
        language_to_interpreter("JavaScript"),
        Some("node".to_string())
    );
    assert_eq!(language_to_interpreter("Bash"), Some("bash".to_string()));
    assert_eq!(language_to_interpreter("Unknown"), None);
}

#[test]
fn test_get_valid_interpreters_for_extension() {
    assert_eq!(get_valid_interpreters_for_extension("py"), vec!["uv", "python3"]);
    assert_eq!(get_valid_interpreters_for_extension("rb"), vec!["ruby"]);
    assert_eq!(
        get_valid_interpreters_for_extension("ts"),
        vec!["ts-node", "deno", "bun"]
    );
    assert_eq!(get_valid_interpreters_for_extension("*").len(), 15);
    assert!(get_valid_interpreters_for_extension("xyz").is_empty());
}

#[test]
fn test_resolve_interpreter_priorities() {
    let config = empty_config();

    // explicit argument wins
    let r = resolve_interpreter(Some("ruby"), "script.py", None, &config).unwrap();
    assert_eq!(r.0, "ruby");

    // shebang beats filename heuristics
    let r = resolve_interpreter(
        None,
        "script.py",
        Some("#!/usr/bin/env ruby\nputs 1"),
        &config,
    )
    .unwrap();
    assert_eq!(r.0, "ruby");

    // filename heuristics without content
    let r = resolve_interpreter(None, "script.py", None, &config).unwrap();
    assert_eq!(r.0, "python3");

    // the final fallback is bash
    let r = resolve_interpreter(None, "notes.txt", None, &config).unwrap();
    assert_eq!(r.0, "bash");
    assert!(r.2);
}

#[test]
fn test_resolve_interpreter_language_table() {
    let config = empty_config();

    // the language table answers for a bare extension-like name
    let r = resolve_interpreter(None, "py", Some("x"), &config).unwrap();
    assert_eq!(r.0, "python3");

    // content heuristics catch a python-looking body
    let r = resolve_interpreter(
        None,
        "noext_name",
        Some("import os\ndef main():\n    pass"),
        &config,
    )
    .unwrap();
    assert_eq!(r.0, "python3");
}

#[test]
fn test_select_main_file_for_gist_prefers_script() {
    let gist = GistInfo {
        id: "abc".to_string(),
        description: None,
        files: vec![
            GistFile {
                filename: "README.md".to_string(),
                language: None,
                size: 10,
            },
            GistFile {
                filename: "run.sh".to_string(),
                language: Some("Shell".to_string()),
                size: 20,
            },
        ],
        updated_at: 0,
        public: true,
        html_url: String::new(),
    };
    let main = select_main_file_for_gist(&gist).unwrap();
    assert_eq!(main.filename, "run.sh");
}
