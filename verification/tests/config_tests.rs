use px::Config;
use px::ConfigError;
use px::ConfigType;
use px::FoundManifest;
use px::ManifestSet;
use px::ScriptExecutor;

fn empty_sources() -> ManifestSet {
    ManifestSet {
        px_json: None,
        px_toml: None,
        package_json: None,
        cargo_toml: None,
        composer_json: None,
    }
}

fn found(dir: &str, text: &str) -> Option<FoundManifest> {
    Some(FoundManifest { dir: dir.to_string(), text: text.to_string() })
}

#[test]
fn px_json_scripts_string_and_table() {
    let mut sources = empty_sources();
    sources.px_json = found(
        "/work",
        r#"{"scripts": {"build": "cargo build", "lint": {"cmd": "cargo clippy", "description": "lints"}}}"#,
    );
    let config = Config::new(&sources).unwrap();
    let build = config.get_script(&"build".to_string()).unwrap();
    assert_eq!(build.cmd, "cargo build");
    assert_eq!(build.description, None);
    assert_eq!(build.cwd(), "/work");
    assert_eq!(*build.executor(), ScriptExecutor::Direct);
    let lint = config.get_script(&"lint".to_string()).unwrap();
    assert_eq!(lint.cmd, "cargo clippy");
    assert_eq!(lint.description, Some("lints".to_string()));
}

#[test]
fn px_json_beats_package_json() {
    let mut sources = empty_sources();
    sources.px_json = found("/repo", r#"{"scripts": {"test": "cargo test"}}"#);
    sources.package_json = found("/repo/js", r#"{"scripts": {"test": "jest"}}"#);
    let config = Config::new(&sources).unwrap();
    let test = config.get_script(&"test".to_string()).unwrap();
    assert_eq!(test.cmd, "cargo test");
    assert_eq!(*test.executor(), ScriptExecutor::Direct);
    assert_eq!(test.cwd(), "/repo");
}

#[test]
fn px_json_beats_px_toml() {
    let mut sources = empty_sources();
    sources.px_json = found("/a", r#"{"scripts": {"go": "first"}}"#);
    sources.px_toml = found("/b", "[scripts]\ngo = \"second\"\nextra = \"kept\"\n");
    let config = Config::new(&sources).unwrap();
    assert_eq!(config.get_script(&"go".to_string()).unwrap().cmd, "first");
    assert_eq!(config.get_script(&"extra".to_string()).unwrap().cmd, "kept");
}

#[test]
fn executor_override_first_wins() {
    let mut sources = empty_sources();
    sources.px_json = found("/a", r#"{"executor": {"npm": "first-tool"}}"#);
    sources.px_toml = found("/a", "[executor]\nnpm = \"second-tool\"\n");
    sources.package_json = found("/a/js", r#"{"scripts": {"dev": "x"}}"#);
    let config = Config::new(&sources).unwrap();
    let dev = config.get_script(&"dev".to_string()).unwrap();
    assert_eq!(*dev.executor(), ScriptExecutor::Custom("first-tool".to_string()));
}

#[test]
fn package_manager_pnpm_inferred() {
    let mut sources = empty_sources();
    sources.package_json = found(
        "/js",
        r#"{"packageManager": "pnpm@8.0.0", "scripts": {"dev": "vite"}}"#,
    );
    let config = Config::new(&sources).unwrap();
    let dev = config.get_script(&"dev".to_string()).unwrap();
    assert_eq!(*dev.executor(), ScriptExecutor::Pnpm);
    assert_eq!(dev.cmd, "");
}

#[test]
fn package_manager_yarn_inferred() {
    let mut sources = empty_sources();
    sources.package_json = found(
        "/js",
        r#"{"packageManager": "yarn@3", "scripts": {"dev": "vite"}}"#,
    );
    let config = Config::new(&sources).unwrap();
    assert_eq!(
        *config.get_script(&"dev".to_string()).unwrap().executor(),
        ScriptExecutor::Yarn
    );
}

#[test]
fn package_manager_absent_or_unknown_is_npm() {
    let mut sources = empty_sources();
    sources.package_json = found("/js", r#"{"scripts": {"a": "x"}}"#);
    let config = Config::new(&sources).unwrap();
    assert_eq!(
        *config.get_script(&"a".to_string()).unwrap().executor(),
        ScriptExecutor::Npm
    );

    let mut sources2 = empty_sources();
    sources2.package_json = found(
        "/js",
        r#"{"packageManager": "bun@1.0", "scripts": {"a": "x"}}"#,
    );
    let config2 = Config::new(&sources2).unwrap();
    assert_eq!(
        *config2.get_script(&"a".to_string()).unwrap().executor(),
        ScriptExecutor::Npm
    );
}

#[test]
fn explicit_override_field_beats_package_manager() {
    let mut sources = empty_sources();
    sources.package_json = found(
        "/js",
        r#"{"px": {"executor": "mytool"}, "packageManager": "pnpm@8.0.0", "scripts": {"dev": "vite"}}"#,
    );
    let config = Config::new(&sources).unwrap();
    assert_eq!(
        *config.get_script(&"dev".to_string()).unwrap().executor(),
        ScriptExecutor::Custom("mytool".to_string())
    );
}

#[test]
fn deferred_script_resolves_through_delegator() {
    let mut sources = empty_sources();
    sources.package_json = found("/js", r#"{"scripts": {"build": "webpack"}}"#);
    let config = Config::new(&sources).unwrap();
    let build = config.get_script(&"build".to_string()).unwrap();
    assert_eq!(build.cmd, "");
    assert_ne!(*build.executor(), ScriptExecutor::Direct);
    let line = build.command_line(&vec!["--watch".to_string()]);
    assert_eq!(line, "npm run build -- --watch");
}

#[test]
fn composer_only_scripts_default_executor() {
    let mut sources = empty_sources();
    sources.composer_json = found("/php", r#"{"scripts": {"lint": "phpcs"}}"#);
    let config = Config::new(&sources).unwrap();
    let lint = config.get_script(&"lint".to_string()).unwrap();
    assert_eq!(lint.cmd, "");
    assert_eq!(*lint.executor(), ScriptExecutor::Composer);
    assert_eq!(lint.cwd(), "/php");
    let line = lint.command_line(&Vec::new());
    assert_eq!(line, "composer run-script lint --");
}

#[test]
fn composer_override_field_registers_custom_executor() {
    let mut sources = empty_sources();
    sources.composer_json = found(
        "/php",
        r#"{"px": {"executor": "mytool"}, "scripts": {"lint": "phpcs"}}"#,
    );
    let config = Config::new(&sources).unwrap();
    let lint = config.get_script(&"lint".to_string()).unwrap();
    assert_eq!(*lint.executor(), ScriptExecutor::Custom("mytool".to_string()));
    let line = lint.command_line(&Vec::new());
    assert_eq!(line, "mytool lint --");
}

#[test]
fn cargo_metadata_scripts_are_direct() {
    let mut sources = empty_sources();
    sources.cargo_toml = found(
        "/rs",
        "[package]\nname = \"demo\"\n[package.metadata.scripts]\ncheck = \"cargo check\"\n",
    );
    let config = Config::new(&sources).unwrap();
    let check = config.get_script(&"check".to_string()).unwrap();
    assert_eq!(check.cmd, "cargo check");
    assert_eq!(*check.executor(), ScriptExecutor::Direct);
}

#[test]
fn invalid_json_reports_its_format() {
    let mut sources = empty_sources();
    sources.px_json = found("/a", "{ not json");
    let err = Config::new(&sources).unwrap_err();
    assert_eq!(err, ConfigError::Parse(ConfigType::PxJson));
}

#[test]
fn invalid_toml_reports_its_format() {
    let mut sources = empty_sources();
    sources.cargo_toml = found("/a", "= broken =");
    let err = Config::new(&sources).unwrap_err();
    assert_eq!(err, ConfigError::Parse(ConfigType::CargoToml));
}

#[test]
fn unknown_executor_names_and_shapes_are_skipped() {
    let mut sources = empty_sources();
    sources.px_json = found(
        "/a",
        r#"{"executor": {"weird": "tool", "npm": {"nested": true}}}"#,
    );
    sources.package_json = found("/a/js", r#"{"scripts": {"dev": "x"}}"#);
    let config = Config::new(&sources).unwrap();
    assert_eq!(
        *config.get_script(&"dev".to_string()).unwrap().executor(),
        ScriptExecutor::Npm
    );
}

#[test]
fn script_table_without_cmd_is_skipped() {
    let mut sources = empty_sources();
    sources.px_json = found("/a", r#"{"scripts": {"x": {"description": "no command"}}}"#);
    let config = Config::new(&sources).unwrap();
    assert!(config.get_script(&"x".to_string()).is_none());
    assert_eq!(config.scripts.len(), 0);
}
