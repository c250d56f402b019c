use px::Script;
use px::ScriptExecutor;

#[test]
fn from_str_is_case_insensitive() {
    assert_eq!(ScriptExecutor::from_str("NPM"), Ok(ScriptExecutor::Npm));
    assert_eq!(ScriptExecutor::from_str("Composer"), Ok(ScriptExecutor::Composer));
    assert_eq!(ScriptExecutor::from_str("yarn"), Ok(ScriptExecutor::Yarn));
    assert_eq!(ScriptExecutor::from_str("PnPm"), Ok(ScriptExecutor::Pnpm));
}

#[test]
fn from_str_rejects_unknown_names() {
    assert_eq!(
        ScriptExecutor::from_str("bogus"),
        Err("Invalid Executor: bogus".to_string())
    );
}

#[test]
fn infer_default_reads_the_prefix() {
    assert_eq!(ScriptExecutor::infer_default(Some("pnpm@8.0.0")), ScriptExecutor::Pnpm);
    assert_eq!(ScriptExecutor::infer_default(Some("yarn@3")), ScriptExecutor::Yarn);
    assert_eq!(ScriptExecutor::infer_default(Some("npm@10")), ScriptExecutor::Npm);
    assert_eq!(ScriptExecutor::infer_default(Some("something-else")), ScriptExecutor::Npm);
    assert_eq!(ScriptExecutor::infer_default(None), ScriptExecutor::Npm);
}

#[test]
fn direct_command_line_appends_arguments() {
    let script = Script::from_string(
        "run".to_string(),
        "echo hi".to_string(),
        "/w".to_string(),
        ScriptExecutor::Direct,
    );
    let line = script.command_line(&vec!["a".to_string(), "b".to_string()]);
    assert_eq!(line, "echo hi a b");
}

#[test]
fn direct_command_line_trims_trailing_whitespace() {
    let script = Script::from_string(
        "run".to_string(),
        "echo hi  ".to_string(),
        "/w".to_string(),
        ScriptExecutor::Direct,
    );
    assert_eq!(script.command_line(&Vec::new()), "echo hi");
}

#[test]
fn delegator_command_lines() {
    let args = vec!["--fast".to_string()];
    let npm = Script::from_string(
        "build".to_string(),
        String::new(),
        "/w".to_string(),
        ScriptExecutor::Npm,
    );
    assert_eq!(npm.command_line(&args), "npm run build -- --fast");
    let yarn = Script::from_string(
        "build".to_string(),
        String::new(),
        "/w".to_string(),
        ScriptExecutor::Yarn,
    );
    assert_eq!(yarn.command_line(&args), "yarn run build -- --fast");
    let pnpm = Script::from_string(
        "build".to_string(),
        String::new(),
        "/w".to_string(),
        ScriptExecutor::Pnpm,
    );
    assert_eq!(pnpm.command_line(&args), "pnpm run build -- --fast");
    let composer = Script::from_string(
        "build".to_string(),
        String::new(),
        "/w".to_string(),
        ScriptExecutor::Composer,
    );
    assert_eq!(composer.command_line(&args), "composer run-script build -- --fast");
}

#[test]
fn custom_command_line_uses_the_tool() {
    let script = Script::from_string(
        "deploy".to_string(),
        String::new(),
        "/w".to_string(),
        ScriptExecutor::Custom("mytool".to_string()),
    );
    assert_eq!(
        script.command_line(&vec!["--dry".to_string()]),
        "mytool deploy -- --dry"
    );
}
