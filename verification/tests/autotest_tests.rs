use quicktool::autotest::{
    select_compiler, extend_path_with_dir, build_params, parse_stage_args, filter_labels,
    select_stage_labels, stage_labels, plan_autotest, plan_stage_discovery,
    plan_stage_from_discovery, classify_tool, overlay_file_path, ToolKind,
};
use quicktool::config::ClassConfig;
use quicktool::errors::AutotestError;
use quicktool::strutil::{join_path, parent_dir};

fn strings(items: &[&str]) -> Vec<String> {
    items.iter().map(|s| s.to_string()).collect()
}

fn session_config() -> ClassConfig {
    let mut config = ClassConfig::new("cs1091").unwrap();
    config.load_bash_config("public_html_session_directory=/web/cs1091");
    config
}

const CHECKER: &str = "/web/cs1091/public/_infra/extern/c_check/c_check.py";
const CHECKER_DIR: &str = "/web/cs1091/public/_infra/extern/c_check";

#[test]
fn single_pass_consumes_leading_compiler() {
    let args = strings(&["dcc", "foo.c"]);
    let (compiler, remaining) = select_compiler(&args);
    assert_eq!(compiler, "dcc");
    assert_eq!(remaining, strings(&["foo.c"]));
}

#[test]
fn single_pass_defaults_to_clang() {
    let args = strings(&["foo.c", "bar"]);
    let (compiler, remaining) = select_compiler(&args);
    assert_eq!(compiler, "clang");
    assert_eq!(remaining, strings(&["foo.c", "bar"]));
    let (compiler, remaining) = select_compiler(&[]);
    assert_eq!(compiler, "clang");
    assert!(remaining.is_empty());
}

#[test]
fn path_extension_forms() {
    let inherited = "/usr/bin:/bin".to_string();
    assert_eq!(extend_path_with_dir(Some(&inherited), Some("/web/x")), "/usr/bin:/bin:/web/x");
    assert_eq!(extend_path_with_dir(None, Some("/web/x")), "/web/x");
    assert_eq!(extend_path_with_dir(Some(&String::new()), Some("/web/x")), "/web/x");
    assert_eq!(extend_path_with_dir(Some(&inherited), None), "/usr/bin:/bin");
    assert_eq!(extend_path_with_dir(None, None), "");
}

#[test]
fn parameters_literal_exact() {
    let expected = format!(
        "default_compilers = {{'c': [['gcc', '-Werror']]}} default_checkers = {{'c': [['python3', '{}']]}}",
        CHECKER
    );
    assert_eq!(build_params("gcc", CHECKER), expected);
}

#[test]
fn stage_args_scenario() {
    let args = strings(&["1091", "gcc", "wk01", "./a.out"]);
    let req = parse_stage_args(&args).unwrap();
    assert_eq!(req.compiler, "gcc");
    assert_eq!(req.stage_prefix, "wk01");
    assert_eq!(req.command_tail, strings(&["./a.out"]));
}

#[test]
fn stage_args_without_marker_or_compiler() {
    let args = strings(&["wk01", "./prog", "extra"]);
    let req = parse_stage_args(&args).unwrap();
    assert_eq!(req.compiler, "clang");
    assert_eq!(req.stage_prefix, "wk01");
    assert_eq!(req.command_tail, strings(&["./prog", "extra"]));
}

#[test]
fn stage_args_reject_dot_c_anywhere() {
    for args in [
        strings(&["foo.c"]),
        strings(&["gcc", "wk01", "foo.c"]),
        strings(&["1091", "dcc", "wk01", "./prog", "x.c"]),
        strings(&["file.c", "wk01", "./prog"]),
    ] {
        assert_eq!(parse_stage_args(&args), Err(AutotestError::InvalidArgument));
    }
}

#[test]
fn stage_args_usage_errors() {
    for args in [
        strings(&[]),
        strings(&["wk01"]),
        strings(&["gcc", "wk01"]),
        strings(&["1091", "gcc", "wk01"]),
    ] {
        assert_eq!(parse_stage_args(&args), Err(AutotestError::UsageError));
    }
}

#[test]
fn discovery_filter_scenario() {
    let labels = stage_labels(
        true,
        "[{\"labels\": [\"wk01_q1\", \"wk01_q2\", \"wk02_q1\"]}]",
        "",
    )
    .unwrap();
    assert_eq!(labels, strings(&["wk01_q1", "wk01_q2", "wk02_q1"]));
    let selected = select_stage_labels(&labels, "wk01").unwrap();
    assert_eq!(selected, strings(&["wk01_q1", "wk01_q2"]));
}

#[test]
fn discovery_no_matching_prefix() {
    let labels = stage_labels(true, "[{\"labels\": [\"wk02_q1\"]}]", "").unwrap();
    assert_eq!(labels, strings(&["wk02_q1"]));
    assert_eq!(
        select_stage_labels(&labels, "wk01"),
        Err(AutotestError::NoMatchingTests("wk01".to_string()))
    );
}

#[test]
fn no_second_invocation_when_nothing_matches() {
    let config = session_config();
    let args = strings(&["wk01", "./prog"]);
    let req = parse_stage_args(&args).unwrap();
    let planned = plan_stage_from_discovery(
        &config,
        &req,
        None,
        true,
        "[{\"labels\": [\"wk02_q1\"]}]",
        "",
    );
    match planned {
        Err(AutotestError::NoMatchingTests(prefix)) => assert_eq!(prefix, "wk01"),
        other => panic!("expected NoMatchingTests, got {:?}", other.map(|p| p.1)),
    }
}

#[test]
fn discovery_failure_propagates_stderr() {
    assert_eq!(
        stage_labels(false, "irrelevant", "the tool exploded"),
        Err(AutotestError::DiscoveryFailed("the tool exploded".to_string()))
    );
}

#[test]
fn discovery_unparseable_output() {
    assert_eq!(
        stage_labels(true, "this is not json", ""),
        Err(AutotestError::DiscoveryFailed("JSON parsing error".to_string()))
    );
}

#[test]
fn discovery_manifest_shape_errors() {
    assert_eq!(stage_labels(true, "[]", ""), Err(AutotestError::ManifestShapeError));
    assert_eq!(stage_labels(true, "[{}]", ""), Err(AutotestError::ManifestShapeError));
    assert_eq!(
        stage_labels(true, "{\"labels\": [\"wk01_q1\"]}", ""),
        Err(AutotestError::ManifestShapeError)
    );
    // A `labels` member that is not an array is a shape error too.
    assert_eq!(stage_labels(true, "[{\"labels\": 7}]", ""), Err(AutotestError::ManifestShapeError));
    assert_eq!(
        stage_labels(true, "[{\"labels\": \"wk01_q1\"}]", ""),
        Err(AutotestError::ManifestShapeError)
    );
}

#[test]
fn discovery_skips_non_string_labels() {
    let labels = stage_labels(true, "[{\"labels\": [\"wk01_a\", 5, \"wk01_b\"]}]", "").unwrap();
    assert_eq!(labels, strings(&["wk01_a", "wk01_b"]));
    let labels = stage_labels(true, "[{\"labels\": []}]", "").unwrap();
    assert!(labels.is_empty());
}

#[test]
fn filter_keeps_order_and_is_case_sensitive() {
    let labels = strings(&["wk01_b", "WK01_a", "wk01_a", "wk02", "wk01"]);
    assert_eq!(filter_labels(&labels, "wk01"), strings(&["wk01_b", "wk01_a", "wk01"]));
    assert_eq!(filter_labels(&labels, ""), labels);
}

#[test]
fn single_pass_invocation_layout() {
    let config = session_config();
    let inherited = "/usr/bin".to_string();
    let command = plan_autotest(&config, &strings(&["gcc", "prog"]), Some(&inherited));
    assert_eq!(command.program, "python3");
    let expected_params = build_params("gcc", CHECKER);
    assert_eq!(
        command.args,
        vec![
            "-I".to_string(),
            "/usr/local/share/autotest/autotest.py".to_string(),
            "--exercise_directory".to_string(),
            "/web/cs1091/activities".to_string(),
            "--parameters".to_string(),
            expected_params,
            "prog".to_string(),
        ]
    );
    assert_eq!(command.path_var, format!("/usr/bin:{}", CHECKER_DIR));
}

#[test]
fn discovery_invocation_appends_enumeration_flag() {
    let config = session_config();
    let args = strings(&["dcc", "wk01", "./prog"]);
    let req = parse_stage_args(&args).unwrap();
    let command = plan_stage_discovery(&config, &req, None);
    let expected_params = build_params("dcc", CHECKER);
    assert_eq!(
        command.args,
        vec![
            "-I".to_string(),
            "/usr/local/share/autotest/autotest.py".to_string(),
            "--exercise_directory".to_string(),
            "/web/cs1091/activities".to_string(),
            "--parameters".to_string(),
            expected_params,
            "./prog".to_string(),
            "--print_test_names".to_string(),
        ]
    );
    assert_eq!(command.path_var, CHECKER_DIR);
}

#[test]
fn staged_execution_carries_selected_labels() {
    let config = session_config();
    let args = strings(&["1091", "wk01", "./prog"]);
    let req = parse_stage_args(&args).unwrap();
    let (command, selected) = plan_stage_from_discovery(
        &config,
        &req,
        None,
        true,
        "[{\"labels\": [\"wk01_q1\", \"wk01_q2\", \"wk02_q1\"]}]",
        "",
    )
    .unwrap();
    assert_eq!(selected, strings(&["wk01_q1", "wk01_q2"]));
    let expected_params = build_params("clang", CHECKER);
    assert_eq!(
        command.args,
        vec![
            "-I".to_string(),
            "/usr/local/share/autotest/autotest.py".to_string(),
            "--exercise_directory".to_string(),
            "/web/cs1091/activities".to_string(),
            "--parameters".to_string(),
            expected_params,
            "./prog".to_string(),
            "-l".to_string(),
            "wk01_q1".to_string(),
            "wk01_q2".to_string(),
        ]
    );
}

#[test]
fn empty_session_directory_yields_relative_layout() {
    let config = ClassConfig::new("cs1091").unwrap();
    let command = plan_autotest(&config, &strings(&[]), None);
    assert_eq!(command.args[3], "activities");
    assert_eq!(command.path_var, "public/_infra/extern/c_check");
}

#[test]
fn tool_classification() {
    assert_eq!(classify_tool("autotest"), Some(ToolKind::SinglePass));
    assert_eq!(classify_tool("/usr/bin/autotest"), Some(ToolKind::SinglePass));
    assert_eq!(classify_tool("/home/cs1091/bin/autotest-stage"), Some(ToolKind::Staged));
    assert_eq!(classify_tool("quicktool"), None);
    assert_eq!(classify_tool("/usr/bin/other"), None);
}

#[test]
fn overlay_location_per_tool_depth() {
    let real = "/web/cs1091/tools/autotest/bin/autotest.py";
    assert_eq!(overlay_file_path(real, 1), "/web/cs1091/tools/autotest/bin/config.sh");
    assert_eq!(overlay_file_path(real, 2), "/web/cs1091/tools/autotest/config.sh");
    assert_eq!(overlay_file_path("autotest.py", 1), "config.sh");
}

#[test]
fn path_helpers() {
    assert_eq!(join_path("", "x"), "x");
    assert_eq!(join_path("/a", "b"), "/a/b");
    assert_eq!(join_path("/a/", "b"), "/a/b");
    assert_eq!(parent_dir("/a/b"), "/a");
    assert_eq!(parent_dir("/a"), "/");
    assert_eq!(parent_dir("/"), "");
    assert_eq!(parent_dir("a"), "");
}

#[test]
fn error_messages() {
    assert_eq!(
        AutotestError::UsageError.message(),
        "Invalid arguments for autotest-stage"
    );
    assert_eq!(
        AutotestError::NotFound("COMP1511".to_string()).message(),
        "COMP1511: autotest not found"
    );
    assert_eq!(
        AutotestError::ResolutionError("denied".to_string()).message(),
        "Failed to canonicalize autotest path: denied"
    );
    assert_eq!(
        AutotestError::ConfigLoadError("gone".to_string()).message(),
        "Could not load bash config: gone"
    );
    assert_eq!(AutotestError::InvalidArgument.message(), "Invalid .c files in arguments");
    assert_eq!(AutotestError::DiscoveryFailed("boom".to_string()).message(), "boom");
    assert_eq!(
        AutotestError::ManifestShapeError.message(),
        "No labels found in autotest output"
    );
    assert_eq!(
        AutotestError::NoMatchingTests("wk01".to_string()).message(),
        "No tests found with prefix 'wk01'"
    );
    assert_eq!(
        AutotestError::SpawnError("no python3".to_string()).message(),
        "Failed to execute process: no python3"
    );
}
