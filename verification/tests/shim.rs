use py_plugin_shim::cfg::parse_cfg;
use py_plugin_shim::init::{chain_server_init, plan_init, should_intercept, CfgSource, InitPlan};
use py_plugin_shim::path::{build_plugin_path, replace};
use py_plugin_shim::version::is_wf_version_string;
use py_plugin_shim::{Config, PyVersion};

#[test]
fn detects_each_supported_version() {
    let v = PyVersion::from("3.10.4 (main, Jun  1 2024, 00:00:00) [GCC 12]".to_string());
    assert!(matches!(v, PyVersion::Py3_10));
    assert_eq!(v.to_version(), "310");

    let v = PyVersion::from("3.11.0 (tags/v3.11.0) [MSC]".to_string());
    assert!(matches!(v, PyVersion::Py3_11));
    assert_eq!(v.to_version(), "311");

    let v = PyVersion::from("3.12.9 (main) [Clang]".to_string());
    assert!(matches!(v, PyVersion::Py3_12));
    assert_eq!(v.to_version(), "312");

    let v = PyVersion::from("3.13.1 (main) [GCC]".to_string());
    assert!(matches!(v, PyVersion::Py3_13));
    assert_eq!(v.to_version(), "313");
}

#[test]
fn unsupported_versions_keep_the_raw_string() {
    let raw = "3.9.0 (default, Oct  1 2020) [GCC]";
    let v = PyVersion::from(raw.to_string());
    match &v {
        PyVersion::Unknown(s) => assert_eq!(s, raw),
        _ => panic!("expected Unknown"),
    }
    assert_eq!(v.to_version(), "unknown");

    let v = PyVersion::from("4.0.0 (future)".to_string());
    assert!(matches!(v, PyVersion::Unknown(_)));
    assert_eq!(v.to_version(), "unknown");

    let v = PyVersion::from("2.7.18 (default)".to_string());
    assert!(matches!(v, PyVersion::Unknown(_)));
    assert_eq!(v.to_version(), "unknown");
}

#[test]
fn leading_zeros_read_as_the_same_number() {
    let v = PyVersion::from("03.010.0 (main)".to_string());
    assert!(matches!(v, PyVersion::Py3_10));
}

#[test]
fn display_strings() {
    assert_eq!(PyVersion::Py3_10.display_string(), "3.10.x");
    assert_eq!(PyVersion::Py3_11.display_string(), "3.11.x");
    assert_eq!(PyVersion::Py3_12.display_string(), "3.12.x");
    assert_eq!(PyVersion::Py3_13.display_string(), "3.13.x");
    let v = PyVersion::Unknown("9.9.9 (odd)".to_string());
    assert_eq!(v.display_string(), "9.9.9 (odd)");
}

#[test]
fn well_formedness_of_version_strings() {
    assert!(is_wf_version_string("3.10.4 (main)"));
    assert!(is_wf_version_string("3.9 whatever"));
    assert!(!is_wf_version_string("3.10.4"));
    assert!(!is_wf_version_string("3.x.1 foo"));
    assert!(!is_wf_version_string("3 foo"));
    assert!(!is_wf_version_string("300.1.2 foo"));
    assert!(!is_wf_version_string(""));
    assert!(!is_wf_version_string(".. foo"));
}

#[test]
fn detector_is_idempotent() {
    let a = PyVersion::from("3.12.1 (main)".to_string());
    let b = PyVersion::from("3.12.1 (main)".to_string());
    assert!(matches!(a, PyVersion::Py3_12));
    assert!(matches!(b, PyVersion::Py3_12));
    assert_eq!(a.to_version(), b.to_version());
    assert_eq!(a.display_string(), b.display_string());

    let a = PyVersion::from("5.0.0 (odd)".to_string());
    let b = PyVersion::from("5.0.0 (odd)".to_string());
    assert_eq!(a.display_string(), b.display_string());
    assert_eq!(a.to_version(), b.to_version());
}

#[test]
fn parses_both_keys() {
    let cfg = parse_cfg(
        "python_plugins_dir /opt/plugins\npython_filename_format plugin_{py_version}.so",
    );
    assert_eq!(cfg.dir, "/opt/plugins");
    assert_eq!(cfg.filename_format, "plugin_{py_version}.so");
}

#[test]
fn resolves_the_documented_example_path() {
    let cfg = parse_cfg(
        "python_plugins_dir /opt/plugins\npython_filename_format plugin_{py_version}.so",
    );
    let path = build_plugin_path(&cfg, "312");
    assert_eq!(path, "/opt/plugins/plugin_312.so");
}

#[test]
fn empty_text_keeps_the_defaults() {
    let cfg = parse_cfg("");
    assert_eq!(cfg.dir, "./libraries");
    assert_eq!(cfg.filename_format, "python04rel64rspyo3py{py_version}");
    let path = build_plugin_path(&cfg, "313");
    assert_eq!(path, "./libraries/python04rel64rspyo3py313");
}

#[test]
fn default_config_values() {
    let cfg = Config::default();
    assert_eq!(cfg.dir, "./libraries");
    assert_eq!(cfg.filename_format, "python04rel64rspyo3py{py_version}");
}

#[test]
fn blank_and_comment_lines_have_no_effect() {
    let plain = "python_plugins_dir /a\npython_filename_format f_{py_version}";
    let noisy = "\n# leading comment python_plugins_dir /wrong\n\npython_plugins_dir /a\n   \n  # another # comment\npython_filename_format f_{py_version}\n\n";
    let a = parse_cfg(plain);
    let b = parse_cfg(noisy);
    assert_eq!(a.dir, b.dir);
    assert_eq!(a.filename_format, b.filename_format);
    assert_eq!(b.dir, "/a");
    assert_eq!(b.filename_format, "f_{py_version}");
}

#[test]
fn unrecognized_keys_are_ignored() {
    let cfg = parse_cfg("some_other_key value\npython_plugins_dir /x\nport 8192");
    assert_eq!(cfg.dir, "/x");
    assert_eq!(cfg.filename_format, "python04rel64rspyo3py{py_version}");
}

#[test]
fn keys_match_case_insensitively() {
    let cfg = parse_cfg("PYTHON_PLUGINS_DIR /y\nPython_Filename_Format g{py_version}");
    assert_eq!(cfg.dir, "/y");
    assert_eq!(cfg.filename_format, "g{py_version}");
}

#[test]
fn lines_without_a_space_are_skipped() {
    let cfg = parse_cfg("nospace\npython_plugins_dir /z");
    assert_eq!(cfg.dir, "/z");
}

#[test]
fn keys_and_values_are_trimmed() {
    let cfg = parse_cfg("  python_plugins_dir   /w  \r\n\tpython_filename_format\t h{py_version} \t");
    assert_eq!(cfg.dir, "/w");
    assert_eq!(cfg.filename_format, "h{py_version}");
}

#[test]
fn replaces_every_placeholder_occurrence() {
    assert_eq!(replace("a{py_version}b{py_version}", "{py_version}", "311"), "a311b311");
    assert_eq!(replace("no placeholder", "{py_version}", "311"), "no placeholder");
    assert_eq!(replace("{py_version}", "{py_version}", "310"), "310");
}

#[test]
fn joins_paths_without_doubling_separators() {
    let cfg = Config { dir: "p/".to_string(), filename_format: "f_{py_version}".to_string() };
    assert_eq!(build_plugin_path(&cfg, "311"), "p/f_311");
    let cfg = Config { dir: "".to_string(), filename_format: "f_{py_version}".to_string() };
    assert_eq!(build_plugin_path(&cfg, "311"), "f_311");
}

#[test]
fn path_builder_is_idempotent() {
    let cfg = parse_cfg("python_plugins_dir /opt\npython_filename_format p{py_version}.so");
    let a = build_plugin_path(&cfg, "310");
    let b = build_plugin_path(&cfg, "310");
    assert_eq!(a, b);
    assert_eq!(a, "/opt/p310.so");
}

#[test]
fn planning_fails_on_an_unsupported_runtime() {
    let v = PyVersion::Unknown("3.9.0 (default)".to_string());
    let plan = plan_init(&v, &CfgSource::Missing);
    assert!(matches!(plan, InitPlan::Unsupported));
    let plan = plan_init(&v, &CfgSource::ReadError);
    assert!(matches!(plan, InitPlan::Unsupported));
}

#[test]
fn planning_fails_on_an_unreadable_config() {
    let plan = plan_init(&PyVersion::Py3_11, &CfgSource::ReadError);
    assert!(matches!(plan, InitPlan::ConfigError));
}

#[test]
fn planning_resolves_the_path_from_missing_config() {
    match plan_init(&PyVersion::Py3_12, &CfgSource::Missing) {
        InitPlan::Load(p) => assert_eq!(p, "./libraries/python04rel64rspyo3py312"),
        _ => panic!("expected Load"),
    }
}

#[test]
fn planning_resolves_the_path_from_config_text() {
    let text = "python_plugins_dir /srv/plug\npython_filename_format py{py_version}.so";
    match plan_init(&PyVersion::Py3_13, &CfgSource::Content(text.to_string())) {
        InitPlan::Load(p) => assert_eq!(p, "/srv/plug/py313.so"),
        _ => panic!("expected Load"),
    }
}

#[test]
fn interception_happens_only_on_success() {
    assert!(should_intercept(1));
    assert!(!should_intercept(0));
    assert!(!should_intercept(2));
}

#[test]
fn chaining_returns_the_original_status_or_success() {
    assert_eq!(chain_server_init(Some(7)), 7);
    assert_eq!(chain_server_init(Some(0)), 0);
    assert_eq!(chain_server_init(None), 1);
}
