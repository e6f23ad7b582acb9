use uv_align::checks::{
    check_uv_command, check_upgrade_status, command_words, launch_failure, upgrade_outcome,
    validate_file_exists, validate_root_directory_exists,
};
use uv_align::cli::{
    check_mode_hint, confirms, exit_code, next_step, parse_cli_args, validate_conflicting_flags,
    Cli, NextStep,
};
use uv_align::deps::{
    compute_dependency_changes, map_dependencies, DependencyChange, LockDependency,
    PyprojectDependency,
};
use uv_align::edit::{apply_changes, apply_changes_to_document, write_failure};
use uv_align::messages::{get_error_msg, get_success_msg, get_warning_msg};
use uv_align::normalise::{
    collapse_name_separators, normalise_dependency_name, normalise_dependency_version,
};
use uv_align::pep508::{parse_pep508_string, parse_version_constraint, rewrite_version};
use uv_align::report::{
    diff_text, out_of_sync_summary, parse_uv_update_output, parse_uv_update_text,
    uv_modified_dependencies_text,
};
use uv_align::text::{i32_text, split_words, usize_text, white_space};
use uv_align::toml_read::{read_dependencies, read_failure, read_lock_versions};

fn dep(name: &str, version: Option<&str>, operator: Option<&str>, suffix: Option<&str>, group: Option<&str>) -> PyprojectDependency {
    PyprojectDependency {
        name: name.to_string(),
        normalised_name: normalise_dependency_name(name),
        version: version.map(|s| s.to_string()),
        operator: operator.map(|s| s.to_string()),
        suffix: suffix.map(|s| s.to_string()),
        group: group.map(|s| s.to_string()),
    }
}

fn lock(name: &str, version: &str) -> LockDependency {
    LockDependency {
        name: name.to_string(),
        normalised_name: normalise_dependency_name(name),
        version: version.to_string(),
    }
}

// Styled messages

#[test]
fn success_message_is_green_check_mark_then_text() {
    assert_eq!(get_success_msg("done"), "\x1b[92m\u{2714}\x1b[39m done");
}

#[test]
fn warning_message_is_yellow_sign_then_text() {
    assert_eq!(get_warning_msg("careful"), "\x1b[93m\u{26a0}\x1b[39m careful");
}

#[test]
fn error_message_is_red_cross_then_text() {
    assert_eq!(get_error_msg("broken"), "\x1b[91m\u{2716}\x1b[39m broken");
}

// Command line

#[test]
fn conflicting_flags_message() {
    let err = validate_conflicting_flags(true, true, "--check", "-y / --yes").unwrap_err();
    assert_eq!(
        err.message,
        "\x1b[91m\u{2716}\x1b[39m The '\x1b[91m--check\x1b[39m' and '\x1b[91m-y / --yes\x1b[39m' flags cannot be used together."
    );
    assert!(err.cause.is_none());
    assert!(validate_conflicting_flags(false, true, "a", "b").is_ok());
    assert!(validate_conflicting_flags(false, false, "a", "b").is_ok());
}

#[test]
fn cli_args_copy_the_options() {
    let cli = Cli { path: "proj".to_string(), check: true, yes: false, upgrade: true, verbose: false };
    let args = parse_cli_args(&cli);
    assert_eq!(args.path, "proj");
    assert!(args.check && !args.yes && args.upgrade && !args.verbose);
}

#[test]
fn check_mode_exits_with_one_only_when_out_of_sync() {
    assert_eq!(next_step(3, true, false), NextStep::ShowOnly);
    assert_eq!(exit_code(next_step(3, true, false)), 1);
    assert_eq!(next_step(0, true, false), NextStep::InSync);
    assert_eq!(exit_code(next_step(0, true, false)), 0);
    assert_eq!(next_step(2, false, true), NextStep::Apply);
    assert_eq!(next_step(2, false, false), NextStep::Confirm);
    assert_eq!(exit_code(NextStep::Apply), 0);
}

#[test]
fn only_y_confirms() {
    assert!(confirms('y'));
    assert!(confirms('Y'));
    assert!(!confirms('n'));
    assert!(!confirms('\n'));
}

#[test]
fn check_mode_hint_text() {
    assert_eq!(
        check_mode_hint("."),
        "\x1b[92m\u{2714}\x1b[39m Run '\x1b[92muv-align\x1b[39m \x1b[92m.\x1b[39m' without the '\x1b[92m--check\x1b[39m' flag to apply changes."
    );
}

// Checks

#[test]
fn root_directory_checks() {
    assert!(validate_root_directory_exists("proj", true, true).is_ok());
    assert!(validate_root_directory_exists("proj", true, false).is_err());
    let err = validate_root_directory_exists("proj", false, false).unwrap_err();
    assert_eq!(
        err.message,
        "\x1b[91m\u{2716}\x1b[39m The specified path does not exist or is not a directory: \x1b[91mproj\x1b[39m"
    );
}

#[test]
fn missing_file_message() {
    assert!(validate_file_exists("uv.lock", "/p/uv.lock", true).is_ok());
    let err = validate_file_exists("uv.lock", "/p/uv.lock", false).unwrap_err();
    assert_eq!(
        err.message,
        "\x1b[91m\u{2716}\x1b[39m The required file '\x1b[91muv.lock\x1b[39m' does not exist at: \x1b[91m/p/uv.lock\x1b[39m"
    );
}

#[test]
fn uv_command_checks() {
    assert!(check_uv_command(None).is_ok());
    let err = check_uv_command(Some("not found")).unwrap_err();
    assert_eq!(
        err.message,
        "\x1b[91m\u{2716}\x1b[39m Failed to execute '\x1b[91muv\x1b[39m'. Ensure it is installed and available in the PATH. Error: \x1b[91mnot found\x1b[39m"
    );
}

#[test]
fn upgrade_command_words_and_status() {
    assert_eq!(command_words("uv lock --upgrade"), vec!["uv", "lock", "--upgrade"]);
    assert_eq!(command_words("  uv\tlock \n --upgrade  "), vec!["uv", "lock", "--upgrade"]);
    assert!(command_words("   ").is_empty());
    assert!(check_upgrade_status("uv lock --upgrade", true, Some(0)).is_ok());
    let err = check_upgrade_status("uv lock", false, Some(2)).unwrap_err();
    assert_eq!(
        err.message,
        "\x1b[91m\u{2716}\x1b[39m '\x1b[91muv lock\x1b[39m' command failed with exit code: \x1b[91m2\x1b[39m"
    );
    let err = check_upgrade_status("uv lock", false, None).unwrap_err();
    assert!(err.message.ends_with("\x1b[91m-1\x1b[39m"));
    let err = launch_failure("uv lock", "denied");
    assert_eq!(
        err.message,
        "\x1b[91m\u{2716}\x1b[39m Failed to execute '\x1b[91muv lock\x1b[39m'. Error: \x1b[91mdenied\x1b[39m"
    );
}

// Text helpers against std

#[test]
fn white_space_matches_std() {
    for code in 0u32..0x11_0000 {
        if let Some(c) = char::from_u32(code) {
            assert_eq!(white_space(c), c.is_whitespace(), "{:?}", c);
        }
    }
}

#[test]
fn split_words_matches_std() {
    for s in ["", " a b ", "a\u{3000}b\u{85}c", "\t\n", "one"] {
        let expected: Vec<&str> = s.split_whitespace().collect();
        assert_eq!(split_words(s), expected);
    }
}

#[test]
fn decimal_text() {
    assert_eq!(usize_text(0), "0");
    assert_eq!(usize_text(1234), "1234");
    assert_eq!(usize_text(usize::MAX), usize::MAX.to_string());
    assert_eq!(i32_text(-1), "-1");
    assert_eq!(i32_text(i32::MIN), i32::MIN.to_string());
    assert_eq!(i32_text(42), "42");
}

// Names and versions

#[test]
fn names_lowercase_through_std() {
    assert_eq!(normalise_dependency_name("ABC"), "abc");
    assert_eq!(normalise_dependency_name("Django"), "django");
}

#[test]
fn separators_are_interchangeable_in_names() {
    assert_eq!(normalise_dependency_name("my_package"), normalise_dependency_name("my-package"));
    assert_eq!(normalise_dependency_name("a.b_c"), normalise_dependency_name("a-b-c"));
    assert_eq!(normalise_dependency_name("-._x_.-"), "-x-");
    assert_eq!(collapse_name_separators("a__b"), "a-b");
}

#[test]
fn normalised_names_are_fixed_points() {
    for s in ["My.Cool-Package", "weird___name", "--x..y__"] {
        let once = normalise_dependency_name(s);
        assert_eq!(normalise_dependency_name(&once), once);
    }
}

#[test]
fn trailing_zero_components_are_ignored() {
    assert_eq!(normalise_dependency_version("0.25.0"), normalise_dependency_version("0.25"));
    assert_eq!(normalise_dependency_version("1.2"), "1.2");
    assert_eq!(normalise_dependency_version("0"), "0");
    assert_eq!(normalise_dependency_version("0.0"), "0");
    assert_eq!(normalise_dependency_version(""), "");
    assert_eq!(normalise_dependency_version("1.0.0.0"), "1");
    assert_eq!(normalise_dependency_version("1.0.1"), "1.0.1");
    assert_eq!(normalise_dependency_version("2.00"), "2.00");
}

// PEP 508 strings

#[test]
fn pep508_edge_cases() {
    assert!(parse_pep508_string("# only a comment", None).is_none());
    assert!(parse_pep508_string(">=1.0", None).is_none());

    let d = parse_pep508_string("foo>=1.0 # pinned", None).unwrap();
    assert_eq!(d.version, Some("1.0".to_string()));

    let d = parse_pep508_string("pkg @ git+https://example.com/pkg.git", Some("dev".into())).unwrap();
    assert_eq!(d.name, "pkg");
    assert_eq!(d.operator, None);
    assert_eq!(d.version, None);
    assert_eq!(d.group, Some("dev".to_string()));

    let d = parse_pep508_string("  Pkg_Name[extra, other] >= 1.0 ; os_name == 'nt' ", None).unwrap();
    assert_eq!(d.name, "Pkg_Name");
    assert_eq!(d.normalised_name, "pkg-name");
    assert_eq!(d.operator, Some(">=".to_string()));
    assert_eq!(d.version, Some("1.0".to_string()));

    let d = parse_pep508_string("foo[bar>=1", None).unwrap();
    assert_eq!(d.operator, Some("[bar>=".to_string()));
    assert_eq!(d.version, Some("1".to_string()));

    let d = parse_pep508_string("foo>=1.0 ,<2", None).unwrap();
    assert_eq!(d.version, Some("1.0".to_string()));
    assert_eq!(d.suffix, Some(",<2".to_string()));

    let d = parse_pep508_string("pkg@ git+https://github.com/user/repo.git", None).unwrap();
    assert_eq!(d.name, "pkg");
    assert_eq!(d.normalised_name, "pkg");
    assert_eq!(d.operator, None);
    assert_eq!(d.version, None);
    assert_eq!(d.suffix, None);

    let vc = parse_version_constraint(">= 1.0");
    assert_eq!(vc.operator, Some(">=".to_string()));
    assert_eq!(vc.version, Some("1.0".to_string()));
    assert_eq!(vc.suffix, None);

    let vc = parse_version_constraint("");
    assert!(vc.operator.is_none() && vc.version.is_none() && vc.suffix.is_none());
    let vc = parse_version_constraint("abc");
    assert_eq!(vc.operator, Some("abc".to_string()));
    assert_eq!(vc.version, Some("".to_string()));
}

#[test]
fn rewritten_dependency_reads_back() {
    let d = parse_pep508_string("httpx>=0.24,<1.0", Some("dev".into())).unwrap();
    let written = rewrite_version("httpx>=0.24,<1.0", "0.28.1");
    assert_eq!(written, "httpx>=0.28.1,<1.0");
    let back = parse_pep508_string(&written, Some("dev".into())).unwrap();
    assert_eq!(back.name, d.name);
    assert_eq!(back.operator, d.operator);
    assert_eq!(back.version, Some("0.28.1".to_string()));
    assert_eq!(back.suffix, d.suffix);
    assert_eq!(back.group, d.group);
}

#[test]
fn rewriting_keeps_everything_but_the_version() {
    assert_eq!(
        rewrite_version(" Black[d] >= 23.0 , <25 ; python_version < '3.11' # fmt", "24.1.1"),
        " Black[d] >= 24.1.1 , <25 ; python_version < '3.11' # fmt"
    );
    assert_eq!(rewrite_version("requests", "2.0"), "requests");
    assert_eq!(rewrite_version("pkg@ git+https://x/pkg.git", "2.0"), "pkg@ git+https://x/pkg.git");
    assert_eq!(rewrite_version("pkg @ git+https://x/pkg.git", "2.0"), "pkg @ git+https://x/pkg.git");
    assert_eq!(rewrite_version("foo>=", "2.0"), "foo>=2.0");
    assert_eq!(rewrite_version("py3>=3", "4.1"), "py3>=4.1");
}

// Mapping and changes

#[test]
fn mapping_uses_normalised_names_and_first_match() {
    let deps = vec![
        dep("My_Package", Some("1.0"), Some(">="), None, None),
        dep("absent", Some("1.0"), Some(">="), None, None),
    ];
    let locks = vec![lock("my-package", "1.5"), lock("my.package", "9.9")];
    let mapped = map_dependencies(&deps, &locks);
    assert_eq!(mapped.len(), 1);
    assert_eq!(mapped[0].pyproject.name, "My_Package");
    assert_eq!(mapped[0].lock.version, "1.5");
    assert_eq!(mapped[0].pyproject.normalised_name, mapped[0].lock.normalised_name);
}

#[test]
fn changes_keep_operator_and_suffix_and_skip_equal_versions() {
    let deps = vec![
        dep("a", Some("0.25"), Some(">="), None, None),
        dep("b", Some("1.0"), Some("~="), Some(",<2"), Some("dev")),
        dep("c", None, None, None, None),
    ];
    let locks = vec![lock("a", "0.25.0"), lock("b", "1.4.2"), lock("c", "3.0")];
    let changes = compute_dependency_changes(&map_dependencies(&deps, &locks));
    assert_eq!(changes.len(), 1);
    assert_eq!(changes[0].name, "b");
    assert_eq!(changes[0].operator, Some("~=".to_string()));
    assert_eq!(changes[0].old, "1.0");
    assert_eq!(changes[0].new, "1.4.2");
    assert_eq!(changes[0].suffix, Some(",<2".to_string()));
}

#[test]
fn aligned_dependencies_give_no_changes() {
    let deps = vec![dep("a", Some("1.2.0"), Some("=="), None, None)];
    let locks = vec![lock("a", "1.2")];
    assert!(compute_dependency_changes(&map_dependencies(&deps, &locks)).is_empty());
}

// uv output and summaries

#[test]
fn uv_output_lines() {
    let (u, a, r) = parse_uv_update_text("  Updated  foo v1 -> v2 \r\n\nAdded bar\r\nRemoved\nRemoved baz\nnoise Updated x\n");
    assert_eq!(u, vec!["foo v1 -> v2"]);
    assert_eq!(a, vec!["bar"]);
    assert_eq!(r, vec!["baz"]);
    let (u, a, r) = parse_uv_update_text("");
    assert!(u.is_empty() && a.is_empty() && r.is_empty());
}

#[test]
fn uv_output_is_decoded_lossily() {
    let (u, _, _) = parse_uv_update_output(b"Updated \xffpkg\n");
    assert_eq!(u, vec!["\u{fffd}pkg"]);
}

#[test]
fn uv_summary_text_up_to_date() {
    let none: Vec<String> = Vec::new();
    assert_eq!(
        uv_modified_dependencies_text(&none, &none, &none, true),
        "\x1b[92m\u{2714}\x1b[39m Dependencies already up to date!\n\n"
    );
}

#[test]
fn uv_summary_text_counts_and_lists() {
    let updated = vec!["a".to_string(), "b".to_string()];
    let none: Vec<String> = Vec::new();
    let removed = vec!["c".to_string()];
    assert_eq!(
        uv_modified_dependencies_text(&updated, &none, &removed, false),
        "\x1b[92m\u{2714}\x1b[39m Dependencies: \x1b[93m2\x1b[39m updated, \x1b[91m1\x1b[39m removed!\n\n"
    );
    assert_eq!(
        uv_modified_dependencies_text(&updated, &none, &removed, true),
        "\nUpdated:\n  \x1b[93m~\x1b[39m a\n  \x1b[93m~\x1b[39m b\n\nRemoved:\n  \x1b[91m-\x1b[39m c\n\n\x1b[92m\u{2714}\x1b[39m Dependencies: \x1b[93m2\x1b[39m updated, \x1b[91m1\x1b[39m removed!\n\n"
    );
}

#[test]
fn diff_text_layout() {
    let changes = vec![DependencyChange {
        name: "httpx".to_string(),
        operator: Some(">=".to_string()),
        old: "0.24".to_string(),
        new: "0.28".to_string(),
        suffix: Some(",<1.0".to_string()),
    }];
    let pad = "httpx           ";
    let expected = format!(
        "\x1b[91m-\x1b[39m {pad} \x1b[91m>=\x1b[39m\x1b[4m\x1b[91m0.24\x1b[39m\x1b[0m\x1b[91m,<1.0\x1b[39m\n\x1b[92m+\x1b[39m {pad} \x1b[92m>=\x1b[39m\x1b[4m\x1b[92m0.28\x1b[39m\x1b[0m\x1b[92m,<1.0\x1b[39m\n\n"
    );
    assert_eq!(diff_text(&changes, false), expected);
    let bold = format!("\x1b[1m{pad}\x1b[0m");
    assert_eq!(diff_text(&changes, true), expected.replace(pad, &bold));
}

#[test]
fn out_of_sync_line() {
    assert_eq!(
        out_of_sync_summary(1, "pyproject.toml"),
        "\x1b[1m1\x1b[0m dependency is out of sync in: \x1b[94mpyproject.toml\x1b[39m"
    );
    assert_eq!(
        out_of_sync_summary(3, "pyproject.toml"),
        "\x1b[1m3\x1b[0m dependencies are out of sync in: \x1b[94mpyproject.toml\x1b[39m"
    );
}

// Reading TOML

#[test]
fn read_dependencies_in_document_order() {
    let text = r#"
[project]
dependencies = ["b>=1", 3, "a==2"]

[project.optional-dependencies]
zeta = ["z>=1"]
alpha = ["y>=1"]
other = "not an array"
"#;
    let deps = read_dependencies(text, "pyproject.toml").unwrap();
    let names: Vec<&str> = deps.iter().map(|d| d.name.as_str()).collect();
    assert_eq!(names, vec!["b", "a", "y", "z"]);
    assert_eq!(deps[2].group, Some("alpha".to_string()));
}

#[test]
fn read_dependencies_rejects_invalid_toml() {
    let err = read_dependencies("[project", "pyproject.toml").unwrap_err();
    assert_eq!(
        err.message,
        "\x1b[91m\u{2716}\x1b[39m Failed to parse TOML in: \x1b[94mpyproject.toml\x1b[39m"
    );
    assert!(err.cause.is_some());
}

#[test]
fn read_lock_versions_skips_packages_without_version() {
    let text = r#"
version = 1

[[package]]
name = "My_Pkg"
version = "1.2.3"

[[package]]
name = "from-git"
source = { git = "https://example.com" }

[[package]]
name = "other"
version = "0.1"
"#;
    let locks = read_lock_versions(text, "uv.lock").unwrap();
    assert_eq!(locks.len(), 2);
    assert_eq!(locks[0].name, "My_Pkg");
    assert_eq!(locks[0].normalised_name, "my-pkg");
    assert_eq!(locks[0].version, "1.2.3");
    assert_eq!(locks[1].name, "other");
    assert!(read_lock_versions("version = 1", "uv.lock").unwrap().is_empty());
    assert!(read_lock_versions("= nope", "uv.lock").is_err());
}

#[test]
fn read_failure_message() {
    assert_eq!(
        read_failure("x.toml").message,
        "\x1b[91m\u{2716}\x1b[39m Failed to read: \x1b[94mx.toml\x1b[39m"
    );
    assert_eq!(
        write_failure("x.toml").message,
        "\x1b[91m\u{2716}\x1b[39m Failed to write: \x1b[94mx.toml\x1b[39m"
    );
}

// Writing changes back

#[test]
fn apply_changes_preserves_formatting() {
    let text = r#"[project]
name = "demo" # the name
dependencies = [
    "httpx>=0.24,<1.0",  # http
    "requests>=2.28",
    "tomli>=2.0 ; python_version < '3.11'",
]

[project.optional-dependencies]
dev = ["pytest>=7.0"]
"#;
    let deps = read_dependencies(text, "pyproject.toml").unwrap();
    let locks = vec![
        lock("httpx", "0.28.1"),
        lock("requests", "2.28.0"),
        lock("pytest", "8.3.4"),
        lock("tomli", "2.2.1"),
    ];
    let changes = compute_dependency_changes(&map_dependencies(&deps, &locks));
    assert_eq!(changes.len(), 3);
    let out = apply_changes(text, &changes, &deps, "pyproject.toml").unwrap();
    let expected = r#"[project]
name = "demo" # the name
dependencies = [
    "httpx>=0.28.1,<1.0",  # http
    "requests>=2.28",
    "tomli>=2.2.1 ; python_version < '3.11'",
]

[project.optional-dependencies]
dev = ["pytest>=8.3.4"]
"#;
    assert_eq!(out, expected);
    let again = read_dependencies(&out, "pyproject.toml").unwrap();
    assert!(compute_dependency_changes(&map_dependencies(&again, &locks)).is_empty());
}

#[test]
fn apply_changes_to_parsed_document() {
    let mut doc: toml_edit::DocumentMut = "[project]\ndependencies = [\"a>=1\"]\n".parse().unwrap();
    let deps = vec![dep("a", Some("1"), Some(">="), None, None)];
    let changes = vec![DependencyChange {
        name: "a".to_string(),
        operator: Some(">=".to_string()),
        old: "1".to_string(),
        new: "2".to_string(),
        suffix: None,
    }];
    apply_changes_to_document(&mut doc, &changes, &deps);
    assert_eq!(doc.to_string(), "[project]\ndependencies = [\"a>=2\"]\n");
}

#[test]
fn apply_changes_rejects_invalid_toml() {
    let err = apply_changes("[[", &[], &[], "pyproject.toml").unwrap_err();
    assert!(err.message.contains("Failed to parse TOML in: "));
    assert!(err.cause.is_some());
}

#[test]
fn documents_parsed_by_the_toml_crate() {
    let doc: toml::Value = toml::from_str(
        "[project]\ndependencies = [\"a>=1\"]\n[dependency-groups]\nlint = [\"b==2\", { include-group = \"x\" }]\n",
    )
    .unwrap();
    let deps = uv_align::toml_read::dependencies_of_document(&doc);
    assert_eq!(deps.len(), 2);
    assert_eq!(deps[0].name, "a");
    assert_eq!(deps[0].group, None);
    assert_eq!(deps[1].name, "b");
    assert_eq!(deps[1].group, Some("lint".to_string()));

    let lock_doc: toml::Value =
        toml::from_str("[[package]]\nname = \"a\"\nversion = \"1.5\"\n").unwrap();
    let locks = uv_align::toml_read::lock_versions_of_document(&lock_doc);
    assert_eq!(locks.len(), 1);
    assert_eq!(locks[0].version, "1.5");
}

#[test]
fn apply_changes_reaches_dependency_groups() {
    let text = "[project]\nname = \"x\"\n\n[dependency-groups]\nlint = [\n    \"ruff>=0.1\",\n    { include-group = \"dev\" },\n]\n";
    let deps = read_dependencies(text, "pyproject.toml").unwrap();
    let locks = vec![lock("ruff", "0.6.9")];
    let changes = compute_dependency_changes(&map_dependencies(&deps, &locks));
    assert_eq!(changes.len(), 1);
    let out = apply_changes(text, &changes, &deps, "pyproject.toml").unwrap();
    assert_eq!(
        out,
        "[project]\nname = \"x\"\n\n[dependency-groups]\nlint = [\n    \"ruff>=0.6.9\",\n    { include-group = \"dev\" },\n]\n"
    );
}

#[test]
fn optional_group_is_preferred_when_it_names_the_dependency() {
    let text = "[project]\noptional-dependencies = { dev = [\"a>=1\"] }\n\n[dependency-groups]\ndev = [\"a>=1\"]\n";
    let deps = vec![dep("a", Some("1"), Some(">="), None, Some("dev"))];
    let changes = compute_dependency_changes(&map_dependencies(&deps, &[lock("a", "2")]));
    let out = apply_changes(text, &changes, &deps, "pyproject.toml").unwrap();
    assert_eq!(
        out,
        "[project]\noptional-dependencies = { dev = [\"a>=2\"] }\n\n[dependency-groups]\ndev = [\"a>=1\"]\n"
    );
}

// Properties over whole outputs

fn without_escapes(s: &str) -> String {
    let mut out = String::new();
    let mut in_escape = false;
    for c in s.chars() {
        if in_escape {
            if c == 'm' {
                in_escape = false;
            }
        } else if c == '\u{1b}' {
            in_escape = true;
        } else {
            out.push(c);
        }
    }
    out
}

#[test]
fn normalised_names_have_single_dashes_only() {
    let n = normalise_dependency_name("My__Odd.-_Name..x");
    assert_eq!(n, "my-odd-name-x");
    assert!(!n.contains('_') && !n.contains('.') && !n.contains("--"));
}

#[test]
fn undeclared_versions_give_no_change() {
    let deps = vec![
        dep("from-git", None, None, None, None),
        dep("bare", None, None, None, Some("dev")),
    ];
    let locks = vec![lock("from-git", "1.0"), lock("bare", "2.0")];
    let mapped = map_dependencies(&deps, &locks);
    assert_eq!(mapped.len(), 2);
    assert!(compute_dependency_changes(&mapped).is_empty());
}

#[test]
fn constraint_parts_join_back() {
    let vc = parse_version_constraint(">=0.24,<1.0");
    let joined = format!(
        "{}{}{}",
        vc.operator.clone().unwrap(),
        vc.version.clone().unwrap(),
        vc.suffix.clone().unwrap_or_default()
    );
    assert_eq!(joined, ">=0.24,<1.0");
    assert!(vc.suffix.unwrap().starts_with(','));
    let vc = parse_version_constraint("@ git+https://x/y.git");
    assert!(vc.operator.is_none() && vc.version.is_none() && vc.suffix.is_none());
}

#[test]
fn requirement_without_a_name_gives_nothing() {
    assert!(parse_pep508_string("@ git+https://x/y.git", None).is_none());
    assert!(parse_pep508_string("[extra]>=1.0", None).is_none());
    assert!(parse_pep508_string("  ; python_version < '3.11'", None).is_none());
    assert!(parse_pep508_string("pkg", None).is_some());
}

#[test]
fn summary_without_colours() {
    let text = uv_modified_dependencies_text(
        &vec!["a".to_string()],
        &vec![],
        &vec!["b".to_string(), "c".to_string()],
        false,
    );
    assert_eq!(without_escapes(&text), "\u{2714} Dependencies: 1 updated, 2 removed!\n\n");
    let text = uv_modified_dependencies_text(&vec!["a".to_string()], &vec!["n".to_string()], &vec![], true);
    assert_eq!(
        without_escapes(&text),
        "\nUpdated:\n  ~ a\n\nAdded:\n  + n\n\n\u{2714} Dependencies: 1 updated, 1 added!\n\n"
    );
    let text = uv_modified_dependencies_text(&vec![], &vec![], &vec![], true);
    assert_eq!(without_escapes(&text), "\u{2714} Dependencies already up to date!\n\n");
}

#[test]
fn diff_without_colours() {
    let changes = vec![DependencyChange {
        name: "httpx".to_string(),
        operator: Some(">=".to_string()),
        old: "0.24".to_string(),
        new: "0.28.1".to_string(),
        suffix: Some(",<1.0".to_string()),
    }];
    let expected = "- httpx            >=0.24,<1.0\n+ httpx            >=0.28.1,<1.0\n\n";
    assert_eq!(without_escapes(&diff_text(&changes, true)), expected);
    assert_eq!(without_escapes(&diff_text(&changes, false)), expected);
    assert_eq!(diff_text(&[], true), "");
}

#[test]
fn upgrade_outcomes() {
    assert!(upgrade_outcome("uv lock --upgrade", None, true, Some(0)).is_ok());
    let e = upgrade_outcome("uv lock --upgrade", Some("not found"), false, None).unwrap_err();
    assert_eq!(e.message, launch_failure("uv lock --upgrade", "not found").message);
    let e = upgrade_outcome("uv lock --upgrade", None, false, Some(2)).unwrap_err();
    assert_eq!(e.message, check_upgrade_status("uv lock --upgrade", false, Some(2)).unwrap_err().message);
    assert!(without_escapes(&e.message).contains("'uv lock --upgrade' command failed with exit code: 2"));
}

#[test]
fn apply_changes_without_a_named_dependency_keeps_the_text() {
    let text = "# header\n[project]\nname = \"demo\"   # name\ndependencies = [\n  \"requests>=2.0\",  # http\n]\n";
    let deps = vec![dep("requests", Some("2.0"), Some(">="), None, None)];
    let out = apply_changes(text, &[], &deps, "pyproject.toml").unwrap();
    assert_eq!(out, text);
    let changes = vec![DependencyChange {
        name: "absent".to_string(),
        operator: Some(">=".to_string()),
        old: "1.0".to_string(),
        new: "2.0".to_string(),
        suffix: None,
    }];
    let out = apply_changes(text, &changes, &deps, "pyproject.toml").unwrap();
    assert_eq!(out, text);
}

#[test]
fn apply_changes_picks_the_entry_by_its_name() {
    let text = "[project]\ndependencies = ['pytest-cov>=4.0', 'pytest>=7.0']\n";
    let deps = vec![
        parse_pep508_string("pytest-cov>=4.0", None).unwrap(),
        parse_pep508_string("pytest>=7.0", None).unwrap(),
    ];
    let changes = vec![DependencyChange {
        name: "pytest".to_string(),
        operator: Some(">=".to_string()),
        old: "7.0".to_string(),
        new: "8.0".to_string(),
        suffix: None,
    }];
    let out = apply_changes(text, &changes, &deps, "pyproject.toml").unwrap();
    assert_eq!(out, "[project]\ndependencies = ['pytest-cov>=4.0', \"pytest>=8.0\"]\n");
    let back = read_dependencies(&out, "pyproject.toml").unwrap();
    assert_eq!(back[0].version, Some("4.0".to_string()));
    assert_eq!(back[1].version, Some("8.0".to_string()));
}

#[test]
fn bare_entry_rewritten_as_its_parts() {
    assert_eq!(rewrite_version("httpx>=0.24,<1.0", "0.28.1"), "httpx>=0.28.1,<1.0");
    assert_eq!(rewrite_version("pydantic==2.6.1", "2.7.0"), "pydantic==2.7.0");
}
