use std::collections::HashMap;

use uv_align::checks::{validate_file_exists, validate_root_directory_exists};
use uv_align::cli::validate_conflicting_flags;
use uv_align::deps::{
    compute_dependency_changes, map_dependencies, DependencyChange, LockDependency,
    PyprojectDependency,
};
use uv_align::messages::{get_error_msg, get_success_msg, get_warning_msg};
use uv_align::normalise::{normalise_dependency_name, normalise_dependency_version};
use uv_align::pep508::{parse_pep508_string, parse_version_constraint};
use uv_align::report::{diff_text, parse_uv_update_output, uv_modified_dependencies_text};
use uv_align::toml_read::read_dependencies;

// Command line

#[test]
fn test_validate_conflicting_flags() {
    let result = validate_conflicting_flags(true, true, "flag1", "flag2");
    assert!(result.is_err());
}

#[test]
fn test_validate_non_conflicting_flags() {
    let result = validate_conflicting_flags(true, false, "flag1", "flag2");
    assert!(result.is_ok());
}

// General methods

#[test]
fn test_get_success_msg() {
    let msg = "Operation successful";
    let result = get_success_msg(msg);
    assert!(result.contains(msg));
}

#[test]
fn test_get_warning_msg() {
    let msg = "This is a warning";
    let result = get_warning_msg(msg);
    assert!(result.contains(msg));
}

#[test]
fn test_get_error_msg() {
    let msg = "An error occurred";
    let result = get_error_msg(msg);
    assert!(result.contains(msg));
}

#[test]
fn test_validate_root_directory_exists() {
    let path = std::path::Path::new(".");
    let shown = path.display().to_string();
    assert!(validate_root_directory_exists(&shown, path.exists(), path.is_dir()).is_ok());
}

#[test]
fn test_validate_file_exists() {
    let path = std::path::Path::new("/proc/self/exe");
    let shown = path.display().to_string();
    assert!(validate_file_exists(&shown, &shown, path.exists()).is_ok());
}

#[test]
fn test_validate_root_directory_not_exists() {
    let path = std::path::Path::new("non_existent_directory");
    let shown = path.display().to_string();
    assert!(validate_root_directory_exists(&shown, path.exists(), path.is_dir()).is_err());
}

#[test]
fn test_validate_file_not_exists() {
    let path = std::path::Path::new("non_existent_file.txt");
    let shown = path.display().to_string();
    assert!(validate_file_exists(&shown, &shown, path.exists()).is_err());
}

// uv methods

#[test]
fn test_parse_uv_update_output() {
    let stderr = b"Updated package1\nAdded package2\nRemoved package3\n".to_vec();
    let (updated, added, removed) = parse_uv_update_output(&stderr);
    assert_eq!(updated, vec!["package1"]);
    assert_eq!(added, vec!["package2"]);
    assert_eq!(removed, vec!["package3"]);
}

#[test]
fn test_print_uv_modified_dependencies() {
    let updated = vec!["package1".to_string()];
    let added = vec!["package2".to_string()];
    let removed = vec!["package3".to_string()];

    println!("{}", uv_modified_dependencies_text(&updated, &added, &removed, true));
}

// Dependency parsing methods

#[test]
fn test_normalise_dependency_name() {
    assert_eq!(normalise_dependency_name("requests"), "requests");
    assert_eq!(normalise_dependency_name("my_package"), "my-package");
    assert_eq!(normalise_dependency_name("My.Cool-Package"), "my-cool-package");
    assert_eq!(normalise_dependency_name("weird___name"), "weird-name");
}

#[test]
fn test_normalise_dependency_version() {
    assert_eq!(normalise_dependency_version("1.0.0"), "1");
    assert_eq!(normalise_dependency_version("1.2.0"), "1.2");
    assert_eq!(normalise_dependency_version("1.2.3"), "1.2.3");
}

// Compute changes methods

const PKG1_NAME: &str = "package1";
const PKG1_VERSION: &str = "1.0.0";

const PKG2_NAME: &str = "package2";
const PKG2_VERSION: &str = "2.0.0";
const PKG2_LOCK_VERSION: &str = "2.1.0";

const OPERATOR: &str = "==";

fn mock_pyproject_deps() -> Vec<PyprojectDependency> {
    vec![
        PyprojectDependency {
            name: PKG1_NAME.to_string(),
            normalised_name: PKG1_NAME.to_string(),
            version: Some(PKG1_VERSION.to_string()),
            operator: Some(OPERATOR.to_string()),
            suffix: None,
            group: None,
        },
        PyprojectDependency {
            name: PKG2_NAME.to_string(),
            normalised_name: PKG2_NAME.to_string(),
            version: Some(PKG2_VERSION.to_string()),
            operator: Some(OPERATOR.to_string()),
            suffix: None,
            group: None,
        },
    ]
}

fn mock_lock_deps() -> Vec<LockDependency> {
    vec![
        LockDependency {
            name: PKG1_NAME.to_string(),
            normalised_name: PKG1_NAME.to_string(),
            version: PKG1_VERSION.to_string(),
        },
        LockDependency {
            name: PKG2_NAME.to_string(),
            normalised_name: PKG2_NAME.to_string(),
            version: PKG2_LOCK_VERSION.to_string(),
        },
    ]
}

#[test]
fn test_map_dependencies() {
    let mapped = map_dependencies(&mock_pyproject_deps(), &mock_lock_deps());
    assert_eq!(mapped.len(), 2);
    assert_eq!(mapped[0].pyproject.name, PKG1_NAME);
    assert_eq!(mapped[0].lock.version, PKG1_VERSION);
    assert_eq!(mapped[1].pyproject.name, PKG2_NAME);
    assert_eq!(mapped[1].lock.version, PKG2_LOCK_VERSION);
}

#[test]
fn test_compute_dependency_changes() {
    let mapped = map_dependencies(&mock_pyproject_deps(), &mock_lock_deps());
    let changes = compute_dependency_changes(&mapped);
    assert_eq!(changes.len(), 1);
    assert_eq!(changes[0].name, PKG2_NAME);
    assert_eq!(changes[0].old, PKG2_VERSION);
    assert_eq!(changes[0].new, PKG2_LOCK_VERSION);
}

#[test]
fn test_print_diff() {
    let changes = vec![DependencyChange {
        name: PKG2_NAME.to_string(),
        operator: Some(OPERATOR.to_string()),
        old: PKG2_VERSION.to_string(),
        new: PKG2_LOCK_VERSION.to_string(),
        suffix: None,
    }];
    println!("{}", diff_text(&changes, false));
}

// PEP 508 parsing

#[test]
fn test_parse_version_constraint() {
    let vc = parse_version_constraint(">=0.110.0");
    assert_eq!(vc.operator, Some(">=".to_string()));
    assert_eq!(vc.version, Some("0.110.0".to_string()));
    assert_eq!(vc.suffix, None);

    let vc2 = parse_version_constraint(">=0.24,<1.0");
    assert_eq!(vc2.operator, Some(">=".to_string()));
    assert_eq!(vc2.version, Some("0.24".to_string()));
    assert_eq!(vc2.suffix, Some(",<1.0".to_string()));

    let vc3 = parse_version_constraint("@ git+https://github.com/user/repo.git");
    assert_eq!(vc3.operator, None);
    assert_eq!(vc3.version, None);
    assert_eq!(vc3.suffix, None);
}

#[test]
fn test_parse_bare_name() {
    let dep = parse_pep508_string("requests", None).unwrap();
    assert_eq!(dep.name, "requests");
    assert_eq!(dep.operator, None);
    assert_eq!(dep.version, None);
    assert_eq!(dep.suffix, None);
    assert!(dep.group.is_none());
}

#[test]
fn test_parse_gte_constraint() {
    let dep = parse_pep508_string("fastapi>=0.110.0", None).unwrap();
    assert_eq!(dep.name, "fastapi");
    assert_eq!(dep.operator, Some(">=".to_string()));
    assert_eq!(dep.version, Some("0.110.0".to_string()));
    assert_eq!(dep.suffix, None);
}

#[test]
fn test_parse_eq_constraint() {
    let dep = parse_pep508_string("pydantic==2.6.1", None).unwrap();
    assert_eq!(dep.name, "pydantic");
    assert_eq!(dep.operator, Some("==".to_string()));
    assert_eq!(dep.version, Some("2.6.1".to_string()));
    assert_eq!(dep.suffix, None);
}

#[test]
fn test_parse_compatible_release() {
    let dep = parse_pep508_string("numpy~=1.24", None).unwrap();
    assert_eq!(dep.name, "numpy");
    assert_eq!(dep.operator, Some("~=".to_string()));
    assert_eq!(dep.version, Some("1.24".to_string()));
    assert_eq!(dep.suffix, None);
}

#[test]
fn test_parse_not_equal() {
    let dep = parse_pep508_string("celery!=4.0", None).unwrap();
    assert_eq!(dep.name, "celery");
    assert_eq!(dep.operator, Some("!=".to_string()));
    assert_eq!(dep.version, Some("4.0".to_string()));
    assert_eq!(dep.suffix, None);
}

#[test]
fn test_parse_multiple_specifiers() {
    let dep = parse_pep508_string("httpx>=0.24,<1.0", None).unwrap();
    assert_eq!(dep.name, "httpx");
    assert_eq!(dep.operator, Some(">=".to_string()));
    assert_eq!(dep.version, Some("0.24".to_string()));
    assert_eq!(dep.suffix, Some(",<1.0".to_string()));
}

#[test]
fn test_parse_extras_ignored() {
    let dep = parse_pep508_string("black[d]>=23.0", None).unwrap();
    assert_eq!(dep.name, "black");
    assert_eq!(dep.operator, Some(">=".to_string()));
    assert_eq!(dep.version, Some("23.0".to_string()));
    assert_eq!(dep.suffix, None);
}

#[test]
fn test_parse_marker_stripped() {
    let dep = parse_pep508_string("tomli>=2.0 ; python_version < '3.11'", None).unwrap();
    assert_eq!(dep.name, "tomli");
    assert_eq!(dep.operator, Some(">=".to_string()));
    assert_eq!(dep.version, Some("2.0".to_string()));
    assert_eq!(dep.suffix, None);
}

#[test]
fn test_parse_group_propagated() {
    let dep = parse_pep508_string("pytest>=7.0", Some("dev".into())).unwrap();
    assert_eq!(dep.group, Some("dev".to_string()));
}

#[test]
fn test_parse_empty() {
    assert!(parse_pep508_string("", None).is_none());
    assert!(parse_pep508_string("   ", None).is_none());
}

// Read methods

#[test]
fn test_read_full_pyproject() {
    let toml = r#"
[project]
name = "myapp"
version = "0.1.0"
dependencies = [
    "requests>=2.28",
    "fastapi>=0.110.0",
]

[project.optional-dependencies]
dev = [
    "pytest>=7.0",
    "mypy>=1.0",
]
docs = [
    "sphinx>=6.0",
]

[dependency-groups]
lint = [
    "ruff>=0.1",
    { include-group = "dev" },
]
"#;
    let deps = read_dependencies(toml, "pyproject.toml").unwrap();

    // Collect into a map for easy assertion
    let map: HashMap<String, &PyprojectDependency> =
        deps.iter().map(|d| (d.name.clone(), d)).collect();

    assert_eq!(map["requests"].operator, Some(">=".to_string()));
    assert_eq!(map["requests"].version, Some("2.28".to_string()));
    assert_eq!(map["requests"].suffix, None);
    assert_eq!(map["fastapi"].operator, Some(">=".to_string()));
    assert_eq!(map["fastapi"].version, Some("0.110.0".to_string()));
    assert_eq!(map["fastapi"].suffix, None);
    assert_eq!(map["pytest"].group, Some("dev".to_string()));
    assert_eq!(map["mypy"].operator, Some(">=".to_string()));
    assert_eq!(map["mypy"].version, Some("1.0".to_string()));
    assert_eq!(map["mypy"].suffix, None);
    assert_eq!(map["sphinx"].group, Some("docs".to_string()));
    assert_eq!(map["ruff"].group, Some("lint".to_string()));

    // include-group table entry should NOT produce a dependency
    assert!(!map.contains_key("include-group"));
}
