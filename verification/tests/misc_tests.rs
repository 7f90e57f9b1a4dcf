use huak::env::system::{binary_entry_step, binary_search_depth, BinaryEntryStep};
use huak::dependency::{canonical_package_name, importable_package_name, parse_version_specifiers_str, Dependency, Package};
use huak::error::Error;
use huak::fs::{flatten_directories, last_path_component};
use huak::ops::{
    build_arguments, clean_patterns, format_arguments, groups_to_update, lint_arguments, mypy_arguments,
    optional_install_requirements, publish_arguments, test_arguments, test_python_path,
};
use huak::package::Operator;
use huak::pyproject::build_system::BuildSystem;
use huak::pyproject::main::Main;
use huak::pyproject::dependency::{match_dependency_kind, Dependencies, Dependency as TableDependency, DependencyKind};
use huak::pyproject::tools::{Huak, Tool};
use huak::sys::{parse_command_output, prints, quiet_failure_messages, shell_name, shell_path, status_line, trim_error_prefix, MessageKind, TerminalOptions, Verbosity};
use huak::utils::{create_msg, get_filename_from_path, get_venv_bin, should_mute};
use huak::workspace::{default_entrypoint_string, default_pyproject_toml_contents, default_test_file_contents};
use huak::platform::Platform;

fn strings(v: &[&str]) -> Vec<String> {
    v.iter().map(|s| s.to_string()).collect()
}

#[test]
fn importable_names_replace_separator_runs() {
    assert_eq!(importable_package_name("mock-project").unwrap(), "mock_project");
    assert_eq!(importable_package_name("a -._b").unwrap(), "a_b");
    assert_eq!(importable_package_name("Py.Test").unwrap(), "Py_Test");
}

#[test]
fn dependency_from_str() {
    let dep = Dependency::from_str("package-name==0.0.0").unwrap();

    assert_eq!(dep.to_dep_string(), "package-name==0.0.0");
    assert_eq!(dep.name(), "package-name");
    assert_eq!(dep.version_specifiers().unwrap(), &vec![(Operator::Equal, "0.0.0".to_string())]);
}

#[test]
fn dependency_strings() {
    let dep = Dependency::from_str("my-dependency>=0.1.0,<0.2.0").unwrap();
    assert_eq!(dep.to_dep_string(), "my-dependency>=0.1.0,<0.2.0");
    let unsorted = Dependency::from_str("my-dependency<0.2.0,>=0.1.0").unwrap();
    assert_eq!(unsorted.to_dep_string(), "my-dependency<0.2.0,>=0.1.0");
    let star = Dependency::from_str("x==1.*").unwrap();
    assert_eq!(star.to_dep_string(), "x==1.*");
    let bare = Dependency::from_str("plain").unwrap();
    assert!(bare.version_specifiers().is_none());
    assert_eq!(bare.to_dep_string(), "plain");
    assert!(matches!(Dependency::from_str("x>=what"), Err(Error::PEP440Error(_))));
    let id = Dependency::from_str("a==1.0").unwrap().to_pkg();
    assert_eq!((id.name.as_str(), id.version.as_str()), ("a", "1.0"));
}

#[test]
fn package_from_str() {
    let p = Package::from_str("My_Project==0.0.1").unwrap();
    assert_eq!(p.name(), "My-Project");
    assert_eq!(p.version().unwrap(), "0.0.1");
    assert_eq!(p.to_dep_string(), "My-Project==0.0.1");
    assert_eq!(p.importable_name().unwrap(), "My_Project");
    assert!(p.same_package(&Package::from_str("My.Project==2").unwrap()));
    assert!(matches!(
        Package::from_str("a>=1"),
        Err(Error::InvalidVersionString(m)) if m == "a>=1 must contain == specifier"
    ));
    assert!(matches!(
        Package::from_str("a==1,==2"),
        Err(Error::InvalidVersionString(m)) if m == "a==1,==2 can only contain one version specifier"
    ));
}

#[test]
fn package_names() {
    assert_eq!(canonical_package_name("a__b..c d").unwrap(), "a-b-c-d");
    assert_eq!(canonical_package_name("-x-").unwrap(), "-x-");
    assert_eq!(importable_package_name("my-package.name").unwrap(), "my_package_name");
    let once = canonical_package_name("A._-B").unwrap();
    assert_eq!(canonical_package_name(&once).unwrap(), once);
    assert_eq!(parse_version_specifiers_str("pkg>=1").as_deref(), Some(">=1"));
    assert_eq!(parse_version_specifiers_str("pkg"), None);
}

#[test]
fn templates() {
    assert_eq!(default_entrypoint_string("my_app"), "my_app.main:main");
    assert_eq!(
        default_test_file_contents("pkg"),
        "from pkg import __version__\n\n\ndef test_version():\n    __version__\n"
    );
    assert_eq!(
        default_pyproject_toml_contents("demo"),
        "[build-system]\nrequires = [\"hatchling\"]\nbuild-backend = \"hatchling.build\"\n\n[project]\nname = \"demo\"\nversion = \"0.0.1\"\ndescription = \"\"\ndependencies = []\n"
    );
}

#[test]
fn terminal_messages() {
    assert_eq!(trim_error_prefix("error:error:ERROR:  boom"), "boom");
    assert_eq!(trim_error_prefix("error: ERROR: boom"), "ERROR: boom");
    assert_eq!(trim_error_prefix("ERROR: error: x"), "error: x");
    assert_eq!(status_line("warning", Some("careful"), false), "warning: careful\n");
    assert_eq!(status_line("Done", None, true), "        Done ");
    assert_eq!(quiet_failure_messages(1, "error: bad", ""), strings(&["bad"]));
    assert!(quiet_failure_messages(0, "error: bad", "worse").is_empty());
    assert!(prints(Verbosity::Quiet, MessageKind::Error));
    assert!(!prints(Verbosity::Quiet, MessageKind::Warning));
    assert!(prints(Verbosity::Normal, MessageKind::Custom));
    assert_eq!(Verbosity::default(), Verbosity::Verbose);
    let options = TerminalOptions { verbosity: Verbosity::Quiet };
    assert_eq!(*options.verbosity(), Verbosity::Quiet);
    assert_eq!(shell_name("/bin/zsh", Platform::Unix).unwrap(), "zsh");
    assert!(matches!(shell_name("/", Platform::Unix), Err(Error::InternalError(m)) if m == "shell path is invalid"));
    assert_eq!(shell_path(None), "sh");
    assert_eq!(parse_command_output("out", "err"), "outerr");
}

#[test]
fn utilities() {
    assert_eq!(get_filename_from_path("/a/b.txt", Platform::Unix).unwrap(), "b.txt");
    assert!(matches!(get_filename_from_path("", Platform::Unix), Err(Error::InternalError(_))));
    assert_eq!(get_filename_from_path("dir\\name", Platform::Windows).unwrap(), "name");
    assert_eq!(get_filename_from_path("dir\\name", Platform::Unix).unwrap(), "dir\\name");
    assert_eq!(get_venv_bin(Platform::Windows), "Scripts");
    assert!(should_mute(Some("True")));
    assert!(should_mute(Some("1")));
    assert!(!should_mute(Some("yes")));
    assert!(!should_mute(None));
    assert_eq!(create_msg("out", "err"), "out\nerr");
    assert_eq!(create_msg("out", ""), "out");
    assert_eq!(last_path_component("/a/b/", Platform::Unix).unwrap(), "b");
    assert!(matches!(last_path_component("", Platform::Unix), Err(Error::InternalError(m)) if m == "failed to parse path "));
    let listings = vec![Some(strings(&["a", "b"])), None, Some(strings(&["c"]))];
    assert_eq!(flatten_directories(&listings), strings(&["a", "b", "c"]));
}

#[test]
fn operation_arguments() {
    let values = Some(strings(&["--check", "-q"]));
    let (ruff, black, warn) = format_arguments(&values);
    assert_eq!(ruff, strings(&["-m", "ruff", "check", ".", "--select", "I001"]));
    assert_eq!(black, strings(&["-m", "black", ".", "--check", "-q"]));
    assert!(warn);
    let (ruff, black, warn) = format_arguments(&None);
    assert_eq!(ruff, strings(&["-m", "ruff", "check", ".", "--select", "I001", "--fix"]));
    assert_eq!(black, strings(&["-m", "black", "."]));
    assert!(!warn);
    assert_eq!(lint_arguments(&Some(strings(&["--fix"]))), strings(&["-m", "ruff", "check", ".", "--fix"]));
    assert_eq!(mypy_arguments(".venv"), strings(&["-m", "mypy", ".", "--exclude", ".venv"]));
    assert_eq!(build_arguments(&None), strings(&["-m", "build"]));
    assert_eq!(publish_arguments(&None), strings(&["-m", "twine", "upload", "dist/*"]));
    assert_eq!(test_arguments(&Some(strings(&["-x"]))), strings(&["-m", "pytest", "-x"]));
    assert_eq!(test_python_path("/p", true, Platform::Unix), "/p/src");
    assert_eq!(test_python_path("/p", false, Platform::Unix), "/p");
    assert_eq!(clean_patterns("/p", Platform::Unix), ("/p/**/__pycache__".to_string(), "/p/**/*.pyc".to_string()));
}

fn bare(name: &str) -> huak::dependency::Requirement {
    huak::dependency::Requirement { name: name.to_string(), extras: None, version_or_url: None, marker: None }
}

fn metadata_with_groups(groups: Vec<(&str, Vec<&str>)>) -> huak::metadata::Metadata {
    huak::metadata::Metadata {
        build_system: huak::config::pyproject::build_system::BuildSystemBuilder::default(),
        project: huak::metadata::MetadataProject {
            name: "demo".to_string(),
            version: None,
            dependencies: None,
            optional_dependencies: Some(
                groups.into_iter().map(|(g, l)| (g.to_string(), l.into_iter().map(bare).collect())).collect(),
            ),
            scripts: None,
        },
    }
}

fn requirement_names(v: &[huak::dependency::Requirement]) -> Vec<&str> {
    v.iter().map(|r| r.name.as_str()).collect()
}

#[test]
fn optional_group_selection() {
    let m = metadata_with_groups(vec![("dev", vec!["pytest", "pytest"]), ("docs", vec!["sphinx"])]);
    assert_eq!(requirement_names(&optional_install_requirements(&m, &strings(&["all"]))), vec!["pytest", "sphinx"]);
    assert_eq!(requirement_names(&optional_install_requirements(&m, &strings(&["docs", "missing"]))), vec!["sphinx"]);
    assert_eq!(groups_to_update(&m, "all"), strings(&["dev", "docs"]));
    assert_eq!(groups_to_update(&m, "dev"), strings(&["dev"]));
    let with_all = metadata_with_groups(vec![("dev", vec!["pytest"]), ("all", vec!["black"])]);
    assert_eq!(requirement_names(&optional_install_requirements(&with_all, &strings(&["all"]))), vec!["black"]);
    assert_eq!(groups_to_update(&with_all, "all"), strings(&["all"]));
}

#[test]
fn dependency_dependencies() {
    let data = Dependencies::default();
    assert_eq!(*data.kind(), DependencyKind::Main);
    assert!(data.list().is_empty());
    assert_eq!(data.to_string(), "[tool.huak.dependencies]\n");
}

#[test]
fn dependency_dev_dependencies() {
    let data = Dependencies::new("dev");
    assert_eq!(*data.kind(), DependencyKind::Dev);
    assert!(data.list().is_empty());
    assert_eq!(data.to_string(), "[tool.huak.dev-dependencies]\n");
}

#[test]
fn pyproject_dependencies() {
    let data = Dependencies::new("main");
    assert_eq!(*data.kind(), DependencyKind::Main);
    assert!(data.list().is_empty());
    assert_eq!(data.to_string(), "[tool.huak.dependencies]\n");
}

#[test]
fn pyproject_dev_dependencies() {
    let data = Dependencies::new("dev");
    assert_eq!(*data.kind(), DependencyKind::Dev);
    assert!(data.list().is_empty());
    assert_eq!(data.to_string(), "[tool.huak.dev-dependencies]\n");
}

#[test]
fn dependency_tables_list_their_entries() {
    let mut data = Dependencies::new("dev");
    data.set_kind("main");
    assert_eq!(*data.kind(), DependencyKind::Main);
    data.add_dependency(TableDependency::new("click".to_string(), "8.1.3".to_string()));
    assert_eq!(data.to_string(), "[tool.huak.dependencies]\nclick = \"8.1.3\"\n");
    data.set_kind("dev");
    assert_eq!(data.to_string(), "[tool.huak.dev-dependencies]\nclick = \"8.1.3\"\n");
    assert_eq!(match_dependency_kind("dev"), DependencyKind::Dev);
    assert_eq!(match_dependency_kind("Dev"), DependencyKind::Main);
}

#[test]
fn pyproject_main() {
    let data = Main {
        name: "Test".to_string(),
        version: "0.0.0".to_string(),
        description: "".to_string(),
        authors: vec![],
    };
    assert_eq!(data.name, "Test");
    assert_eq!(data.version, "0.0.0");
    assert_eq!(data.description, "");
    assert_eq!(data.authors, Vec::<String>::new());
    assert_eq!(data.to_string(), "[tool.huak]\nname = \"Test\"\nversion = \"0.0.0\"\ndescription = \"\"\nauthors = []\n");
}

#[test]
fn main_main() {
    let data = Main {
        name: "Test".to_string(),
        version: "0.0.0".to_string(),
        description: "".to_string(),
        authors: vec![],
    };
    assert_eq!(data.name, "Test");
    assert_eq!(data.version, "0.0.0");
    assert_eq!(data.description, "");
    assert_eq!(data.authors, Vec::<String>::new());
    assert_eq!(data.to_string(), "[tool.huak]\nname = \"Test\"\nversion = \"0.0.0\"\ndescription = \"\"\nauthors = []\n");
}

#[test]
fn pyproject_build_system() {
    let data = BuildSystem { requirements: vec![], backend: "".to_string() };
    assert_eq!(data.requirements, Vec::<String>::new());
    assert_eq!(data.backend, "");
    assert_eq!(data.to_string(), "[build-system]\nrequires = []\nbuild-backend = \"\"\n");
}

#[test]
fn build_system_build_system() {
    let data = BuildSystem { requirements: vec![], backend: "".to_string() };
    assert_eq!(data.requirements, Vec::<String>::new());
    assert_eq!(data.backend, "");
    assert_eq!(data.to_string(), "[build-system]\nrequires = []\nbuild-backend = \"\"\n");
}

#[test]
fn tables_with_entries() {
    let data = BuildSystem { requirements: vec!["hatchling".to_string()], backend: "hatchling.build".to_string() };
    assert_eq!(data.to_string(), "[build-system]\nrequires = [\"hatchling\"]\nbuild-backend = \"hatchling.build\"\n");
    let main = Main {
        name: "demo".to_string(),
        version: "0.1.0".to_string(),
        description: "A demo".to_string(),
        authors: vec!["Ada".to_string()],
    };
    assert_eq!(main.to_string(), "[tool.huak]\nname = \"demo\"\nversion = \"0.1.0\"\ndescription = \"A demo\"\nauthors = [\n    \"Ada\",\n]\n");
}

#[test]
fn tool_defaults() {
    let mut tool = Tool::new();
    assert_eq!(tool.huak().version, "0.0.1");
    let mut h = Huak::default();
    h.name = "x".to_string();
    tool.set_huak(h);
    assert_eq!(tool.huak().name, "x");
    let b = BuildSystem::default();
    assert_eq!(b.requirements(), &strings(&["huak-core>=1.0.0"]));
    assert_eq!(b.backend(), "huak.core.build.api");
}

#[test]
fn venv_module_paths() {
    assert_eq!(huak::utils::get_venv_module_path("/p", "black", Platform::Unix), "/p/.venv/bin/black");
    assert_eq!(huak::utils::get_venv_module_path("/p", "black", Platform::Windows), "/p\\.venv\\Scripts\\black");
}

#[test]
fn bare_package_names() {
    let p = Package::from_str("click").unwrap();
    assert_eq!(p.name(), "click");
    assert!(p.version().is_none());
    assert_eq!(p.to_dep_string(), "click");
    let q = Package::from_str("Py_Test").unwrap();
    assert_eq!(q.name(), "Py-Test");
}

#[test]
fn binary_search_entries() {
    assert_eq!(binary_search_depth(), 5);
    assert!(matches!(binary_entry_step("python3", "/usr/bin", true, 0, 5, Platform::Unix), BinaryEntryStep::Descend(d, 1) if d == "/usr/bin"));
    assert!(matches!(binary_entry_step("python3", "/usr/bin", true, 5, 5, Platform::Unix), BinaryEntryStep::Pass));
    assert!(matches!(binary_entry_step("python3", "/usr/bin/python3", false, 2, 5, Platform::Unix), BinaryEntryStep::Found(p) if p == "/usr/bin/python3"));
    assert!(matches!(binary_entry_step("python3", "/usr/bin/python3.11", false, 2, 5, Platform::Unix), BinaryEntryStep::Pass));
    assert!(matches!(binary_entry_step("python.exe", "C:\\py\\python.exe", false, 0, 5, Platform::Windows), BinaryEntryStep::Found(_)));
    assert!(matches!(binary_entry_step("python.exe", "C:\\py\\python.exe", false, 0, 5, Platform::Unix), BinaryEntryStep::Pass));
}
