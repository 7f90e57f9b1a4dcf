use huak::config::pyproject::build_system::BuildSystemBuilder;
use huak::config::pyproject::project::{DependencyGroups, Project, ProjectBuilder};
use huak::config::pyproject::toml::Toml;
use huak::error::Error;
use huak::package::PythonPackage;
use huak::project::project_file::{add_to_dependency_list, remove_from_dependency_list, ProjectFile};

fn strings(v: &[&str]) -> Vec<String> {
    v.iter().map(|s| s.to_string()).collect()
}

fn project_file(deps: Option<&[&str]>, groups: &[(&str, &[&str])]) -> ProjectFile {
    let mut optional = DependencyGroups::new();
    for (name, list) in groups {
        optional.insert(name, strings(list));
    }
    let project = Project {
        name: "Test".to_string(),
        version: Some("0.1.0".to_string()),
        description: Some(String::new()),
        dependencies: deps.map(strings),
        optional_dependencies: if groups.is_empty() { None } else { Some(optional) },
        scripts: None,
    };
    ProjectFile {
        filepath: Some("test.toml".to_string()),
        data: Some(Toml { build_system: BuildSystemBuilder::default(), project }),
    }
}

#[test]
fn dependency_list() {
    let project_file = project_file(Some(&["click==8.1.3", "black==22.8.0"]), &[]);
    let expected_dependencies = vec!["click==8.1.3", "black==22.8.0"];

    assert_eq!(project_file.dependency_list(), expected_dependencies);
}

#[test]
fn optional_dependency_list() {
    let project_file = project_file(None, &[("test", &["click==8.1.3", "black==22.8.0"])]);
    let expected_dependencies = vec!["click==8.1.3", "black==22.8.0"];

    assert_eq!(project_file.optional_dependency_list("test"), expected_dependencies);
}

#[test]
fn search_dependency_list() {
    let project_file = project_file(Some(&["black==22.8.0"]), &[("test", &["click==8.1.3"])]);
    let expected_dependency = "black==22.8.0";
    let expected_optional_dependency = "click==8.1.3";

    assert_eq!(
        project_file
            .search_dependency_list(&PythonPackage::from_str("black").unwrap(), &None)
            .unwrap(),
        Some(expected_dependency)
    );
    assert_eq!(
        project_file
            .search_dependency_list(&PythonPackage::from_str("click").unwrap(), &Some("test".to_string()))
            .unwrap(),
        Some(expected_optional_dependency)
    );
}

#[test]
fn add_dependency() {
    let mut project_file = project_file(Some(&["black==22.8.0"]), &[]);
    let initial_dependencies = project_file.dependency_list().clone();
    project_file.add_dependency("package").unwrap();

    assert_ne!(initial_dependencies, project_file.dependency_list());
    assert_eq!(project_file.dependency_list().last().unwrap(), "package");
}

#[test]
fn add_optional_dependency() {
    let mut project_file = project_file(None, &[("test", &["black==22.8.0"])]);
    let initial_dependencies = project_file.optional_dependency_list("test").clone();
    project_file.add_optional_dependency("package", "test").unwrap();

    assert_ne!(initial_dependencies, project_file.optional_dependency_list("test"));
    assert_eq!(project_file.optional_dependency_list("test").last().unwrap(), "package");
}

#[test]
fn remove_dependency() {
    let mut project_file = project_file(Some(&["black==22.8.0"]), &[("test", &["test"])]);
    let initial_dependencies = project_file.dependency_list().clone();
    let initial_optional_dependencies = project_file.optional_dependency_list("test").clone();
    project_file.remove_dependency("black", &None).unwrap();
    project_file.remove_dependency("test", &Some("test".to_string())).unwrap();

    assert!(!initial_dependencies.is_empty());
    assert!(!initial_optional_dependencies.is_empty());

    assert!(project_file.dependency_list().is_empty());
    assert!(project_file.optional_dependency_list("test").is_empty());
}

#[test]
fn add_replaces_the_entry_of_the_same_package() {
    let mut list = strings(&["click==8.1.3", "black==22.8.0"]);
    add_to_dependency_list(&mut list, "black>=23").unwrap();
    assert_eq!(list, strings(&["click==8.1.3", "black>=23"]));
    add_to_dependency_list(&mut list, "ruff").unwrap();
    assert_eq!(list, strings(&["click==8.1.3", "black>=23", "ruff"]));
}

#[test]
fn adding_twice_is_adding_once() {
    let mut once = strings(&["click==8.1.3"]);
    add_to_dependency_list(&mut once, "black==22.8.0").unwrap();
    let mut twice = once.clone();
    add_to_dependency_list(&mut twice, "black==22.8.0").unwrap();
    assert_eq!(once, twice);
}

#[test]
fn remove_undoes_add() {
    let initial = strings(&["click==8.1.3", "mock"]);
    let mut list = initial.clone();
    add_to_dependency_list(&mut list, "black==22.8.0").unwrap();
    remove_from_dependency_list(&mut list, "black").unwrap();
    assert_eq!(list, initial);
}

#[test]
fn remove_takes_the_first_entry_only() {
    let mut list = strings(&["a==1", "b", "a==2"]);
    remove_from_dependency_list(&mut list, "a").unwrap();
    assert_eq!(list, strings(&["b", "a==2"]));
    remove_from_dependency_list(&mut list, "zzz").unwrap();
    assert_eq!(list, strings(&["b", "a==2"]));
}

#[test]
fn unreadable_dependency_leaves_list_alone() {
    let mut list = strings(&["a==1"]);
    let r = add_to_dependency_list(&mut list, "b==not a version");
    assert!(matches!(r, Err(Error::PyPackageInitalizationError(_))));
    assert_eq!(list, strings(&["a==1"]));
}

#[test]
fn add_optional_dependency_creates_group() {
    let mut groups = DependencyGroups::new();
    groups.add_to_group("dev", "pytest").unwrap();
    assert_eq!(groups.get("dev").unwrap(), &strings(&["pytest"]));
    assert!(groups.get("test").is_none());
    groups.insert("dev", strings(&["x"]));
    assert_eq!(groups.get("dev").unwrap(), &strings(&["x"]));
    assert_eq!(groups.names(), strings(&["dev"]));
}

#[test]
fn toml_add_and_remove() {
    let mut toml = Toml::default();
    assert_eq!(toml.build_system.requirements, strings(&["hatchling"]));
    assert_eq!(toml.project.version.as_deref(), Some("0.0.1"));
    toml.add_dependency("click==8.1.3");
    toml.add_dependency("clickhouse");
    toml.add_optional_dependency("test", "pytest");
    toml.add_optional_dependency("test", "click-extra");
    toml.remove_dependency("click");
    assert_eq!(toml.project.dependencies.clone().unwrap(), Vec::<String>::new());
    assert_eq!(toml.project.optional_dependencies.as_ref().unwrap().get("test").unwrap(), &strings(&["pytest"]));
}

#[test]
fn project_builder_defaults() {
    let p = ProjectBuilder::default();
    assert_eq!(p.name, "");
    assert_eq!(p.version.as_deref(), Some("0.0.1"));
    assert_eq!(p.description.as_deref(), Some(""));
    assert_eq!(p.dependencies, Some(vec![]));
    assert!(p.optional_dependencies.is_none());
    let b = BuildSystemBuilder::default();
    assert_eq!(b.build_backend.as_deref(), Some("hatchling.build"));
    let pf = ProjectFile::default();
    assert!(pf.filepath.is_none() && pf.data.is_none());
    assert!(pf.project_name().is_none());
}

#[test]
fn project_file_names() {
    let mut pf = project_file(Some(&[]), &[]);
    assert_eq!(pf.project_name(), Some("Test"));
    assert_eq!(pf.project_version(), Some("0.1.0"));
    pf.set_project_name("Other");
    assert_eq!(pf.project_name(), Some("Other"));
    assert_eq!(pf.pyproject_path().map(|s| s.as_str()), Some("test.toml"));
    assert!(pf.pyproject_toml().is_some());
}
