use huak::config::pyproject::build_system::BuildSystemBuilder;
use huak::dependency::{requirement_eq, requirement_text, Dependency, Package, Requirement, VersionOrUrl};
use huak::metadata::{Metadata, MetadataProject};
use huak::ops::{
    dependencies_to_add, dependencies_to_remove, dependencies_to_update, dependency_iter, pinned_dependency_strings,
    record_added_dependencies, record_tool_dependency, refresh_dependency, remove_dependencies,
};
use huak::package::Operator;

fn req(name: &str) -> Requirement {
    Requirement { name: name.to_string(), extras: None, version_or_url: None, marker: None }
}

fn pinned_req(name: &str, version: &str) -> Requirement {
    Requirement {
        name: name.to_string(),
        extras: None,
        version_or_url: Some(VersionOrUrl::VersionSpecifier(vec![(Operator::Equal, version.to_string())])),
        marker: None,
    }
}

fn metadata(deps: Vec<Requirement>, groups: Option<Vec<(String, Vec<Requirement>)>>) -> Metadata {
    Metadata {
        build_system: BuildSystemBuilder::default(),
        project: MetadataProject {
            name: "demo".to_string(),
            version: Some("0.0.1".to_string()),
            dependencies: Some(deps),
            optional_dependencies: groups.map(|g| g.into_iter().collect()),
            scripts: None,
        },
    }
}

fn names(v: &[Requirement]) -> Vec<&str> {
    v.iter().map(|r| r.name.as_str()).collect()
}

fn strings(v: &[&str]) -> Vec<String> {
    v.iter().map(|s| s.to_string()).collect()
}

#[test]
fn contains_compares_whole_requirements() {
    let m = metadata(vec![req("click"), pinned_req("black", "22.8.0")], None);
    assert!(m.contains_dependency(&Dependency::from_str("click").unwrap()).unwrap());
    // a bare name does not equal a pinned requirement
    assert!(!m.contains_dependency(&Dependency::from_str("black").unwrap()).unwrap());
    assert!(!m.contains_dependency_any(&Dependency::from_str("ruff").unwrap()).unwrap());
}

#[test]
fn optional_groups() {
    let mut m = metadata(vec![], Some(vec![("dev".to_string(), vec![req("pytest")])]));
    let d = Dependency::from_str("pytest").unwrap();
    assert!(m.contains_optional_dependency(&d, "dev").unwrap());
    assert!(!m.contains_optional_dependency(&d, "docs").unwrap());
    assert!(m.contains_dependency_any(&d).unwrap());
    m.add_optional_dependency(Dependency::from_str("sphinx").unwrap(), "docs");
    assert_eq!(names(m.optional_dependencey_group("docs").unwrap()), vec!["sphinx"]);
    m.remove_optional_dependency(&d, "dev");
    assert!(m.optional_dependencey_group("dev").unwrap().is_empty());
    // without optional groups, nothing is added
    let mut bare = metadata(vec![], None);
    bare.add_optional_dependency(Dependency::from_str("x").unwrap(), "dev");
    assert!(bare.optional_dependencies().is_none());
}

#[test]
fn add_and_remove_dependencies() {
    let mut m = metadata(vec![req("click")], None);
    m.add_dependency(Dependency::from_str("ruff").unwrap());
    assert_eq!(names(m.dependencies().unwrap()), vec!["click", "ruff"]);
    m.remove_dependency(&Dependency::from_str("click").unwrap());
    assert_eq!(names(m.dependencies().unwrap()), vec!["ruff"]);
    m.add_script("demo", "demo.main:main");
    m.add_script("demo", "other:main");
    assert_eq!(m.project.scripts.clone().unwrap().into_iter().collect::<Vec<_>>(), vec![("demo".to_string(), "demo.main:main".to_string())]);
    m.set_project_name("renamed".to_string());
    assert_eq!(m.project_name(), "renamed");
    assert_eq!(m.project_version().map(|s| s.as_str()), Some("0.0.1"));
}

#[test]
fn selection_of_requested_dependencies() {
    let m = metadata(vec![req("click")], None);
    let requested = strings(&["click", "ruff", "x>=bad", "black==22.8.0"]);
    let parsed = dependency_iter(&requested);
    assert_eq!(parsed.len(), 3);
    let new = dependencies_to_add(&requested, &m, None);
    let new_names: Vec<&str> = new.iter().map(|d| d.name()).collect();
    assert_eq!(new_names, vec!["ruff", "black"]);
    let old = dependencies_to_remove(&requested, &m, None);
    let old_names: Vec<&str> = old.iter().map(|d| d.name()).collect();
    assert_eq!(old_names, vec!["click"]);
}

#[test]
fn removal_selects_by_name_and_update_by_requirement() {
    let m = metadata(vec![pinned_req("click", "8.1.3"), req("ruff")], None);
    let requested = strings(&["click", "ruff", "black"]);
    let removed: Vec<String> =
        dependencies_to_remove(&requested, &m, None).iter().map(|d| d.to_dep_string()).collect();
    assert_eq!(removed, strings(&["click", "ruff"]));
    let updated: Vec<String> =
        dependencies_to_update(&requested, &m, None).iter().map(|d| d.to_dep_string()).collect();
    assert_eq!(updated, strings(&["ruff"]));
}

#[test]
fn recording_an_addition() {
    let mut m = metadata(vec![], None);
    let requested = dependency_iter(&strings(&["ruff", "black==22.8.0"]));
    let installed = vec![Package::from_str("ruff==0.1.0").unwrap(), Package::from_str("black==22.8.0").unwrap()];
    let pinned_strings = pinned_dependency_strings(&requested, &installed);
    assert_eq!(pinned_strings, strings(&["ruff==0.1.0"]));
    let pinned = dependency_iter(&pinned_strings);
    record_added_dependencies(&mut m, pinned, requested, None);
    // the pinned string adds the name alone, then the unpinned request does too
    assert_eq!(names(m.dependencies().unwrap()), vec!["ruff", "ruff"]);
}

#[test]
fn removing_and_refreshing() {
    let mut m = metadata(vec![req("a"), req("b"), req("c")], None);
    let deps = dependency_iter(&strings(&["a", "zzz"]));
    remove_dependencies(&mut m, &deps, None);
    assert_eq!(names(m.dependencies().unwrap()), vec!["b", "c"]);
    refresh_dependency(&mut m, Dependency::from_str("b==2.0").unwrap(), None);
    assert_eq!(names(m.dependencies().unwrap()), vec!["c", "b"]);
    refresh_dependency(&mut m, Dependency::from_str("q").unwrap(), None);
    assert_eq!(names(m.dependencies().unwrap()), vec!["c", "b"]);
}

#[test]
fn refreshing_in_a_group() {
    let mut m = metadata(vec![], Some(vec![("dev".to_string(), vec![req("a"), req("b")])]));
    refresh_dependency(&mut m, Dependency::from_str("a").unwrap(), Some("dev"));
    assert_eq!(names(m.optional_dependencey_group("dev").unwrap()), vec!["b", "a"]);
    let deps = dependency_iter(&strings(&["b"]));
    remove_dependencies(&mut m, &deps, Some("dev"));
    assert_eq!(names(m.optional_dependencey_group("dev").unwrap()), vec!["a"]);
}

#[test]
fn dependency_from_requirement() {
    let r = pinned_req("black", "22.8.0");
    let d = Dependency::from_requirement(&r);
    assert_eq!(d.to_dep_string(), "black==22.8.0");
    assert!(d.same_requirement(&Dependency::from_requirement(&r)));
    assert!(!d.same_requirement(&Dependency::from_str("black").unwrap()));
    assert_eq!(d.duplicate().name(), "black");
}

#[test]
fn tools_are_recorded_in_dev_once() {
    let mut m = metadata(vec![req("click")], Some(vec![("docs".to_string(), vec![req("sphinx")])]));
    record_tool_dependency(&mut m, Dependency::from_str("ruff").unwrap());
    record_tool_dependency(&mut m, Dependency::from_str("ruff").unwrap());
    record_tool_dependency(&mut m, Dependency::from_str("click").unwrap());
    record_tool_dependency(&mut m, Dependency::from_str("sphinx").unwrap());
    let groups = m.optional_dependencies().unwrap();
    assert_eq!(groups.len(), 2);
    assert_eq!(groups.get_index(1).unwrap().0, "dev");
    assert_eq!(names(&groups[1]), vec!["ruff"]);
    assert_eq!(names(m.dependencies().unwrap()), vec!["click"]);
}

fn parsed(s: &str) -> Requirement {
    Dependency::from_str(s).unwrap().into_requirement()
}

fn mock_metadata() -> Metadata {
    metadata(
        vec![parsed("click==8.1.3")],
        Some(vec![(
            "dev".to_string(),
            vec![parsed("pytest>=6"), parsed("black==22.8.0"), parsed("isort==5.12.0")],
        )]),
    )
}

#[test]
fn toml_remove_dependency() {
    let mut m = mock_metadata();
    m.remove_dependency(&Dependency::from_str("click").unwrap());
    assert!(m.dependencies().unwrap().is_empty());
    assert_eq!(names(&m.optional_dependencies().unwrap()[0]), vec!["pytest", "black", "isort"]);
}

#[test]
fn toml_remove_optional_dependency() {
    let mut m = mock_metadata();
    m.remove_optional_dependency(&Dependency::from_str("isort").unwrap(), "dev");
    let dev = &m.optional_dependencies().unwrap()[0];
    assert_eq!(names(dev), vec!["pytest", "black"]);
    assert!(requirement_eq(&dev[0], &parsed("pytest>=6")));
    assert!(requirement_eq(&dev[1], &parsed("black==22.8.0")));
    assert_eq!(names(m.dependencies().unwrap()), vec!["click"]);
}

#[test]
fn removal_drops_every_entry_of_the_name() {
    let mut m = metadata(vec![parsed("click==8.1.3"), req("rich"), parsed("click>=7")], None);
    m.remove_dependency(&Dependency::from_str("click==9").unwrap());
    assert_eq!(names(m.dependencies().unwrap()), vec!["rich"]);
}

#[test]
fn refreshing_what_was_installed() {
    let mut m = metadata(
        vec![parsed("click==8.1.3"), req("rich")],
        Some(vec![("dev".to_string(), vec![parsed("pytest==7.0.0"), parsed("black==22.8.0")])]),
    );
    let installed = vec![Dependency::from_str("click==8.1.3").unwrap(), Dependency::from_str("pytest==7.0.0").unwrap()];
    huak::ops::refresh_installed(&mut m, &installed, &vec![None, Some("dev".to_string())]);
    assert_eq!(names(m.dependencies().unwrap()), vec!["rich", "click"]);
    assert_eq!(names(&m.optional_dependencies().unwrap()[0]), vec!["black", "pytest"]);
}

#[test]
fn requirement_texts() {
    assert_eq!(requirement_text(&req("click")), "click");
    assert_eq!(requirement_text(&pinned_req("click", "8.1.3")), "click==8.1.3");
    let full = Requirement {
        name: "black".to_string(),
        extras: Some(vec!["d".to_string(), "jupyter".to_string()]),
        version_or_url: Some(VersionOrUrl::VersionSpecifier(vec![
            (Operator::GreaterThanEqual, "22.8.0".to_string()),
            (Operator::LessThan, "23".to_string()),
        ])),
        marker: Some("python_version >= '3.8'".to_string()),
    };
    assert_eq!(requirement_text(&full), "black[d,jupyter]>=22.8.0,<23; python_version >= '3.8'");
    let url = Requirement {
        name: "pkg".to_string(),
        extras: None,
        version_or_url: Some(VersionOrUrl::Url("https://example.com/pkg.whl".to_string())),
        marker: None,
    };
    assert_eq!(requirement_text(&url), "pkg @ https://example.com/pkg.whl");
}
