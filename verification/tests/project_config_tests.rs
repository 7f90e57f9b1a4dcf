use huak::platform::Platform;
use huak::config::pyproject::project::DependencyGroups;
use huak::config::pyproject::toml::Toml;
use huak::ops::{get_delete_patterns, PathType};
use huak::package::Operator;
use huak::project::config::ProjectConfig;
use huak::project::py_project::{Project, ProjectType};

fn strings(v: &[&str]) -> Vec<String> {
    v.iter().map(|s| s.to_string()).collect()
}

#[test]
fn project_config_package_lists() {
    let mut toml = Toml::default();
    toml.project.dependencies = Some(strings(&["click==8.1.3", "black", "foo==!!"]));
    let mut groups = DependencyGroups::new();
    groups.insert("dev", strings(&["pytest>=7"]));
    toml.project.optional_dependencies = Some(groups);
    let mut config = ProjectConfig { pyproject_path: "/p/pyproject.toml".to_string(), pyproject_toml: toml };

    let packages = config.package_list();
    assert_eq!(packages.len(), 2);
    assert_eq!(packages[0].name, "click");
    assert_eq!(packages[0].operator(), Some(&Operator::Equal));
    assert_eq!(packages[0].version().unwrap(), "8.1.3");
    assert_eq!(packages[1].name, "black");
    assert!(packages[1].operator().is_none());

    let dev = config.optional_package_list("dev");
    assert_eq!(dev.len(), 1);
    assert_eq!(dev[0].name, "pytest");
    assert_eq!(dev[0].operator(), Some(&Operator::GreaterThanEqual));
    assert!(config.optional_package_list("docs").is_empty());

    config.set_project_name("demo");
    assert_eq!(config.project_name(), "demo");
    assert_eq!(config.project_version().as_deref(), Some("0.0.1"));
    assert_eq!(config.pyproject_path(), "/p/pyproject.toml");
}

#[test]
fn default_project_config() {
    let config = ProjectConfig::default();
    assert_eq!(config.pyproject_path(), "");
    assert!(config.package_list().is_empty());
}

#[test]
fn delete_patterns() {
    let patterns = get_delete_patterns();
    assert_eq!(patterns.len(), 2);
    assert_eq!(patterns[0].path_type, PathType::Directory);
    assert_eq!(patterns[0].glob, "**/__pycache__");
    assert_eq!(patterns[1].path_type, PathType::File);
    assert_eq!(patterns[1].glob, "**/*.pyc");
}

#[test]
fn bootstrapped_application() {
    let project = Project::new("/home/me/demo", ProjectType::Application);
    let toml = project.create_toml(Platform::Unix).unwrap();
    assert_eq!(toml.project.name, "demo");
    assert_eq!(toml.project.scripts.unwrap(), vec![("demo".to_string(), "demo:run".to_string())]);
    let template = project.template(Platform::Unix).unwrap();
    assert_eq!(template.dirs, strings(&["/home/me/demo/src", "/home/me/demo/src/demo"]));
    assert_eq!(template.files.len(), 1);
    assert_eq!(template.files[0].0, "/home/me/demo/src/demo/main.py");
    assert!(template.files[0].1.starts_with("# This is a sample Python script."));
}

#[test]
fn bootstrapped_library() {
    let project = Project::new("/home/me/lib", ProjectType::Library);
    let toml = project.create_toml(Platform::Unix).unwrap();
    assert_eq!(toml.project.name, "lib");
    assert!(toml.project.scripts.is_none());
    let template = project.template(Platform::Unix).unwrap();
    assert_eq!(template.dirs, strings(&["/home/me/lib/src"]));
    let paths: Vec<&str> = template.files.iter().map(|f| f.0.as_str()).collect();
    assert_eq!(paths, vec!["/home/me/lib/src/__init__.py", "/home/me/lib/src/my_math.py", "/home/me/lib/test.py"]);
    assert_eq!(template.files[0].1, "from .my_math import add_one, times_two\n");
}

#[test]
fn bootstrapping_a_root_without_a_name() {
    let project = Project::new("/", ProjectType::Library);
    assert!(project.create_toml(Platform::Unix).is_err());
    assert!(project.template(Platform::Unix).is_err());
}
