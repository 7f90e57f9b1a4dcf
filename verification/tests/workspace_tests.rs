use huak::platform::Platform;
use huak::python_environment::{Interpreter, Interpreters};
use huak::version::Version;
use huak::workspace::{
    default_init_file_contents, default_main_file_contents,
    environment_layout, freeze_lines, is_active, pip_install_arguments, pip_uninstall_arguments,
    pip_update_arguments, InstallOptions,
};

fn texts(v: &[&str]) -> Vec<String> {
    v.iter().map(|s| s.to_string()).collect()
}

#[test]
fn unix_environment_layout() {
    let version = Version::from_str("3.11.4").unwrap();
    let (bin, python, site) = environment_layout("/home/me/proj/.venv", &version, Platform::Unix);
    assert_eq!(bin, "/home/me/proj/.venv/bin");
    assert_eq!(python, "/home/me/proj/.venv/bin/python");
    assert_eq!(site, "/home/me/proj/.venv/lib/python3.11/site-packages");
}

#[test]
fn windows_environment_layout() {
    let version = Version::from_str("3.9").unwrap();
    let (bin, python, site) = environment_layout(".venv", &version, Platform::Windows);
    assert_eq!(bin, ".venv\\Scripts");
    assert_eq!(python, ".venv\\Scripts\\python.exe");
    assert_eq!(site, ".venv\\Lib\\site-packages");
}

#[test]
fn pip_arguments() {
    let packages = texts(&["ruff==0.1.0", "pytest"]);
    let none = InstallOptions { values: None };
    let some = InstallOptions { values: Some(texts(&["--no-cache-dir"])) };
    assert_eq!(
        pip_install_arguments(&packages, &none),
        texts(&["-m", "pip", "install", "ruff==0.1.0", "pytest"])
    );
    assert_eq!(
        pip_install_arguments(&packages, &some),
        texts(&["-m", "pip", "install", "ruff==0.1.0", "pytest", "--no-cache-dir"])
    );
    assert_eq!(
        pip_uninstall_arguments(&packages, &some),
        texts(&["-m", "pip", "uninstall", "ruff==0.1.0", "pytest", "-y", "--no-cache-dir"])
    );
    assert_eq!(
        pip_update_arguments(&texts(&["black"]), &none),
        texts(&["-m", "pip", "install", "--upgrade", "black", "-y"])
    );
}

#[test]
fn freeze_output_lines() {
    assert_eq!(freeze_lines("black==22.8.0\nclick==8.1.3\n"), texts(&["black==22.8.0", "click==8.1.3"]));
    assert_eq!(freeze_lines(""), Vec::<String>::new());
    assert_eq!(freeze_lines("\n\na==1\n\n"), texts(&["a==1"]));
}

#[test]
fn active_environment() {
    assert!(is_active("/p/.venv", Some("/p/.venv"), None));
    assert!(!is_active("/p/.venv", Some("/q/.venv"), Some("/p/.venv")));
    assert!(is_active("/opt/conda", None, Some("/opt/conda")));
    assert!(!is_active("/p/.venv", None, None));
}

#[test]
fn interpreter_by_version_text() {
    let interpreters = Interpreters::new(vec![
        Interpreter::new("/usr/bin/python3.9", Version::from_str("3.9").unwrap()),
        Interpreter::new("/usr/bin/python3.11", Version::from_str("3.11").unwrap()),
        Interpreter::new("/opt/bin/python3.11", Version::from_str("3.11.2").unwrap()),
    ]);
    let shown = Version::from_str("3.11").unwrap().to_string();
    assert_eq!(interpreters.with_version_text(&shown).unwrap().path(), "/usr/bin/python3.11");
    assert!(interpreters.with_version_text("2.7.18").is_none());
}

#[test]
fn new_project_file_contents() {
    assert_eq!(default_init_file_contents(), "__version__ = \"0.0.1\"\n");
    assert_eq!(
        default_main_file_contents(),
        "def main():\n    print(\"Hello, World!\")\n\n\nif __name__ == \"__main__\":\n    main()\n"
    );
}

#[test]
fn fix_and_fmt_arguments() {
    assert_eq!(huak::ops::fix_arguments(".venv"), texts(&[".", "--fix", "--extend-exclude", ".venv"]));
    assert_eq!(huak::ops::fmt_arguments(true), texts(&[".", "--line-length", "79", "--check"]));
    assert_eq!(huak::ops::fmt_arguments(false), texts(&[".", "--line-length", "79"]));
}
