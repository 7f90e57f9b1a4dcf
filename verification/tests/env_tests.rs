use huak::env::python_environment::{
    activation_command, bin_name, conda_default_env_var, conda_env_is_base, conda_env_var,
    venv_env_var, EnvironmentData, Venv, VirtualConfig,
};
use huak::env::runner::{path_with_bin, shell_command_flag, Runner};
use huak::env::system::{python_binary_targets, PythonBinary};
use huak::env::venv::{self, shell_source_command};
use huak::error::Error;
use huak::path::{file_name, join, last_component, parent, set_extension};
use huak::platform::Platform;

#[test]
fn python_environment_default() {
    let venv = Venv::default();

    assert!(venv.path().ends_with(".venv"));
}

#[test]
fn test_bin_name() {
    assert_eq!(bin_name(Platform::Unix), "bin");
    assert_eq!(bin_name(Platform::Windows), "Scripts");
}

#[test]
fn venv_default() {
    let venv = venv::Venv::default();

    assert!(venv.path.ends_with(".venv"));
}

#[test]
fn env_var_names() {
    assert_eq!(venv_env_var(), "VIRTUAL_ENV");
    assert_eq!(conda_env_var(), "CONDA_PREFIX");
    assert_eq!(conda_default_env_var(), "CONDA_DEFAULT_ENV");
    assert!(!conda_env_is_base());
}

#[test]
fn environment_data_starts_empty() {
    let data = EnvironmentData::new();
    assert_eq!(data.path, "");
    assert_eq!(data.interpreter_path(), "");
    assert_eq!(data.interpreter_version(), "");
    assert_eq!(data.base_interpreter_path(), "");
    assert_eq!(data.base_interpreter_version(), "");
}

#[test]
fn venv_paths() {
    let v = Venv::new("/home/me/project/.venv");
    assert_eq!(v.path(), "/home/me/project/.venv");
    assert_eq!(v.name(Platform::Unix).unwrap(), ".venv");
    assert_eq!(v.bin_path(Platform::Unix), "/home/me/project/.venv/bin");
    assert_eq!(v.bin_path(Platform::Windows), "/home/me/project/.venv\\Scripts");
    assert_eq!(v.module_file_path("pip", Platform::Unix).unwrap(), "/home/me/project/.venv/bin/pip");
    assert_eq!(v.module_file_path("pip", Platform::Windows).unwrap(), "/home/me/project/.venv\\Scripts\\pip.exe");
    assert_eq!(v.module_file_path("a.b", Platform::Windows).unwrap(), "/home/me/project/.venv\\Scripts\\a.exe");
    assert!(matches!(
        v.module_file_path("..", Platform::Windows),
        Err(Error::InternalError(m)) if m == "failed to create path for .."
    ));
    assert_eq!(Venv::in_directory("/w", Platform::Unix).path(), "/w/.venv");
    assert!(matches!(Venv::new("/").name(Platform::Unix), Err(Error::InternalError(m)) if m == "failed to read name from path"));
}

#[test]
fn activation_scripts() {
    let v = Venv::new(".venv");
    assert_eq!(v.get_activation_script_path("fish", Platform::Unix).unwrap(), ".venv/bin/activate.fish");
    assert_eq!(v.get_activation_script_path("tcsh", Platform::Unix).unwrap(), ".venv/bin/activate.csh");
    assert_eq!(v.get_activation_script_path("pwsh", Platform::Windows).unwrap(), ".venv\\Scripts\\activate.ps1");
    assert_eq!(v.get_activation_script_path("cmd", Platform::Windows).unwrap(), ".venv\\Scripts\\activate.bat");
    assert_eq!(v.get_activation_script_path("nu", Platform::Unix).unwrap(), ".venv/bin/activate.nu");
    assert_eq!(v.get_activation_script_path("bash", Platform::Unix).unwrap(), ".venv/bin/activate");
    assert_eq!(activation_command(".venv/bin/activate", Platform::Unix), "source .venv/bin/activate");
    assert_eq!(activation_command("a.bat", Platform::Windows), "a.bat");
    let w = venv::Venv::new("env".to_string());
    assert_eq!(w.get_activation_script("zsh", Platform::Unix).unwrap(), "env/bin/activate");
    assert_eq!(w.module_file_path("ruff", Platform::Unix).unwrap(), "env/bin/ruff");
    assert_eq!(shell_source_command("fish"), "source");
    assert_eq!(shell_source_command("bash"), ".");
    assert_eq!(venv::activation_command("nu", "x"), "source x");
}

#[test]
fn virtual_config_from_lines() {
    let lines: Vec<String> = vec![
        "home = /usr/bin".to_string(),
        "include-system-site-packages = true".to_string(),
        "version = 3.11.1".to_string(),
        "version = 3.11.2".to_string(),
        "executable = /usr/bin/python3.11".to_string(),
        "command = /usr/bin/python3 -m venv /x/.venv".to_string(),
    ];
    let c = VirtualConfig::from_lines(&lines);
    assert_eq!(c.home, "/usr/bin");
    assert!(c.include_system_site_packages);
    assert_eq!(c.version, "3.11.2");
    assert_eq!(c.executable.as_deref(), Some("/usr/bin/python3.11"));
    assert_eq!(c.command.as_deref(), Some("/usr/bin/python3 -m venv /x/.venv"));
    let empty = VirtualConfig::from_lines(&vec!["include-system-site-packages = yes".to_string()]);
    assert!(!empty.include_system_site_packages);
    assert_eq!(empty.home, "");
    assert!(empty.executable.is_none());
}

#[test]
fn venv_from_config() {
    let lines = vec!["version = 3.10.4".to_string()];
    let v = Venv::from_config("/p/.venv/pyvenv.cfg", &lines, Platform::Unix, "/usr/bin/python3").unwrap();
    assert_eq!(v.path(), "/p/.venv");
    assert_eq!(v.interpreter_path(), "/p/.venv/bin/python");
    assert_eq!(v.base_interpreter_path(), "/usr/bin/python3");
    assert_eq!(v.site_packages_path(), "/p/.venv/lib/python3.10/site-packages");
    let w = Venv::from_config("/p/.venv/pyvenv.cfg", &vec!["version = 3.11.4".to_string()], Platform::Unix, "").unwrap();
    assert_eq!(w.site_packages_path(), "/p/.venv/lib/python3.11/site-packages");
    let win = Venv::from_config("C:\\p\\.venv\\pyvenv.cfg", &lines, Platform::Windows, "").unwrap();
    assert_eq!(win.path(), "C:\\p\\.venv");
    assert_eq!(win.interpreter_path(), "C:\\p\\.venv\\Scripts\\python");
    assert_eq!(win.site_packages_path(), "C:\\p\\.venv\\lib\\python\\site-packages");
    assert!(matches!(Venv::from_config("/", &lines, Platform::Unix, ""), Err(Error::PythonNotFoundError)));
}

#[test]
fn path_helpers() {
    assert_eq!(join(Platform::Unix, "a", "b"), "a/b");
    assert_eq!(join(Platform::Unix, "a/", "b"), "a/b");
    assert_eq!(join(Platform::Unix, "a", "/b"), "/b");
    assert_eq!(file_name(Platform::Unix, "a/b/").as_deref(), Some("b"));
    assert_eq!(file_name(Platform::Unix, "a/.."), None);
    assert_eq!(last_component(Platform::Unix, "/").as_deref(), Some("/"));
    assert_eq!(parent(Platform::Unix, "/a/b").as_deref(), Some("/a"));
    assert_eq!(parent(Platform::Unix, "/a").as_deref(), Some("/"));
    assert_eq!(parent(Platform::Unix, "a").as_deref(), Some(""));
    assert_eq!(parent(Platform::Unix, "./a").as_deref(), Some("."));
    assert_eq!(parent(Platform::Unix, "a/./b/").as_deref(), Some("a"));
    assert_eq!(parent(Platform::Unix, "/"), None);
    assert_eq!(parent(Platform::Unix, ""), None);
    assert_eq!(set_extension(Platform::Unix, "x/.venv", "exe").as_deref(), Some("x/.venv.exe"));
    assert_eq!(set_extension(Platform::Unix, "x/a.tar.gz", "").as_deref(), Some("x/a.tar"));
    assert_eq!(set_extension(Platform::Unix, "/", "exe"), None);
}

#[test]
fn windows_path_helpers() {
    let w = Platform::Windows;
    assert_eq!(file_name(w, "dir\\name").as_deref(), Some("name"));
    assert_eq!(file_name(Platform::Unix, "dir\\name").as_deref(), Some("dir\\name"));
    assert_eq!(file_name(w, "C:\\a\\b\\").as_deref(), Some("b"));
    assert_eq!(file_name(w, "C:foo").as_deref(), Some("foo"));
    assert_eq!(file_name(w, "C:\\"), None);
    assert_eq!(file_name(w, "C:"), None);
    assert_eq!(join(w, "C:\\a", "b"), "C:\\a\\b");
    assert_eq!(join(w, "C:\\a\\", "b"), "C:\\a\\b");
    assert_eq!(join(w, "C:", "b"), "C:b");
    assert_eq!(join(w, "C:\\a", "D:\\b"), "D:\\b");
    assert_eq!(join(w, "C:\\a", "D:b"), "D:b");
    assert_eq!(join(w, "C:\\a", "\\b"), "C:\\b");
    assert_eq!(join(w, "a", "/b"), "/b");
    assert_eq!(join(Platform::Unix, "C:\\a", "b"), "C:\\a/b");
    assert_eq!(last_component(w, "C:\\").as_deref(), Some("\\"));
    assert_eq!(last_component(w, "C:").as_deref(), Some("C:"));
    assert_eq!(last_component(w, "C:.").as_deref(), Some("."));
    assert_eq!(parent(w, "C:\\a\\b").as_deref(), Some("C:\\a"));
    assert_eq!(parent(w, "C:\\a").as_deref(), Some("C:\\"));
    assert_eq!(parent(w, "C:a").as_deref(), Some("C:"));
    assert_eq!(parent(w, "C:\\"), None);
    assert_eq!(parent(w, "C:"), None);
    assert_eq!(set_extension(w, "C:\\x\\python", "exe").as_deref(), Some("C:\\x\\python.exe"));
    // a plain name joined onto any path is that path's file name
    for base in ["", "C:", "C:\\", "C:\\a", "a/", "\\\\srv\\x"] {
        assert_eq!(file_name(w, &join(w, base, "venv")).as_deref(), Some("venv"));
    }
    for base in ["", "/", "/a", "a/b/", "x\\y"] {
        assert_eq!(file_name(Platform::Unix, &join(Platform::Unix, base, "venv")).as_deref(), Some("venv"));
    }
}

#[test]
fn runner_decisions() {
    let r = Runner::new("/home");
    assert_eq!(r.run_directory(None), "/home");
    assert_eq!(r.run_directory(Some("/x")), "/x");
    assert_eq!(shell_command_flag(Platform::Windows), "/C");
    assert_eq!(shell_command_flag(Platform::Unix), "-c");
    assert_eq!(path_with_bin("/v/bin", "/usr/bin"), "/v/bin:/usr/bin");
}

#[test]
fn python_binaries() {
    let names: Vec<&str> = python_binary_targets().iter().map(|b| b.as_str()).collect();
    assert_eq!(names, vec!["python3", "python", "python2"]);
    assert_eq!(PythonBinary::Python.as_str(), "python");
}

#[test]
fn platform_from_os_name() {
    assert_eq!(Platform::from_os_name("windows"), Platform::Windows);
    assert_eq!(Platform::from_os_name("linux"), Platform::Unix);
}
