use huak::number::parse_usize_text_exec;
use std::cmp::Ordering;

use huak::error::Error;
use huak::platform::Platform;
use huak::python_environment::{
    config_version_text, default_venv_name, interpreters_from_paths, python_interpreters_in_paths, python_paths,
    valid_python_interpreter_file_name, venv_config_file_name, venv_config_from_lines, version_from_command_output,
    version_from_python_interpreter_file_name, Interpreter, Interpreters, VenvConfig,
};
use huak::version::{compare_release, Version};
use huak::workspace;

fn v(s: &str) -> Version {
    Version::from_str(s).unwrap()
}

#[test]
fn version_reads_one_to_three_numbers() {
    assert_eq!(v("3").release(), &vec![3, 0, 0]);
    assert_eq!(v("3.11").release(), &vec![3, 11, 0]);
    assert_eq!(v("3.11.2").release(), &vec![3, 11, 2]);
    assert_eq!(v("3.11.2").release_len(), 3);
}

#[test]
fn version_errors() {
    assert!(matches!(Version::from_str("3.11.2.1"), Err(Error::InvalidVersionString(s)) if s == "3.11.2.1"));
    assert!(matches!(Version::from_str("3.x"), Err(Error::InvalidVersionString(s)) if s == "3.x"));
    // `\d` is any Unicode decimal digit: such a text matches, then fails to read as a number
    assert!(matches!(Version::from_str("3.\u{0661}"), Err(Error::InternalError(m)) if m == "invalid digit found in string"));
    assert!(matches!(Version::from_str("3.x.\u{0661}"), Err(Error::InvalidVersionString(_))));
    assert!(matches!(Version::from_str(""), Err(Error::InvalidVersionString(s)) if s == ""));
    assert!(matches!(
        Version::from_str("99999999999999999999999"),
        Err(Error::InternalError(m)) if m == "number too large to fit in target type"
    ));
}

#[test]
fn version_displays_minor_twice() {
    assert_eq!(v("3.11.2").to_string(), "3.11.11");
    let s = v("1.2.3").to_semver();
    assert_eq!((s.major, s.minor, s.patch), (1, 2, 3));
}

#[test]
fn version_order_compares_each_number() {
    assert_eq!(compare_release(&v("3.10.0"), &v("3.11.0")), Ordering::Less);
    assert_eq!(compare_release(&v("3.11.0"), &v("3.11.0")), Ordering::Equal);
    assert_eq!(compare_release(&v("3.10.1"), &v("3.10.2")), Ordering::Less);
    assert_eq!(compare_release(&v("4.0.0"), &v("3.99.9")), Ordering::Greater);
    assert!(v("3.1.0") != v("3.2.0"));
    assert!(v("3.1.0") < v("3.2.0"));
    assert!(v("3.1.0") < v("3.1.1"));
    assert_eq!(v("2.0.0").partial_cmp(&v("1.0.0")), Some(Ordering::Greater));
}

#[test]
fn interpreters_latest_and_exact() {
    let a = Interpreter::new("/a/python3.8", v("3.8.1"));
    let b = Interpreter::new("/b/python3.9", v("3.9.2"));
    let c = Interpreter::new("/c/python3.9", v("3.9.2"));
    let interpreters = Interpreters::new(vec![a, b, c]);
    assert_eq!(interpreters.latest().unwrap().path(), "/c/python3.9");
    assert_eq!(interpreters.exact(&v("3.9.2")).unwrap().path(), "/b/python3.9");
    assert!(interpreters.exact(&v("3.7.0")).is_none());
    assert!(interpreters.exact(&v("3.9.1")).is_none());
    assert_eq!(interpreters.exact(&v("3.8.1")).unwrap().path(), "/a/python3.8");
    assert_eq!(interpreters.interpreters().len(), 3);
    assert!(Interpreters::new(vec![]).latest().is_none());
}

#[test]
fn interpreter_file_names() {
    assert!(valid_python_interpreter_file_name("python", Platform::Unix));
    assert!(valid_python_interpreter_file_name("python3.11", Platform::Unix));
    assert!(!valid_python_interpreter_file_name("python3", Platform::Unix));
    assert!(!valid_python_interpreter_file_name("python3.11-config", Platform::Unix));
    assert!(valid_python_interpreter_file_name("python.exe", Platform::Windows));
    assert!(valid_python_interpreter_file_name("python3.exe", Platform::Windows));
    assert!(!valid_python_interpreter_file_name("pythonw.exe", Platform::Windows));
    assert!(workspace::valid_python_interpreter_file_name("python3.11-config", Platform::Unix));
    assert!(!workspace::valid_python_interpreter_file_name("python3", Platform::Windows));
}

#[test]
fn interpreter_versions_from_names() {
    assert_eq!(
        version_from_python_interpreter_file_name("python3.11", Platform::Unix).unwrap().release(),
        &vec![3, 11, 0]
    );
    assert_eq!(
        version_from_python_interpreter_file_name("python3.9.exe", Platform::Windows).unwrap().release(),
        &vec![3, 9, 0]
    );
    assert!(matches!(
        version_from_python_interpreter_file_name("python", Platform::Unix),
        Err(Error::InternalError(m)) if m == "could not version from python"
    ));
}

#[test]
fn interpreters_in_paths() {
    let paths: Vec<String> = vec![
        "/usr/bin/python3.11".to_string(),
        "/usr/bin/python".to_string(),
        "/usr/bin/ls".to_string(),
        "/usr/bin/python3.9".to_string(),
    ];
    let found = python_interpreters_in_paths(&paths, Platform::Unix);
    let found_paths: Vec<&str> = found.iter().map(|(_, p)| p.as_str()).collect();
    assert_eq!(found_paths, vec!["/usr/bin/python3.11", "/usr/bin/python3.9"]);
    let interpreters = interpreters_from_paths(&paths, Platform::Unix);
    assert_eq!(interpreters.latest().unwrap().path(), "/usr/bin/python3.11");
    let windows = python_interpreters_in_paths(&vec!["C:/py/python.exe".to_string()], Platform::Windows);
    assert_eq!(windows.len(), 1);
    assert!(windows[0].0.is_none());
    let backslashed = python_interpreters_in_paths(&vec!["C:\\py\\python.exe".to_string(), "C:\\py\\pip.exe".to_string()], Platform::Windows);
    assert_eq!(backslashed.len(), 1);
    assert_eq!(backslashed[0].1, "C:\\py\\python.exe");
    assert!(python_interpreters_in_paths(&vec!["C:\\py\\python.exe".to_string()], Platform::Unix).is_empty());
}

#[test]
fn python_paths_from_listings() {
    let listings: Vec<Option<Vec<String>>> = vec![
        Some(vec!["/a/python3.10".to_string(), "/a/pip".to_string()]),
        None,
        Some(vec!["/b/python3.12".to_string()]),
    ];
    let found = python_paths(&listings, Platform::Unix);
    assert_eq!(found.len(), 2);
    assert_eq!(found[1].1, "/b/python3.12");
    let lib_found = workspace::python_paths(&listings, Platform::Unix);
    assert_eq!(lib_found.len(), 2);
}

#[test]
fn venv_config_version() {
    let lines = vec!["home = /usr".to_string(), "version = 3.11.4".to_string()];
    assert_eq!(VenvConfig::new(&lines).unwrap().version.release(), &vec![3, 11, 4]);
    assert_eq!(VenvConfig::new(&vec![]).unwrap().version.release(), &vec![0, 0, 0]);
    let unreadable = vec!["version = three".to_string(), "home=/usr".to_string()];
    assert_eq!(config_version_text(&unreadable), "three");
    assert!(Version::from_str(&config_version_text(&unreadable)).is_err());
    assert!(venv_config_from_lines(&unreadable).is_none());
    assert_eq!(venv_config_from_lines(&lines).unwrap().version.release(), &vec![3, 11, 4]);
    assert_eq!(config_version_text(&vec!["version=3.8".to_string(), "version = 3.9".to_string()]), "3.9");
    assert_eq!(venv_config_file_name(), "pyvenv.cfg");
    assert_eq!(default_venv_name(), ".venv");
}

#[test]
fn version_from_output() {
    assert_eq!(version_from_command_output("3 11 4\r\n").unwrap().release(), &vec![3, 11, 4]);
    assert!(version_from_command_output("oops").is_none());
}

#[test]
fn latest_is_the_newest_interpreter() {
    let newer = Interpreter::new("/a/python3.11", v("3.11.0"));
    let older = Interpreter::new("/b/python3.10", v("3.10.0"));
    let interpreters = Interpreters::new(vec![newer, older]);
    assert_eq!(interpreters.latest().unwrap().path(), "/a/python3.11");
}

#[test]
fn versions_from_captured_groups() {
    let s = |t: &str| Some(t.to_string());
    assert!(matches!(Version::from_captures("x", Err("bad".to_string())), Err(Error::RegexError(m)) if m == "bad"));
    assert!(matches!(Version::from_captures("x", Ok(None)), Err(Error::InvalidVersionString(m)) if m == "x"));
    assert_eq!(Version::from_captures("3..7", Ok(Some(vec![s("3"), None, s("7")]))).unwrap().release(), &vec![3, 0, 7]);
    assert_eq!(Version::from_captures("+4", Ok(Some(vec![s("+4")]))).unwrap().release(), &vec![4, 0, 0]);
    assert!(matches!(
        Version::from_captures("1.", Ok(Some(vec![s("1"), s("")]))),
        Err(Error::InternalError(m)) if m == "cannot parse integer from empty string"
    ));
    assert!(matches!(
        Version::from_captures("-1", Ok(Some(vec![s("-1")]))),
        Err(Error::InternalError(m)) if m == "invalid digit found in string"
    ));
}

#[test]
fn numbers_read_as_str_parse_reads_them() {
    let p = |t: &str| parse_usize_text_exec(&t.chars().collect::<Vec<char>>());
    assert_eq!(p("42"), Ok(42));
    assert_eq!(p("+42"), Ok(42));
    assert_eq!(p(""), Err("cannot parse integer from empty string".to_string()));
    assert_eq!(p("+"), Err("invalid digit found in string".to_string()));
    assert_eq!(p("4x"), Err("invalid digit found in string".to_string()));
    assert_eq!(p("99999999999999999999999"), Err("number too large to fit in target type".to_string()));
    for t in ["42", "+42", "", "+", "-", "4x", "99999999999999999999999", "\u{0663}"] {
        assert_eq!(p(t).ok(), t.parse::<usize>().ok());
    }
}
