use huak::error::Error;
use huak::package::python::{package_string_from_parts, PythonPackage as PlainPackage, VersionSpecifier as PlainSpecifier};
use huak::package::{Operator, PythonPackage};

#[test]
fn string_from_parts() {
    let (name1, op1, version1, ans1) = ("test", "==", "0.0.0", "test==0.0.0");
    let (name2, version2, ans2) = ("test", "0.0.0", "test==0.0.0");
    let op2: Option<&str> = None;
    let res1 = package_string_from_parts(name1, &Some(op1), &Some(version1));
    let res2 = package_string_from_parts(name2, &op2, &Some(version2));
    assert_eq!(res1, ans1);
    assert_eq!(res2, ans2);
}

#[test]
fn python_display_version_operator() {
    let test_formatted_output = PlainSpecifier::Compatible.to_string();
    assert_eq!("~=", test_formatted_output);
}

#[test]
fn python_enum_version_operator_from_string() {}

#[test]
fn mod_enum_version_operator_from_string() {}

#[test]
fn py_pkg_with_multiple_version_specifier() {}

#[test]
fn python_display_python_package() {
    let pkg_name = "test";
    let pkg_version: Option<&str> = Some("0.0.1");
    let python_pkg = PlainPackage::new(pkg_name, None, pkg_version);
    assert_eq!(python_pkg.to_string(), "test==0.0.1");
}

#[test]
fn python_create_python_package_struct_from_string() {
    let dependency = "test".to_string();
    let version: String = "0.1.0".to_string();
    let operator: String = "==".to_string();
    let new_pkg_from_string = PlainPackage::from(format!("{}{}{}", dependency, operator, version));
    assert_eq!(new_pkg_from_string.name, dependency);
    if let Some(op_from_new_pkg) = new_pkg_from_string.op {
        assert_eq!(op_from_new_pkg.to_string(), operator);
    }
    assert_eq!(new_pkg_from_string.version.unwrap(), version);
    let operator: String = "!=".to_string();
    let second_pkg_from_string = PlainPackage::from(format!("{}{}{}", dependency, operator, version));
    assert!(second_pkg_from_string.op.is_some());
    if let Some(op_from_second) = second_pkg_from_string.op {
        assert_eq!(op_from_second.to_string(), operator);
    }
}

#[test]
fn mod_display_python_package() {
    let pkg_name = "test";
    let pkg_version = "0.0.1";
    let python_pkg = PythonPackage::from_str_parts(pkg_name, None, pkg_version).unwrap();
    assert_eq!(python_pkg.to_string(), "test==0.0.1");
}

#[test]
fn mod_display_version_operator() {
    assert_eq!("~=", Operator::TildeEqual.as_str());
}

#[test]
fn mod_create_python_package_struct_from_string() {
    let dependency = "test".to_string();
    let version = "0.1.0";
    let operator = "!=";
    let new_pkg_from_string = PythonPackage::from_str(&format!("{}{}{}", dependency, operator, version)).unwrap();
    assert_eq!(new_pkg_from_string.name, dependency);
    if let Some(it) = new_pkg_from_string.operator() {
        assert_eq!(it.as_str(), operator);
    }
    assert_eq!(new_pkg_from_string.version().unwrap(), "0.1.0");
}

#[test]
fn plain_specifier_text_round_trip() {
    for spec in [
        PlainSpecifier::Compatible,
        PlainSpecifier::Matching,
        PlainSpecifier::Exclusion,
        PlainSpecifier::GreaterIncluding,
        PlainSpecifier::LesserIncluding,
        PlainSpecifier::GreaterExcluding,
        PlainSpecifier::LesserExcluding,
        PlainSpecifier::ArbitraryEqual,
    ] {
        assert_eq!(PlainSpecifier::from_str(&spec.to_string()), Ok(spec));
    }
    assert_eq!(PlainSpecifier::from_str("=>"), Err(()));
    assert_eq!(PlainSpecifier::default(), PlainSpecifier::Matching);
}

#[test]
fn plain_package_quirks() {
    // "===" is never chosen: "==" is found first and splits it
    let p = PlainPackage::from("a===1".to_string());
    assert_eq!(p.name, "a");
    assert_eq!(p.op, Some(PlainSpecifier::Matching));
    assert_eq!(p.version.as_deref(), Some("=1"));
    // the version stops at a second operator
    let q = PlainPackage::from("a>=1>=2".to_string());
    assert_eq!(q.version.as_deref(), Some("1"));
    assert_eq!(q.op, Some(PlainSpecifier::GreaterIncluding));
    // without an operator the whole string is the name
    let r = PlainPackage::from("plain".to_string());
    assert_eq!(r.name, "plain");
    assert!(r.op.is_none() && r.version.is_none());
    assert_eq!(r.to_string(), "plain");
    assert_eq!(r.string(), "plain");
}

#[test]
fn plain_package_display_matches_parts() {
    let p = PlainPackage::new("numpy", Some(">="), Some("1.2"));
    assert_eq!(p.to_string(), package_string_from_parts("numpy", &Some(">="), &Some("1.2")));
    let q = PlainPackage::new("numpy", None, None);
    assert_eq!(q.to_string(), package_string_from_parts("numpy", &None, &None));
    assert_eq!(q.to_string(), "numpy");
}

#[test]
fn package_from_str_keeps_first_specifier() {
    let p = PythonPackage::from_str("requests>=2.28.1,<3").unwrap();
    assert_eq!(p.name, "requests");
    assert_eq!(p.operator(), Some(&Operator::GreaterThanEqual));
    assert_eq!(p.version().map(|s| s.as_str()), Some("2.28.1"));
    assert_eq!(p.to_string(), "requests>=2.28.1");
    let written = PythonPackage::from_str("pkg<2.0,>=1.0").unwrap();
    assert_eq!(written.operator(), Some(&Operator::LessThan));
    assert_eq!(written.version().map(|s| s.as_str()), Some("2.0"));
    assert!(PythonPackage::from_str("pkg<2.0,bad").is_err());
    let bare = PythonPackage::from_str("requests").unwrap();
    assert_eq!(bare.name, "requests");
    assert!(bare.operator().is_none() && bare.version().is_none());
}

#[test]
fn package_from_str_normalizes_version() {
    let p = PythonPackage::from_str("click==08.1.03").unwrap();
    assert_eq!(p.version().map(|s| s.as_str()), Some("8.1.3"));
}

#[test]
fn package_from_str_error() {
    match PythonPackage::from_str("click==not a version") {
        Err(Error::PyPackageInitalizationError(m)) => assert!(!m.is_empty()),
        _ => panic!("expected an initialization error"),
    }
}

#[test]
fn package_from_str_parts_errors() {
    assert!(matches!(
        PythonPackage::from_str_parts("x", Some("=>"), "1.0"),
        Err(Error::PyPackageInvalidVersionOperator(m)) if m == "=>"
    ));
    assert!(matches!(
        PythonPackage::from_str_parts("x", Some(">="), "one"),
        Err(Error::PyPackageInvalidVersion(m)) if m == "one"
    ));
    assert!(matches!(
        PythonPackage::from_str_parts("x", Some("~="), "1"),
        Err(Error::PyPackageVersionSpecifierError)
    ));
    assert!(matches!(
        PythonPackage::from_str_parts("x", Some(">"), "1.0+local"),
        Err(Error::PyPackageVersionSpecifierError)
    ));
    let ok = PythonPackage::from_str_parts("x", Some("~="), "1.4").unwrap();
    assert_eq!(ok.to_string(), "x~=1.4");
}

#[test]
fn operator_text_round_trip() {
    for op in [
        Operator::Equal,
        Operator::ExactEqual,
        Operator::NotEqual,
        Operator::TildeEqual,
        Operator::LessThan,
        Operator::LessThanEqual,
        Operator::GreaterThan,
        Operator::GreaterThanEqual,
    ] {
        assert_eq!(Operator::from_text(op.as_str()), Some(op));
    }
    assert_eq!(Operator::EqualStar.as_str(), "==");
    assert_eq!(Operator::from_text("=~"), None);
    assert!(!Operator::TildeEqual.local_compatible());
    assert!(Operator::Equal.local_compatible());
}
