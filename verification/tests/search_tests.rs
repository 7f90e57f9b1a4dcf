use huak::platform::Platform;
use huak::env::python_environment::search_max_steps;
use huak::error::Error;
use huak::fs::{bottom_up_step, limited_search_step, SearchStep};

fn found(r: Result<SearchStep, Error>) -> Option<String> {
    match r {
        Ok(SearchStep::Found(p)) => Some(p),
        _ => None,
    }
}

#[test]
fn bottom_up_search_steps() {
    assert!(matches!(bottom_up_step("pyproject.toml", "/a/b", false, true, None, false, Platform::Unix), Ok(SearchStep::NotFound)));
    assert_eq!(found(bottom_up_step("pyproject.toml", "/a/b", true, true, Some("/a/b/c"), false, Platform::Unix)).unwrap(), "/a/b/pyproject.toml");
    assert_eq!(found(bottom_up_step("pyproject.toml", "/a/b", true, false, Some("/a/b/c"), false, Platform::Unix)).unwrap(), "/a/b/c/pyproject.toml");
    assert!(matches!(bottom_up_step("pyproject.toml", "/a/b", true, false, None, true, Platform::Unix), Ok(SearchStep::NotFound)));
    match bottom_up_step("pyproject.toml", "/a/b", true, false, None, false, Platform::Unix) {
        Ok(SearchStep::Continue(d)) => assert_eq!(d, "/a"),
        _ => panic!("expected the search to go on in the parent"),
    }
    match bottom_up_step("pyproject.toml", "/", true, false, None, false, Platform::Unix) {
        Err(Error::InternalError(m)) => assert_eq!(m, "failed to establish a parent directory"),
        _ => panic!("expected an error at the root"),
    }
}

#[test]
fn limited_search_steps() {
    assert!(matches!(limited_search_step("pyvenv.cfg", "/a/b", true, 0, true, None, Platform::Unix), Ok((SearchStep::NotFound, _))));
    assert!(matches!(limited_search_step("pyvenv.cfg", "/a/b", false, 3, true, None, Platform::Unix), Ok((SearchStep::NotFound, _))));
    match limited_search_step("pyvenv.cfg", "/a/b", true, 3, false, Some("/a/b/.venv"), Platform::Unix) {
        Ok((SearchStep::Found(p), _)) => assert_eq!(p, "/a/b/.venv/pyvenv.cfg"),
        _ => panic!("expected a find in the subdirectory"),
    }
    match limited_search_step("pyvenv.cfg", "/a/b", true, 3, false, None, Platform::Unix) {
        Ok((SearchStep::Continue(d), n)) => {
            assert_eq!(d, "/a");
            assert_eq!(n, 2);
        }
        _ => panic!("expected the search to go on in the parent"),
    }
    assert!(matches!(limited_search_step("pyvenv.cfg", "/", true, 3, false, None, Platform::Unix), Err(Error::PyVenvNotFoundError)));
}

#[test]
fn search_steps_from_the_environment() {
    assert_eq!(search_max_steps(None), 5);
    assert_eq!(search_max_steps(Some("12")), 12);
    assert_eq!(search_max_steps(Some("+3")), 3);
    assert_eq!(search_max_steps(Some("-3")), 5);
    assert_eq!(search_max_steps(Some("three")), 5);
    assert_eq!(search_max_steps(Some("")), 5);
}
