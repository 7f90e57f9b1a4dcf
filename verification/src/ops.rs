//! Options of the workspace operations, and the decisions those operations
//! make: which arguments their tools run with and which dependency groups
//! they act on.
use vstd::prelude::*;
use crate::platform::Platform;
use crate::path::{join, spec_join};
use crate::text::{chars_of, clone_strings, str_eq, strings_view};
use crate::workspace::InstallOptions;

verus! {

/// Options of adding dependencies.
#[derive(Clone, Debug)]
pub struct AddOptions {
    pub install_options: InstallOptions,
}

/// Options of building a project.
#[derive(Clone, Debug)]
pub struct BuildOptions {
    /// Arguments passed on to the build tool.
    pub values: Option<Vec<String>>,
    pub install_options: InstallOptions,
}

/// Options of formatting a project.
#[derive(Clone, Debug)]
pub struct FormatOptions {
    /// Arguments passed on to the formatter.
    pub values: Option<Vec<String>>,
    pub install_options: InstallOptions,
}

/// Options of linting a project.
#[derive(Clone, Debug)]
pub struct LintOptions {
    /// Arguments passed on to the linter.
    pub values: Option<Vec<String>>,
    /// Whether types are checked too.
    pub include_types: bool,
    pub install_options: InstallOptions,
}

/// Options of removing dependencies.
#[derive(Clone, Debug)]
pub struct RemoveOptions {
    pub install_options: InstallOptions,
}

/// Options of publishing a project.
#[derive(Clone, Debug)]
pub struct PublishOptions {
    /// Arguments passed on to the publishing tool.
    pub values: Option<Vec<String>>,
    pub install_options: InstallOptions,
}

/// Options of testing a project.
#[derive(Clone, Debug)]
pub struct TestOptions {
    /// Arguments passed on to the test runner.
    pub values: Option<Vec<String>>,
    pub install_options: InstallOptions,
}

/// Options of updating dependencies.
#[derive(Clone, Debug)]
pub struct UpdateOptions {
    pub install_options: InstallOptions,
}

/// Options of cleaning a project.
#[derive(Clone, Copy, Debug)]
pub struct CleanOptions {
    pub include_pycache: bool,
    pub include_compiled_bytecode: bool,
}

/// The texts of optional arguments (none when absent).
pub open spec fn values_view(values: Option<Vec<String>>) -> Seq<Seq<char>> {
    match values {
        Some(v) => strings_view(v@),
        None => Seq::empty(),
    }
}

/// A vector of strings from literal texts.
fn strings_of(words: &[&str]) -> (r: Vec<String>)
    ensures
        r@.len() == words@.len(),
        forall|i: int| 0 <= i < words@.len() ==> #[trigger] r@[i]@ == words@[i]@,
{
    let mut r: Vec<String> = Vec::new();
    let mut i: usize = 0;
    while i < words.len()
        invariant
            i <= words@.len(),
            r@.len() == i,
            forall|j: int| 0 <= j < i ==> #[trigger] r@[j]@ == words@[j]@,
        decreases words@.len() - i,
    {
        r.push(words[i].to_owned());
        i = i + 1;
    }
    r
}

/// A base argument list followed by the optional arguments.
fn with_values(base: &[&str], values: &Option<Vec<String>>) -> (r: Vec<String>)
    ensures
        strings_view(r@) == base@.map_values(|w: &str| w@) + values_view(*values),
{
    let mut r = strings_of(base);
    assert(strings_view(r@) =~= base@.map_values(|w: &str| w@));
    match values {
        Some(v) => {
            let mut i: usize = 0;
            let ghost head = strings_view(r@);
            while i < v.len()
                invariant
                    i <= v@.len(),
                    strings_view(r@) == head + strings_view(v@).take(i as int),
                decreases v@.len() - i,
            {
                let ghost prev = strings_view(r@);
                let s = v[i].clone();
                r.push(s);
                assert(strings_view(r@) =~= prev.push(v@[i as int]@));
                assert(strings_view(v@).take(i + 1) =~= strings_view(v@).take(i as int).push(v@[i as int]@));
                i = i + 1;
            }
            assert(strings_view(v@).take(v@.len() as int) =~= strings_view(v@));
        },
        None => {
            assert(strings_view(r@) =~= strings_view(r@) + Seq::<Seq<char>>::empty());
        },
    }
    r
}

/// The arguments of building: `-m build` and the given arguments.
pub fn build_arguments(values: &Option<Vec<String>>) -> (r: Vec<String>)
    ensures
        strings_view(r@) == seq!["-m"@, "build"@] + values_view(*values),
{
    let base: [&str; 2] = ["-m", "build"];
    let r = with_values(&base, values);
    assert(base@.map_values(|w: &str| w@) =~= seq!["-m"@, "build"@]);
    r
}

/// The arguments of publishing: `-m twine upload dist/*` and the given arguments.
pub fn publish_arguments(values: &Option<Vec<String>>) -> (r: Vec<String>)
    ensures
        strings_view(r@) == seq!["-m"@, "twine"@, "upload"@, "dist/*"@] + values_view(*values),
{
    let base: [&str; 4] = ["-m", "twine", "upload", "dist/*"];
    let r = with_values(&base, values);
    assert(base@.map_values(|w: &str| w@) =~= seq!["-m"@, "twine"@, "upload"@, "dist/*"@]);
    r
}

/// The arguments of testing: `-m pytest` and the given arguments.
pub fn test_arguments(values: &Option<Vec<String>>) -> (r: Vec<String>)
    ensures
        strings_view(r@) == seq!["-m"@, "pytest"@] + values_view(*values),
{
    let base: [&str; 2] = ["-m", "pytest"];
    let r = with_values(&base, values);
    assert(base@.map_values(|w: &str| w@) =~= seq!["-m"@, "pytest"@]);
    r
}

/// The arguments of linting: `-m ruff check .` and the given arguments.
pub fn lint_arguments(values: &Option<Vec<String>>) -> (r: Vec<String>)
    ensures
        strings_view(r@) == seq!["-m"@, "ruff"@, "check"@, "."@] + values_view(*values),
{
    let base: [&str; 4] = ["-m", "ruff", "check", "."];
    let r = with_values(&base, values);
    assert(base@.map_values(|w: &str| w@) =~= seq!["-m"@, "ruff"@, "check"@, "."@]);
    r
}

/// The arguments of checking types: `-m mypy . --exclude` and the environment's name.
pub fn mypy_arguments(env_name: &str) -> (r: Vec<String>)
    ensures
        strings_view(r@) == seq!["-m"@, "mypy"@, "."@, "--exclude"@, env_name@],
{
    let base: [&str; 5] = ["-m", "mypy", ".", "--exclude", env_name];
    let r = strings_of(&base);
    assert(strings_view(r@) =~= seq!["-m"@, "mypy"@, "."@, "--exclude"@, env_name@]);
    r
}

/// Whether `values` holds the text `word`.
fn contains_word(values: &Vec<String>, word: &str) -> (r: bool)
    ensures
        r == strings_view(values@).contains(word@),
{
    let mut i: usize = 0;
    while i < values.len()
        invariant
            i <= values@.len(),
            forall|j: int| 0 <= j < i ==> #[trigger] values@[j]@ != word@,
        decreases values@.len() - i,
    {
        if str_eq(values[i].as_str(), word) {
            assert(strings_view(values@)[i as int] == word@);
            return true;
        }
        i = i + 1;
    }
    proof {
        if strings_view(values@).contains(word@) {
            let k = choose|k: int| 0 <= k < strings_view(values@).len() && strings_view(values@)[k] == word@;
            assert(values@[k]@ == word@);
        }
    }
    false
}

/// What formatting runs: the import-sorting arguments of ruff (without
/// `--fix` when `--check` is given), the arguments of black (with the given
/// arguments), and whether to warn that checking stops early.
pub open spec fn spec_format_arguments(values: Seq<Seq<char>>, given: bool) -> (Seq<Seq<char>>, Seq<Seq<char>>, bool) {
    let check = given && values.contains("--check"@);
    (
        if check {
            seq!["-m"@, "ruff"@, "check"@, "."@, "--select"@, "I001"@]
        } else {
            seq!["-m"@, "ruff"@, "check"@, "."@, "--select"@, "I001"@, "--fix"@]
        },
        seq!["-m"@, "black"@, "."@] + values,
        check,
    )
}

/// Formatting checks exactly when the given values hold `--check`, at any
/// position; ruff then runs without `--fix`, and otherwise with it (as its
/// last argument); black gets the given values after `-m black .`.
pub proof fn lemma_format_check_flag(values: Seq<Seq<char>>, given: bool)
    ensures
        spec_format_arguments(values, given).2 <==> (given && exists|i: int| 0 <= i < values.len() && values[i] == "--check"@),
        spec_format_arguments(values, given).0.contains("--fix"@) <==> !spec_format_arguments(values, given).2,
        !spec_format_arguments(values, given).2 ==> spec_format_arguments(values, given).0.last() == "--fix"@,
        spec_format_arguments(values, given).1.subrange(3, spec_format_arguments(values, given).1.len() as int) == values,
{
    let r = spec_format_arguments(values, given);
    reveal_strlit("--fix");
    reveal_strlit("-m");
    reveal_strlit("ruff");
    reveal_strlit("check");
    reveal_strlit(".");
    reveal_strlit("--select");
    reveal_strlit("I001");
    let base = seq!["-m"@, "ruff"@, "check"@, "."@, "--select"@, "I001"@];
    assert("--fix"@.len() == 5);
    assert("--fix"@ != "-m"@ && "--fix"@ != "ruff"@ && "--fix"@ != "."@ && "--fix"@ != "--select"@);
    assert("--fix"@[2] != "check"@[2]);
    assert("--fix"@ != "check"@);
    assert("--fix"@[0] != "I001"@[0]);
    assert("--fix"@ != "I001"@);
    if r.2 {
        assert(!base.contains("--fix"@)) by {
            if base.contains("--fix"@) {
                let k = choose|k: int| 0 <= k < base.len() && base[k] == "--fix"@;
                assert(0 <= k < 6);
            }
        }
    } else {
        assert(r.0[6] == "--fix"@);
    }
    assert(r.1.subrange(3, r.1.len() as int) =~= values);
}

/// What formatting runs (see `spec_format_arguments`).
pub fn format_arguments(values: &Option<Vec<String>>) -> (r: (Vec<String>, Vec<String>, bool))
    ensures
        (strings_view(r.0@), strings_view(r.1@), r.2) == spec_format_arguments(values_view(*values), values is Some),
        r.2 <==> (values matches Some(v) && exists|i: int| 0 <= i < v@.len() && #[trigger] v@[i]@ == "--check"@),
        strings_view(r.0@).contains("--fix"@) <==> !r.2,
{
    proof {
        lemma_format_check_flag(values_view(*values), values is Some);
        if let Some(v) = values {
            assert(values_view(*values) == strings_view(v@));
            if exists|i: int| 0 <= i < v@.len() && #[trigger] v@[i]@ == "--check"@ {
                let i = choose|i: int| 0 <= i < v@.len() && #[trigger] v@[i]@ == "--check"@;
                assert(strings_view(v@)[i] == "--check"@);
            }
        }
    }
    let black_base: [&str; 3] = ["-m", "black", "."];
    let black = with_values(&black_base, values);
    assert(black_base@.map_values(|w: &str| w@) =~= seq!["-m"@, "black"@, "."@]);
    let check = match values {
        Some(v) => contains_word(v, "--check"),
        None => false,
    };
    if check {
        let base: [&str; 6] = ["-m", "ruff", "check", ".", "--select", "I001"];
        let ruff = strings_of(&base);
        assert(strings_view(ruff@) =~= seq!["-m"@, "ruff"@, "check"@, "."@, "--select"@, "I001"@]);
        (ruff, black, true)
    } else {
        let base: [&str; 7] = ["-m", "ruff", "check", ".", "--select", "I001", "--fix"];
        let ruff = strings_of(&base);
        assert(strings_view(ruff@) =~= seq!["-m"@, "ruff"@, "check"@, "."@, "--select"@, "I001"@, "--fix"@]);
        (ruff, black, false)
    }
}

/// The `PYTHONPATH` tests run with: the project's `src` directory when it
/// exists, else the project's root.
pub fn test_python_path(root: &str, src_exists: bool, platform: Platform) -> (r: String)
    ensures
        r@ == if src_exists {
            spec_join(platform, root@, "src"@)
        } else {
            root@
        },
{
    if src_exists {
        join(platform, root, "src")
    } else {
        root.to_owned()
    }
}

/// The patterns cleaning removes: every `__pycache__` directory and every
/// `.pyc` file below the root.
pub fn clean_patterns(root: &str, platform: Platform) -> (r: (String, String))
    ensures
        r.0@ == spec_join(platform, spec_join(platform, root@, "**"@), "__pycache__"@),
        r.1@ == spec_join(platform, spec_join(platform, root@, "**"@), "*.pyc"@),
{
    let any = join(platform, root, "**");
    (join(platform, any.as_str(), "__pycache__"), join(platform, any.as_str(), "*.pyc"))
}

/// The entries of every group, in order.
pub open spec fn all_group_dependencies<T>(e: Seq<(Seq<char>, Seq<T>)>) -> Seq<T>
    decreases e.len(),
{
    if e.len() == 0 {
        Seq::empty()
    } else {
        all_group_dependencies(e.drop_last()) + e.last().1
    }
}

/// The entries of the requested groups, in order (none for a missing group).
pub open spec fn requested_dependencies<T>(e: Seq<(Seq<char>, Seq<T>)>, requested: Seq<Seq<char>>) -> Seq<T>
    decreases requested.len(),
{
    if requested.len() == 0 {
        Seq::empty()
    } else {
        requested_dependencies(e, requested.drop_last()) + match crate::metadata::first_group(e, requested.last()) {
            Some(i) => e[i].1,
            None => Seq::empty(),
        }
    }
}

/// `s` with each run of equal neighbours reduced to its first entry.
pub open spec fn dedup<T>(s: Seq<T>) -> Seq<T>
    decreases s.len(),
{
    if s.len() <= 1 {
        s
    } else if s.last() == s[s.len() - 2] {
        dedup(s.drop_last())
    } else {
        dedup(s.drop_last()).push(s.last())
    }
}

/// The optional requirements to install for the requested groups: when
/// the project has no group named `all` and `all` is requested, those of
/// every group; otherwise those of each requested group; then repeated
/// neighbours are dropped.
pub open spec fn spec_optional_install<T>(e: Seq<(Seq<char>, Seq<T>)>, requested: Seq<Seq<char>>) -> Seq<T> {
    dedup(if crate::metadata::first_group(e, "all"@) is None && requested.contains("all"@) {
        all_group_dependencies(e)
    } else {
        requested_dependencies(e, requested)
    })
}

/// Requesting groups one list after another gives their entries one after
/// another: the entries of `a + b` are those of `a`, then those of `b`.
pub proof fn lemma_requested_concat<T>(e: Seq<(Seq<char>, Seq<T>)>, a: Seq<Seq<char>>, b: Seq<Seq<char>>)
    ensures
        requested_dependencies(e, a + b) == requested_dependencies(e, a) + requested_dependencies(e, b),
    decreases b.len(),
{
    if b.len() == 0 {
        assert(a + b =~= a);
        assert(requested_dependencies(e, a) + Seq::<T>::empty() =~= requested_dependencies(e, a));
    } else {
        lemma_requested_concat(e, a, b.drop_last());
        assert((a + b).drop_last() =~= a + b.drop_last());
        assert((a + b).last() == b.last());
        let tail = match crate::metadata::first_group(e, b.last()) {
            Some(i) => e[i].1,
            None => Seq::<T>::empty(),
        };
        assert(requested_dependencies(e, a) + requested_dependencies(e, b.drop_last()) + tail
            =~= requested_dependencies(e, a) + (requested_dependencies(e, b.drop_last()) + tail));
    }
}

/// Requesting one group gives its entries, or none when it does not exist.
pub proof fn lemma_requested_single<T>(e: Seq<(Seq<char>, Seq<T>)>, g: Seq<char>)
    ensures
        requested_dependencies(e, seq![g]) == match crate::metadata::first_group(e, g) {
            Some(i) => e[i].1,
            None => Seq::<T>::empty(),
        },
{
    assert(seq![g].drop_last() =~= Seq::<Seq<char>>::empty());
    assert(seq![g].last() == g);
    assert(requested_dependencies(e, Seq::<Seq<char>>::empty()) =~= Seq::<T>::empty());
    assert(requested_dependencies(e, seq![g]) == requested_dependencies(e, seq![g].drop_last()) + match crate::metadata::first_group(e, seq![g].last()) {
        Some(i) => e[i].1,
        None => Seq::<T>::empty(),
    });
    let tail = match crate::metadata::first_group(e, g) {
        Some(i) => e[i].1,
        None => Seq::<T>::empty(),
    };
    assert(Seq::<T>::empty() + tail =~= tail);
}

/// Every entry of every requested group that exists is among the entries
/// of the requested groups.
proof fn lemma_requested_contains<T>(e: Seq<(Seq<char>, Seq<T>)>, requested: Seq<Seq<char>>, k: int, x: T)
    requires
        0 <= k < requested.len(),
        crate::metadata::first_group(e, requested[k]) matches Some(i) && e[i].1.contains(x),
    ensures
        requested_dependencies(e, requested).contains(x),
    decreases requested.len(),
{
    let init = requested.drop_last();
    let i = crate::metadata::first_group(e, requested[k]).unwrap();
    let j = choose|j: int| 0 <= j < e[i].1.len() && e[i].1[j] == x;
    if k == requested.len() - 1 {
        let before = requested_dependencies(e, init);
        assert(requested_dependencies(e, requested)[before.len() + j] == x);
    } else {
        assert(init[k] == requested[k]);
        lemma_requested_contains(e, init, k, x);
        let m = choose|m: int| 0 <= m < requested_dependencies(e, init).len() && requested_dependencies(e, init)[m] == x;
        assert(requested_dependencies(e, requested)[m] == x);
    }
}

/// Dropping repeated neighbours keeps every entry.
pub proof fn lemma_dedup_keeps<T>(s: Seq<T>, x: T)
    requires
        s.contains(x),
    ensures
        dedup(s).contains(x),
    decreases s.len(),
{
    if s.len() > 1 {
        let init = s.drop_last();
        lemma_dedup(s);
        let j = choose|j: int| 0 <= j < s.len() && s[j] == x;
        if j == s.len() - 1 {
            assert(dedup(s)[dedup(s).len() - 1] == x);
        } else {
            assert(init[j] == x);
            lemma_dedup_keeps(init, x);
            let m = choose|m: int| 0 <= m < dedup(init).len() && dedup(init)[m] == x;
            if s.last() == s[s.len() - 2] {
                assert(dedup(s) == dedup(init));
            } else {
                assert(dedup(s) == dedup(init).push(s.last()));
                assert(dedup(s)[m] == x);
            }
        }
    }
}

/// When `all` is not requested, installing optional groups installs every
/// entry of every requested group that exists, and nothing that is not in
/// one of them.
pub proof fn lemma_optional_install_covers<T>(e: Seq<(Seq<char>, Seq<T>)>, requested: Seq<Seq<char>>, k: int, x: T)
    requires
        !requested.contains("all"@),
        0 <= k < requested.len(),
        crate::metadata::first_group(e, requested[k]) matches Some(i) && e[i].1.contains(x),
    ensures
        spec_optional_install(e, requested) == dedup(requested_dependencies(e, requested)),
        spec_optional_install(e, requested).contains(x),
{
    lemma_requested_contains(e, requested, k, x);
    lemma_dedup_keeps(requested_dependencies(e, requested), x);
}

/// Append copies of all of `b` to `a`.
fn extend_requirements(a: &mut Vec<crate::dependency::Requirement>, b: &Vec<crate::dependency::Requirement>)
    ensures
        crate::metadata::requirements_view(final(a)@) == crate::metadata::requirements_view(old(a)@) + crate::metadata::requirements_view(b@),
{
    let ghost a0 = crate::metadata::requirements_view(a@);
    let ghost bv = crate::metadata::requirements_view(b@);
    let mut i: usize = 0;
    while i < b.len()
        invariant
            bv == crate::metadata::requirements_view(b@),
            i <= b@.len(),
            crate::metadata::requirements_view(a@) == a0 + bv.take(i as int),
        decreases b@.len() - i,
    {
        let ghost prev = crate::metadata::requirements_view(a@);
        let r = crate::dependency::clone_requirement(&b[i]);
        a.push(r);
        assert(crate::metadata::requirements_view(a@) =~= prev.push(bv[i as int]));
        assert(bv.take(i + 1) =~= bv.take(i as int).push(bv[i as int]));
        i = i + 1;
    }
    assert(bv.take(b@.len() as int) =~= bv);
}

/// Drop repeated neighbours (see `dedup`).
fn dedup_requirements(v: Vec<crate::dependency::Requirement>) -> (r: Vec<crate::dependency::Requirement>)
    ensures
        crate::metadata::requirements_view(r@) == dedup(crate::metadata::requirements_view(v@)),
{
    let ghost sv = crate::metadata::requirements_view(v@);
    let mut r: Vec<crate::dependency::Requirement> = Vec::new();
    let mut i: usize = 0;
    while i < v.len()
        invariant
            sv == crate::metadata::requirements_view(v@),
            i <= v@.len(),
            crate::metadata::requirements_view(r@) == dedup(sv.take(i as int)),
        decreases v@.len() - i,
    {
        proof {
            assert(sv.take(i + 1).drop_last() =~= sv.take(i as int));
            if i >= 1 {
                assert(sv.take(i + 1)[i - 1] == sv[i - 1]);
            }
        }
        let keep = i == 0 || !crate::dependency::requirement_eq(&v[i], &v[i - 1]);
        if keep {
            let ghost prev = crate::metadata::requirements_view(r@);
            r.push(crate::dependency::clone_requirement(&v[i]));
            assert(crate::metadata::requirements_view(r@) =~= prev.push(sv[i as int]));
        }
        i = i + 1;
    }
    assert(sv.take(v@.len() as int) =~= sv);
    r
}

/// The optional requirements to install (see `spec_optional_install`).
pub fn optional_install_requirements(metadata: &crate::metadata::Metadata, requested: &Vec<String>) -> (r: Vec<crate::dependency::Requirement>)
    ensures
        crate::metadata::requirements_view(r@) == match metadata.groups() {
            Some(e) => spec_optional_install(e, strings_view(requested@)),
            None => Seq::empty(),
        },
{
    let groups = match metadata.optional_dependencies() {
        Some(g) => g,
        None => return Vec::new(),
    };
    let ghost e = crate::metadata::requirement_group_entries(*groups);
    let mut deps: Vec<crate::dependency::Requirement> = Vec::new();
    let all_missing = metadata.optional_dependencey_group("all").is_none();
    if all_missing && contains_word(requested, "all") {
        let n = crate::metadata::group_map_len(groups);
        let mut i: usize = 0;
        while i < n
            invariant
                e == crate::metadata::requirement_group_entries(*groups),
                n == e.len(),
                i <= n,
                crate::metadata::requirements_view(deps@) == all_group_dependencies(e.take(i as int)),
            decreases n - i,
        {
            proof {
                assert(e.take(i + 1).drop_last() =~= e.take(i as int));
                assert(e.take(i + 1).last() == e[i as int]);
            }
            match crate::metadata::group_map_entry(groups, i) {
                Some((_, list)) => extend_requirements(&mut deps, list),
                None => {},
            }
            i = i + 1;
        }
        assert(e.take(n as int) =~= e);
    } else {
        let ghost rq = strings_view(requested@);
        let mut i: usize = 0;
        while i < requested.len()
            invariant
                metadata.groups() == Some(e),
                rq == strings_view(requested@),
                i <= requested@.len(),
                crate::metadata::requirements_view(deps@) == requested_dependencies(e, rq.take(i as int)),
            decreases requested@.len() - i,
        {
            proof {
                assert(rq.take(i + 1).drop_last() =~= rq.take(i as int));
                assert(rq.take(i + 1).last() == requested@[i as int]@);
            }
            match metadata.optional_dependencey_group(requested[i].as_str()) {
                Some(l) => extend_requirements(&mut deps, l),
                None => {
                    assert(crate::metadata::requirements_view(deps@) =~= crate::metadata::requirements_view(deps@) + Seq::<crate::metadata::RequirementView>::empty());
                },
            }
            i = i + 1;
        }
        assert(rq.take(requested@.len() as int) =~= rq);
    }
    dedup_requirements(deps)
}

/// The groups an update records in: every group when `all` is asked for
/// and the project has no group named `all`, else the one asked for.
pub fn groups_to_update(metadata: &crate::metadata::Metadata, group: &str) -> (r: Vec<String>)
    ensures
        strings_view(r@) == if group@ == "all"@ && metadata.group("all"@) is None {
            match metadata.groups() {
                Some(e) => e.map_values(|g: (Seq<char>, Seq<crate::metadata::RequirementView>)| g.0),
                None => Seq::empty(),
            }
        } else {
            seq![group@]
        },
{
    if str_eq(group, "all") && metadata.optional_dependencey_group("all").is_none() {
        let mut names: Vec<String> = Vec::new();
        match metadata.optional_dependencies() {
            Some(groups) => {
                let ghost e = crate::metadata::requirement_group_entries(*groups);
                let n = crate::metadata::group_map_len(groups);
                let mut i: usize = 0;
                while i < n
                    invariant
                        e == crate::metadata::requirement_group_entries(*groups),
                        n == e.len(),
                        i <= n,
                        strings_view(names@) == e.take(i as int).map_values(|g: (Seq<char>, Seq<crate::metadata::RequirementView>)| g.0),
                    decreases n - i,
                {
                    let ghost prev = strings_view(names@);
                    let name = match crate::metadata::group_map_entry(groups, i) {
                        Some((k, _)) => k.clone(),
                        None => String::new(),
                    };
                    assert(name@ == e[i as int].0);
                    names.push(name);
                    assert(strings_view(names@) =~= prev.push(e[i as int].0));
                    assert(e.take(i + 1).map_values(|g: (Seq<char>, Seq<crate::metadata::RequirementView>)| g.0)
                        =~= e.take(i as int).map_values(|g: (Seq<char>, Seq<crate::metadata::RequirementView>)| g.0).push(e[i as int].0));
                    i = i + 1;
                }
                assert(e.take(n as int) =~= e);
            },
            None => {
                assert(strings_view(names@) =~= Seq::<Seq<char>>::empty());
            },
        }
        names
    } else {
        let mut r: Vec<String> = Vec::new();
        r.push(group.to_owned());
        assert(strings_view(r@) =~= seq![group@]);
        r
    }
}

} // verus!

verus! {

/// After dropping repeated neighbours no two neighbours are equal, and a
/// sequence without equal neighbours is left as it is.
pub proof fn lemma_dedup<T>(s: Seq<T>)
    ensures
        forall|i: int| 0 <= i < dedup(s).len() - 1 ==> #[trigger] dedup(s)[i] != dedup(s)[i + 1],
        dedup(s).len() <= s.len(),
        s.len() > 0 ==> dedup(s).len() > 0 && dedup(s).last() == s.last(),
        (forall|i: int| 0 <= i < s.len() - 1 ==> #[trigger] s[i] != s[i + 1]) ==> dedup(s) == s,
    decreases s.len(),
{
    if s.len() > 1 {
        let init = s.drop_last();
        lemma_dedup(init);
        let d = dedup(s);
        let di = dedup(init);
        assert(init.last() == s[s.len() - 2]);
        assert forall|i: int| 0 <= i < d.len() - 1 implies #[trigger] d[i] != d[i + 1] by {
            if i + 1 < di.len() {
                assert(d[i] == di[i] && d[i + 1] == di[i + 1]);
            }
        }
        if forall|i: int| 0 <= i < s.len() - 1 ==> #[trigger] s[i] != s[i + 1] {
            assert forall|i: int| 0 <= i < init.len() - 1 implies #[trigger] init[i] != init[i + 1] by {
                assert(init[i] == s[i] && init[i + 1] == s[i + 1]);
            }
            assert(s[s.len() - 2] != s[s.len() - 1]);
            assert(init.push(s.last()) =~= s);
        }
    }
}

} // verus!

verus! {

/// A dependency as plain values: its requirement and its specifiers.
pub type DependencyView = (
    crate::metadata::RequirementView,
    Option<Seq<(crate::package::Operator, Seq<char>)>>,
);

/// The view of a dependency.
pub open spec fn dependency_view(d: crate::dependency::Dependency) -> DependencyView {
    (d.spec_requirement(), d.spec_specifiers())
}

/// The views of dependencies.
pub open spec fn dependencies_view(v: Seq<crate::dependency::Dependency>) -> Seq<DependencyView> {
    v.map_values(|d: crate::dependency::Dependency| dependency_view(d))
}

/// The dependencies the strings read as, in order, leaving out those that cannot be read.
pub open spec fn parsed_dependencies(ss: Seq<Seq<char>>) -> Seq<DependencyView>
    decreases ss.len(),
{
    if ss.len() == 0 {
        Seq::empty()
    } else {
        parsed_dependencies(ss.drop_last()) + match crate::dependency::spec_dependency(ss.last()) {
            Some(d) => seq![d],
            None => Seq::empty(),
        }
    }
}

/// The dependencies of the strings that can be read as dependencies, in order.
pub fn dependency_iter(items: &Vec<String>) -> (r: Vec<crate::dependency::Dependency>)
    ensures
        dependencies_view(r@) == parsed_dependencies(strings_view(items@)),
{
    let ghost ss = strings_view(items@);
    let mut r: Vec<crate::dependency::Dependency> = Vec::new();
    let mut i: usize = 0;
    while i < items.len()
        invariant
            ss == strings_view(items@),
            i <= items@.len(),
            dependencies_view(r@) == parsed_dependencies(ss.take(i as int)),
        decreases items@.len() - i,
    {
        proof {
            assert(ss.take(i + 1).drop_last() =~= ss.take(i as int));
            assert(ss.take(i + 1).last() == items@[i as int]@);
        }
        let ghost before = dependencies_view(r@);
        match crate::dependency::Dependency::from_str(items[i].as_str()) {
            Ok(d) => {
                r.push(d);
                assert(dependencies_view(r@) =~= before + seq![dependency_view(d)]);
            },
            Err(_) => {
                assert(dependencies_view(r@) =~= before + Seq::<DependencyView>::empty());
            },
        }
        i = i + 1;
    }
    assert(ss.take(items@.len() as int) =~= ss);
    r
}

/// Whether a list has an entry named `n`.
pub open spec fn names_in(l: Seq<crate::metadata::RequirementView>, n: Seq<char>) -> bool {
    exists|i: int| 0 <= i < l.len() && #[trigger] l[i].0 == n
}

/// Whether the metadata lists a requirement (an equal one, or with
/// `by_name` one of the same name): among its dependencies, or in the named
/// optional group.
pub open spec fn listed(m: crate::metadata::Metadata, group: Option<Seq<char>>, req: crate::metadata::RequirementView, by_name: bool) -> bool {
    match (match group {
        Some(g) => m.group(g),
        None => m.deps(),
    }) {
        Some(l) => if by_name {
            names_in(l, req.0)
        } else {
            crate::metadata::first_index(l, req) is Some
        },
        None => false,
    }
}

/// The dependencies whose being listed is `wanted`, in order.
pub open spec fn keep_listed(ds: Seq<DependencyView>, m: crate::metadata::Metadata, group: Option<Seq<char>>, wanted: bool, by_name: bool) -> Seq<DependencyView>
    decreases ds.len(),
{
    if ds.len() == 0 {
        Seq::empty()
    } else {
        keep_listed(ds.drop_last(), m, group, wanted, by_name) + if listed(m, group, ds.last().0, by_name) == wanted {
            seq![ds.last()]
        } else {
            Seq::empty()
        }
    }
}

/// The view of an optional string slice.
pub open spec fn opt_str(o: Option<&str>) -> Option<Seq<char>> {
    match o {
        Some(s) => Some(s@),
        None => None,
    }
}

/// Whether a list of requirements has an entry named `n`.
fn has_named(l: &Vec<crate::dependency::Requirement>, n: &str) -> (r: bool)
    ensures
        r == names_in(crate::metadata::requirements_view(l@), n@),
{
    let ghost v = crate::metadata::requirements_view(l@);
    let mut i: usize = 0;
    while i < l.len()
        invariant
            v == crate::metadata::requirements_view(l@),
            i <= l@.len(),
            forall|j: int| 0 <= j < i ==> #[trigger] v[j].0 != n@,
        decreases l@.len() - i,
    {
        assert(v[i as int] == l@[i as int]@);
        if str_eq(l[i].name.as_str(), n) {
            assert(v[i as int].0 == n@);
            return true;
        }
        i = i + 1;
    }
    false
}

/// Whether the metadata lists the dependency's requirement (see `listed`).
fn is_listed(m: &crate::metadata::Metadata, group: Option<&str>, d: &crate::dependency::Dependency, by_name: bool) -> (r: bool)
    ensures
        r == listed(*m, opt_str(group), d.spec_requirement(), by_name),
{
    if by_name {
        let list = match group {
            Some(g) => m.optional_dependencey_group(g),
            None => m.dependencies(),
        };
        return match list {
            Some(l) => has_named(l, d.name()),
            None => false,
        };
    }
    match group {
        Some(g) => match m.contains_optional_dependency(d, g) {
            Ok(b) => b,
            Err(_) => false,
        },
        None => match m.contains_dependency(d) {
            Ok(b) => b,
            Err(_) => false,
        },
    }
}

/// The requested dependencies whose being listed in the metadata is `wanted`.
fn select_dependencies(requested: &Vec<String>, m: &crate::metadata::Metadata, group: Option<&str>, wanted: bool, by_name: bool) -> (r: Vec<crate::dependency::Dependency>)
    ensures
        dependencies_view(r@) == keep_listed(parsed_dependencies(strings_view(requested@)), *m, opt_str(group), wanted, by_name),
{
    let all = dependency_iter(requested);
    let ghost ds = dependencies_view(all@);
    let mut r: Vec<crate::dependency::Dependency> = Vec::new();
    let mut rest = all;
    let mut i: usize = 0;
    assert(ds.len() == rest@.len());
    let ghost n = ds.len();
    let all_len = rest.len();
    while rest.len() > 0
        invariant
            i + rest@.len() == n,
            n == ds.len(),
            n == all_len,
            forall|j: int| 0 <= j < rest@.len() ==> #[trigger] dependency_view(rest@[j]) == ds[i + j],
            dependencies_view(r@) == keep_listed(ds.take(i as int), *m, opt_str(group), wanted, by_name),
        decreases rest@.len(),
    {
        let ghost rest_before = rest@;
        let d = rest.remove(0);
        proof {
            assert(dependency_view(d) == ds[i as int]);
            assert(ds.take(i + 1).drop_last() =~= ds.take(i as int));
            assert(ds.take(i + 1).last() == ds[i as int]);
            assert forall|j: int| 0 <= j < rest@.len() implies #[trigger] dependency_view(rest@[j]) == ds[i + 1 + j] by {
                assert(rest@[j] == rest_before[j + 1]);
            }
        }
        let ghost before = dependencies_view(r@);
        if is_listed(m, group, &d, by_name) == wanted {
            r.push(d);
            assert(dependencies_view(r@) =~= before + seq![dependency_view(d)]);
        } else {
            assert(dependencies_view(r@) =~= before + Seq::<DependencyView>::empty());
        }
        i = i + 1;
    }
    assert(ds.take(n as int) =~= ds);
    r
}

/// The requested dependencies the metadata does not list yet (among its
/// dependencies, or in the named group): those an addition installs.
pub fn dependencies_to_add(requested: &Vec<String>, metadata: &crate::metadata::Metadata, group: Option<&str>) -> (r: Vec<crate::dependency::Dependency>)
    ensures
        dependencies_view(r@) == keep_listed(parsed_dependencies(strings_view(requested@)), *metadata, opt_str(group), false, false),
{
    select_dependencies(requested, metadata, group, false, false)
}

/// The requested dependencies whose name the metadata lists (among its
/// dependencies, or in the named group): those a removal acts on.
pub fn dependencies_to_remove(requested: &Vec<String>, metadata: &crate::metadata::Metadata, group: Option<&str>) -> (r: Vec<crate::dependency::Dependency>)
    ensures
        dependencies_view(r@) == keep_listed(parsed_dependencies(strings_view(requested@)), *metadata, opt_str(group), true, true),
{
    select_dependencies(requested, metadata, group, true, true)
}

/// The requested dependencies the metadata lists (among its dependencies,
/// or in the named group): those an update acts on.
pub fn dependencies_to_update(requested: &Vec<String>, metadata: &crate::metadata::Metadata, group: Option<&str>) -> (r: Vec<crate::dependency::Dependency>)
    ensures
        dependencies_view(r@) == keep_listed(parsed_dependencies(strings_view(requested@)), *metadata, opt_str(group), true, false),
{
    select_dependencies(requested, metadata, group, true, false)
}

} // verus!

verus! {

/// Whether a dependency without specifiers has the name `n`.
pub open spec fn unpinned_named(ds: Seq<DependencyView>, n: Seq<char>) -> bool {
    exists|i: int| 0 <= i < ds.len() && #[trigger] ds[i].0.0 == n && ds[i].1 is None
}

/// The dependency strings of the installed packages (given as a name and a
/// dependency string) that a dependency without specifiers names, in order.
pub open spec fn pinned_strings(ds: Seq<DependencyView>, installed: Seq<(Seq<char>, Seq<char>)>) -> Seq<Seq<char>>
    decreases installed.len(),
{
    if installed.len() == 0 {
        Seq::empty()
    } else {
        pinned_strings(ds, installed.drop_last()) + if unpinned_named(ds, installed.last().0) {
            seq![installed.last().1]
        } else {
            Seq::empty()
        }
    }
}

/// The names and dependency strings of packages.
pub open spec fn packages_view(v: Seq<crate::dependency::Package>) -> Seq<(Seq<char>, Seq<char>)> {
    v.map_values(|p: crate::dependency::Package| (p.spec_name(), p.spec_dep_string()))
}

/// Whether some dependency without specifiers is named `name`.
fn has_unpinned_named(deps: &Vec<crate::dependency::Dependency>, name: &str) -> (r: bool)
    ensures
        r == unpinned_named(dependencies_view(deps@), name@),
{
    let ghost ds = dependencies_view(deps@);
    let mut i: usize = 0;
    while i < deps.len()
        invariant
            ds == dependencies_view(deps@),
            i <= deps@.len(),
            forall|j: int| 0 <= j < i ==> !(#[trigger] ds[j].0.0 == name@ && ds[j].1 is None),
        decreases deps@.len() - i,
    {
        let d = &deps[i];
        assert(ds[i as int] == dependency_view(*d));
        if crate::text::str_eq(d.name(), name) && d.version_specifiers().is_none() {
            assert(ds[i as int].0.0 == name@ && ds[i as int].1 is None);
            return true;
        }
        i = i + 1;
    }
    false
}

/// The dependency strings of the installed packages that a requested
/// dependency without specifiers names (see `pinned_strings`): what an
/// addition records for them.
pub fn pinned_dependency_strings(deps: &Vec<crate::dependency::Dependency>, installed: &Vec<crate::dependency::Package>) -> (r: Vec<String>)
    ensures
        strings_view(r@) == pinned_strings(dependencies_view(deps@), packages_view(installed@)),
{
    let ghost ps = packages_view(installed@);
    let ghost ds = dependencies_view(deps@);
    let mut r: Vec<String> = Vec::new();
    let mut i: usize = 0;
    while i < installed.len()
        invariant
            ps == packages_view(installed@),
            ds == dependencies_view(deps@),
            i <= installed@.len(),
            strings_view(r@) == pinned_strings(ds, ps.take(i as int)),
        decreases installed@.len() - i,
    {
        proof {
            assert(ps.take(i + 1).drop_last() =~= ps.take(i as int));
            assert(ps.take(i + 1).last() == (installed@[i as int].spec_name(), installed@[i as int].spec_dep_string()));
        }
        let p = &installed[i];
        let ghost before = strings_view(r@);
        if has_unpinned_named(deps, p.name()) {
            let s = p.to_dep_string();
            r.push(s);
            assert(strings_view(r@) =~= before + seq![p.spec_dep_string()]);
        } else {
            assert(strings_view(r@) =~= before + Seq::<Seq<char>>::empty());
        }
        i = i + 1;
    }
    assert(ps.take(installed@.len() as int) =~= ps);
    r
}

/// The requirements of dependencies.
pub open spec fn requirements_of(ds: Seq<DependencyView>) -> Seq<crate::metadata::RequirementView> {
    ds.map_values(|d: DependencyView| d.0)
}

/// The dependencies without specifiers, in order.
pub open spec fn unpinned(ds: Seq<DependencyView>) -> Seq<DependencyView>
    decreases ds.len(),
{
    if ds.len() == 0 {
        Seq::empty()
    } else {
        unpinned(ds.drop_last()) + if ds.last().1 is None {
            seq![ds.last()]
        } else {
            Seq::empty()
        }
    }
}

/// Groups with `reqs` appended to the first group named `g` (a new group
/// at the end when none is, and `reqs` is not empty).
pub open spec fn added_to_group(
    gs: Seq<(Seq<char>, Seq<crate::metadata::RequirementView>)>,
    g: Seq<char>,
    reqs: Seq<crate::metadata::RequirementView>,
) -> Seq<(Seq<char>, Seq<crate::metadata::RequirementView>)> {
    match crate::metadata::first_group(gs, g) {
        Some(i) => gs.update(i, (gs[i].0, gs[i].1 + reqs)),
        None => if reqs.len() == 0 {
            gs
        } else {
            gs.push((g, reqs))
        },
    }
}

/// Add requirements one after the other, among the dependencies or to a group.
fn add_all(metadata: &mut crate::metadata::Metadata, deps: Vec<crate::dependency::Dependency>, group: Option<&str>)
    ensures
        match group {
            None => final(metadata).deps() == match old(metadata).deps() {
                Some(l) => Some(l + requirements_of(dependencies_view(deps@))),
                None => None,
            } && final(metadata).groups() == old(metadata).groups(),
            Some(g) => final(metadata).groups() == match old(metadata).groups() {
                Some(gs) => Some(added_to_group(gs, g@, requirements_of(dependencies_view(deps@)))),
                None => None,
            } && final(metadata).deps() == old(metadata).deps(),
        },
        crate::metadata::same_but_lists(*final(metadata), *old(metadata)),
{
    let ghost ds = dependencies_view(deps@);
    let ghost reqs = requirements_of(ds);
    let ghost d0 = metadata.deps();
    let ghost g0 = metadata.groups();
    let mut rest = deps;
    let mut i: usize = 0;
    let n = rest.len();
    proof {
        let empty = reqs.take(0);
        assert(empty =~= Seq::<crate::metadata::RequirementView>::empty());
        if let Some(l) = d0 {
            assert(l + empty =~= l);
        }
        if let Some(gs) = g0 {
            if let Some(g) = group {
                if let Some(k) = crate::metadata::first_group(gs, g@) {
                    crate::metadata::lemma_first_group(gs, g@);
                    assert(gs[k].1 + empty =~= gs[k].1);
                    assert(gs.update(k, (gs[k].0, gs[k].1 + empty)) =~= gs);
                }
            }
        }
    }
    while rest.len() > 0
        invariant
            i + rest@.len() == n,
            n == ds.len(),
            reqs == requirements_of(ds),
            forall|j: int| 0 <= j < rest@.len() ==> #[trigger] dependency_view(rest@[j]) == ds[i + j],
            crate::metadata::same_but_lists(*metadata, *old(metadata)),
            match group {
                None => metadata.deps() == match d0 {
                    Some(l) => Some(l + reqs.take(i as int)),
                    None => None,
                } && metadata.groups() == g0,
                Some(g) => metadata.groups() == match g0 {
                    Some(gs) => Some(added_to_group(gs, g@, reqs.take(i as int))),
                    None => None,
                } && metadata.deps() == d0,
            },
        decreases rest@.len(),
    {
        let ghost rest_before = rest@;
        let d = rest.remove(0);
        proof {
            assert(dependency_view(d) == ds[i as int]);
            assert(reqs[i as int] == d.spec_requirement());
            assert(reqs.take(i + 1) =~= reqs.take(i as int).push(d.spec_requirement()));
            assert forall|j: int| 0 <= j < rest@.len() implies #[trigger] dependency_view(rest@[j]) == ds[i + 1 + j] by {
                assert(rest@[j] == rest_before[j + 1]);
            }
        }
        let ghost r = d.spec_requirement();
        let ghost cur_groups = metadata.groups();
        match group {
            None => {
                metadata.add_dependency(d);
                proof {
                    if let Some(l) = d0 {
                        assert(l + reqs.take(i as int).push(r) =~= (l + reqs.take(i as int)).push(r));
                    }
                }
            },
            Some(g) => {
                metadata.add_optional_dependency(d, g);
                proof {
                    if let Some(gs) = g0 {
                        let cur = cur_groups.unwrap();
                        let before_reqs = reqs.take(i as int);
                        match crate::metadata::first_group(gs, g@) {
                            Some(k) => {
                                crate::metadata::lemma_first_group(gs, g@);
                                assert forall|j: int| 0 <= j < gs.len() implies #[trigger] gs[j].0 == cur[j].0 by {}
                                crate::metadata::lemma_first_group_same_names(gs, cur, g@);
                                assert(gs[k].1 + before_reqs.push(r) =~= (gs[k].1 + before_reqs).push(r));
                                assert(cur.update(k, (cur[k].0, cur[k].1.push(r))) =~= gs.update(k, (gs[k].0, gs[k].1 + before_reqs.push(r))));
                            },
                            None => {
                                if i == 0 {
                                    assert(before_reqs =~= Seq::<crate::metadata::RequirementView>::empty());
                                    assert(seq![r] =~= before_reqs.push(r));
                                } else {
                                    crate::metadata::lemma_first_group_push(gs, g@, before_reqs);
                                    assert(cur == gs.push((g@, before_reqs)));
                                    assert(cur.update(gs.len() as int, (cur[gs.len() as int].0, cur[gs.len() as int].1.push(r)))
                                        =~= gs.push((g@, before_reqs.push(r))));
                                }
                            },
                        }
                    }
                }
            },
        }
        i = i + 1;
    }
    assert(reqs.take(n as int) =~= reqs);
}

/// Keep the dependencies without specifiers.
fn keep_unpinned(deps: Vec<crate::dependency::Dependency>) -> (r: Vec<crate::dependency::Dependency>)
    ensures
        dependencies_view(r@) == unpinned(dependencies_view(deps@)),
{
    let ghost ds = dependencies_view(deps@);
    let mut r: Vec<crate::dependency::Dependency> = Vec::new();
    let mut rest = deps;
    let mut i: usize = 0;
    let n = rest.len();
    while rest.len() > 0
        invariant
            i + rest@.len() == n,
            n == ds.len(),
            forall|j: int| 0 <= j < rest@.len() ==> #[trigger] dependency_view(rest@[j]) == ds[i + j],
            dependencies_view(r@) == unpinned(ds.take(i as int)),
        decreases rest@.len(),
    {
        let ghost rest_before = rest@;
        let d = rest.remove(0);
        proof {
            assert(dependency_view(d) == ds[i as int]);
            assert(ds.take(i + 1).drop_last() =~= ds.take(i as int));
            assert(ds.take(i + 1).last() == ds[i as int]);
            assert forall|j: int| 0 <= j < rest@.len() implies #[trigger] dependency_view(rest@[j]) == ds[i + 1 + j] by {
                assert(rest@[j] == rest_before[j + 1]);
            }
        }
        let ghost before = dependencies_view(r@);
        if d.version_specifiers().is_none() {
            r.push(d);
            assert(dependencies_view(r@) =~= before + seq![dependency_view(d)]);
        } else {
            assert(dependencies_view(r@) =~= before + Seq::<DependencyView>::empty());
        }
        i = i + 1;
    }
    assert(ds.take(n as int) =~= ds);
    r
}

/// Record what an addition installed: first the pinned dependencies of the
/// installed packages, then the requested dependencies without specifiers,
/// among the dependencies or in the named group.
pub fn record_added_dependencies(
    metadata: &mut crate::metadata::Metadata,
    pinned: Vec<crate::dependency::Dependency>,
    requested: Vec<crate::dependency::Dependency>,
    group: Option<&str>,
)
    ensures
        ({
            let reqs = requirements_of(dependencies_view(pinned@)) + requirements_of(unpinned(dependencies_view(requested@)));
            match group {
                None => final(metadata).deps() == match old(metadata).deps() {
                    Some(l) => Some(l + reqs),
                    None => None,
                } && final(metadata).groups() == old(metadata).groups(),
                Some(g) => final(metadata).groups() == match old(metadata).groups() {
                    Some(gs) => Some(added_to_group(gs, g@, reqs)),
                    None => None,
                } && final(metadata).deps() == old(metadata).deps(),
            }
        }),
        crate::metadata::same_but_lists(*final(metadata), *old(metadata)),
{
    let ghost a = requirements_of(dependencies_view(pinned@));
    let mut all = pinned;
    let extra = keep_unpinned(requested);
    let ghost b = requirements_of(dependencies_view(extra@));
    let ghost before_all = all@;
    let mut extra_mut = extra;
    all.append(&mut extra_mut);
    assert(requirements_of(dependencies_view(all@)) =~= a + b);
    add_all(metadata, all, group);
}

} // verus!

verus! {

/// `l` without the entries named like each of `reqs`, in turn.
pub open spec fn remove_each(l: Seq<crate::metadata::RequirementView>, reqs: Seq<crate::metadata::RequirementView>) -> Seq<crate::metadata::RequirementView>
    decreases reqs.len(),
{
    if reqs.len() == 0 {
        l
    } else {
        crate::metadata::without_name(remove_each(l, reqs.drop_last()), reqs.last().0)
    }
}

/// Groups whose first group named `g` loses the entries named like each of `reqs`.
pub open spec fn removed_from_group(
    gs: Seq<(Seq<char>, Seq<crate::metadata::RequirementView>)>,
    g: Seq<char>,
    reqs: Seq<crate::metadata::RequirementView>,
) -> Seq<(Seq<char>, Seq<crate::metadata::RequirementView>)> {
    match crate::metadata::first_group(gs, g) {
        Some(i) => gs.update(i, (gs[i].0, remove_each(gs[i].1, reqs))),
        None => gs,
    }
}

/// Remove the entries named like each dependency from the metadata, in
/// turn: from its dependencies, or from the named group.
pub fn remove_dependencies(metadata: &mut crate::metadata::Metadata, deps: &Vec<crate::dependency::Dependency>, group: Option<&str>)
    ensures
        match group {
            None => final(metadata).deps() == match old(metadata).deps() {
                Some(l) => Some(remove_each(l, requirements_of(dependencies_view(deps@)))),
                None => None,
            } && final(metadata).groups() == old(metadata).groups(),
            Some(g) => final(metadata).groups() == match old(metadata).groups() {
                Some(gs) => Some(removed_from_group(gs, g@, requirements_of(dependencies_view(deps@)))),
                None => None,
            } && final(metadata).deps() == old(metadata).deps(),
        },
        crate::metadata::same_but_lists(*final(metadata), *old(metadata)),
{
    let ghost reqs = requirements_of(dependencies_view(deps@));
    let ghost d0 = metadata.deps();
    let ghost g0 = metadata.groups();
    proof {
        assert(reqs.take(0) =~= Seq::<crate::metadata::RequirementView>::empty());
        if let (Some(gs), Some(g)) = (g0, group) {
            if let Some(k) = crate::metadata::first_group(gs, g@) {
                crate::metadata::lemma_first_group(gs, g@);
                assert(gs.update(k, (gs[k].0, remove_each(gs[k].1, reqs.take(0)))) =~= gs);
            }
        }
    }
    let mut i: usize = 0;
    while i < deps.len()
        invariant
            i <= deps@.len(),
            reqs == requirements_of(dependencies_view(deps@)),
            crate::metadata::same_but_lists(*metadata, *old(metadata)),
            match group {
                None => metadata.deps() == match d0 {
                    Some(l) => Some(remove_each(l, reqs.take(i as int))),
                    None => None,
                } && metadata.groups() == g0,
                Some(g) => metadata.groups() == match g0 {
                    Some(gs) => Some(removed_from_group(gs, g@, reqs.take(i as int))),
                    None => None,
                } && metadata.deps() == d0,
            },
        decreases deps@.len() - i,
    {
        let d = &deps[i];
        proof {
            assert(reqs[i as int] == d.spec_requirement());
            assert(reqs.take(i + 1).drop_last() =~= reqs.take(i as int));
            assert(reqs.take(i + 1).last() == d.spec_requirement());
        }
        let ghost cur = metadata.groups();
        match group {
            None => metadata.remove_dependency(d),
            Some(g) => {
                metadata.remove_optional_dependency(d, g);
                proof {
                    if let Some(gs) = g0 {
                        if let Some(k) = crate::metadata::first_group(gs, g@) {
                            crate::metadata::lemma_first_group(gs, g@);
                            let c = cur.unwrap();
                            assert forall|j: int| 0 <= j < gs.len() implies #[trigger] gs[j].0 == c[j].0 by {}
                            crate::metadata::lemma_first_group_same_names(gs, c, g@);
                            let after = remove_each(gs[k].1, reqs.take(i + 1));
                            assert(c[k].1 == remove_each(gs[k].1, reqs.take(i as int)));
                            assert(c.update(k, (c[k].0, crate::metadata::without_name(c[k].1, d.spec_requirement().0))) =~= gs.update(k, (gs[k].0, after)));
                        }
                    }
                }
            },
        }
        i = i + 1;
    }
    assert(reqs.take(deps@.len() as int) =~= reqs);
}

/// When the metadata lists the dependency's requirement (among its
/// dependencies, or in the named group), drop the entries of that name from
/// the list and append the requirement: what an update records for an
/// installed package.
pub fn refresh_dependency(metadata: &mut crate::metadata::Metadata, dep: crate::dependency::Dependency, group: Option<&str>)
    ensures
        match group {
            None => final(metadata).groups() == old(metadata).groups() && final(metadata).deps() == match old(metadata).deps() {
                Some(l) => Some(if crate::metadata::first_index(l, dep.spec_requirement()) is Some {
                    crate::metadata::without_name(l, dep.spec_requirement().0).push(dep.spec_requirement())
                } else {
                    l
                }),
                None => None,
            },
            Some(g) => final(metadata).deps() == old(metadata).deps() && final(metadata).groups() == match old(metadata).groups() {
                Some(gs) => Some(match crate::metadata::first_group(gs, g@) {
                    Some(k) => if crate::metadata::first_index(gs[k].1, dep.spec_requirement()) is Some {
                        gs.update(k, (gs[k].0, crate::metadata::without_name(gs[k].1, dep.spec_requirement().0).push(dep.spec_requirement())))
                    } else {
                        gs
                    },
                    None => gs,
                }),
                None => None,
            },
        },
        crate::metadata::same_but_lists(*final(metadata), *old(metadata)),
        (final(metadata).deps(), final(metadata).groups()) == refreshed(old(metadata).deps(), old(metadata).groups(), dep.spec_requirement(), opt_str(group)),
{
    match group {
        None => {
            let listed = match metadata.contains_dependency(&dep) {
                Ok(b) => b,
                Err(_) => false,
            };
            if listed {
                metadata.remove_dependency(&dep);
                metadata.add_dependency(dep);
            }
        },
        Some(g) => {
            let listed = match metadata.contains_optional_dependency(&dep, g) {
                Ok(b) => b,
                Err(_) => false,
            };
            if listed {
                let ghost g0 = metadata.groups().unwrap();
                let ghost r = dep.spec_requirement();
                metadata.remove_optional_dependency(&dep, g);
                let ghost g1 = metadata.groups().unwrap();
                proof {
                    crate::metadata::lemma_first_group(g0, g@);
                    assert forall|j: int| 0 <= j < g0.len() implies #[trigger] g0[j].0 == g1[j].0 by {}
                    crate::metadata::lemma_first_group_same_names(g0, g1, g@);
                }
                metadata.add_optional_dependency(dep, g);
                proof {
                    let k = crate::metadata::first_group(g0, g@).unwrap();
                    let w = crate::metadata::without_name(g0[k].1, r.0);
                    assert(g1[k] == (g0[k].0, w));
                    assert(g1.update(k, (g1[k].0, g1[k].1.push(r))) =~= g0.update(k, (g0[k].0, w.push(r))));
                }
            }
        },
    }
}

} // verus!

verus! {

/// A requirement just added is listed.
pub proof fn lemma_added_requirement_is_listed(l: Seq<crate::metadata::RequirementView>, r: crate::metadata::RequirementView)
    ensures
        crate::metadata::first_index(l.push(r), r) is Some,
{
    crate::metadata::lemma_first_index(l.push(r), r);
    if crate::metadata::first_index(l.push(r), r) is None {
        assert(l.push(r)[l.len() as int] == r);
    }
}

/// Removing by name a requirement just added to a list that held no entry
/// of that name gives back the list.
pub proof fn lemma_remove_undoes_add(l: Seq<crate::metadata::RequirementView>, r: crate::metadata::RequirementView)
    requires
        forall|j: int| 0 <= j < l.len() ==> #[trigger] l[j].0 != r.0,
    ensures
        remove_each(l.push(r), seq![r]) == l,
{
    assert(seq![r].drop_last() =~= Seq::<crate::metadata::RequirementView>::empty());
    assert(seq![r].last() == r);
    assert(remove_each(l.push(r), Seq::<crate::metadata::RequirementView>::empty()) == l.push(r));
    assert(remove_each(l.push(r), seq![r]) == crate::metadata::without_name(l.push(r), r.0));
    crate::metadata::lemma_without_name_push(l, r, r.0);
    crate::metadata::lemma_without_name_absent(l, r.0);
    assert(l + Seq::<crate::metadata::RequirementView>::empty() =~= l);
}

/// Refreshing a listed requirement leaves it as the last entry and the only
/// one of its name, and keeps the entries of other names in order.
pub proof fn lemma_refresh_keeps_entries(l: Seq<crate::metadata::RequirementView>, r: crate::metadata::RequirementView)
    ensures
        ({
            let after = crate::metadata::without_name(l, r.0).push(r);
            &&& after.last() == r
            &&& crate::metadata::first_index(after, r) is Some
            &&& forall|j: int| 0 <= j < after.len() - 1 ==> #[trigger] after[j].0 != r.0
            &&& crate::metadata::without_name(after, r.0) == crate::metadata::without_name(l, r.0)
        }),
{
    let w = crate::metadata::without_name(l, r.0);
    let after = w.push(r);
    crate::metadata::lemma_without_name_not_named(l, r.0);
    assert forall|j: int| 0 <= j < after.len() - 1 implies #[trigger] after[j].0 != r.0 by {
        assert(after[j] == w[j]);
    }
    lemma_added_requirement_is_listed(w, r);
    crate::metadata::lemma_without_name_push(w, r, r.0);
    crate::metadata::lemma_without_name_idempotent(l, r.0);
    assert(crate::metadata::without_name(w, r.0) + Seq::<crate::metadata::RequirementView>::empty() =~= crate::metadata::without_name(w, r.0));
}

} // verus!

verus! {

/// Whether dependencies and groups list `req`: among the dependencies, or in any group.
pub open spec fn listed_in(
    deps: Option<Seq<crate::metadata::RequirementView>>,
    groups: Option<Seq<(Seq<char>, Seq<crate::metadata::RequirementView>)>>,
    req: crate::metadata::RequirementView,
) -> bool {
    (match deps {
        Some(d) => crate::metadata::first_index(d, req) is Some,
        None => false,
    }) || match groups {
        Some(g) => exists|i: int| 0 <= i < g.len() && #[trigger] crate::metadata::first_index(g[i].1, req) is Some,
        None => false,
    }
}

/// The groups after recording the tool `req`: unchanged when it is listed,
/// else with `req` appended to the `dev` group (created when absent).
pub open spec fn tool_recorded(
    deps: Option<Seq<crate::metadata::RequirementView>>,
    groups: Option<Seq<(Seq<char>, Seq<crate::metadata::RequirementView>)>>,
    req: crate::metadata::RequirementView,
) -> Option<Seq<(Seq<char>, Seq<crate::metadata::RequirementView>)>> {
    if listed_in(deps, groups, req) {
        groups
    } else {
        match groups {
            Some(gs) => Some(added_to_group(gs, "dev"@, seq![req])),
            None => None,
        }
    }
}

/// Recording a tool twice is recording it once.
pub proof fn lemma_record_tool_idempotent(
    deps: Option<Seq<crate::metadata::RequirementView>>,
    groups: Option<Seq<(Seq<char>, Seq<crate::metadata::RequirementView>)>>,
    req: crate::metadata::RequirementView,
)
    ensures
        tool_recorded(deps, tool_recorded(deps, groups, req), req) == tool_recorded(deps, groups, req),
{
    if !listed_in(deps, groups, req) {
        if let Some(gs) = groups {
            let g2 = added_to_group(gs, "dev"@, seq![req]);
            crate::metadata::lemma_first_group(gs, "dev"@);
            match crate::metadata::first_group(gs, "dev"@) {
                Some(i) => {
                    assert(g2[i].1 == gs[i].1 + seq![req]);
                    assert((gs[i].1 + seq![req]).drop_last() =~= gs[i].1);
                    assert(crate::metadata::first_index(g2[i].1, req) is Some);
                },
                None => {
                    let k = gs.len() as int;
                    assert(g2[k].1 == seq![req]);
                    assert(seq![req].drop_last() =~= Seq::<crate::metadata::RequirementView>::empty());
                    assert(crate::metadata::first_index(g2[k].1, req) is Some);
                },
            }
            assert(listed_in(deps, Some(g2), req));
        }
    }
}

/// Record a tool that an operation runs (such as `ruff` or `pytest`) in the
/// project's `dev` group, unless the project lists it already, among its
/// dependencies or in any group.
pub fn record_tool_dependency(metadata: &mut crate::metadata::Metadata, dep: crate::dependency::Dependency)
    ensures
        final(metadata).deps() == old(metadata).deps(),
        final(metadata).groups() == tool_recorded(old(metadata).deps(), old(metadata).groups(), dep.spec_requirement()),
        crate::metadata::same_but_lists(*final(metadata), *old(metadata)),
{
    let listed = match metadata.contains_dependency_any(&dep) {
        Ok(b) => b,
        Err(_) => false,
    };
    if !listed {
        proof {
            reveal_strlit("dev");
        }
        let ghost r = dep.spec_requirement();
        metadata.add_optional_dependency(dep, "dev");
        proof {
            match old(metadata).groups() {
                Some(gs) => {
                    match crate::metadata::first_group(gs, "dev"@) {
                        Some(i) => {
                            assert(gs[i].1 + seq![r] =~= gs[i].1.push(r));
                        },
                        None => {},
                    }
                },
                None => {},
            }
        }
    }
}

} // verus!

verus! {

/// What a cleaning pattern matches: directories or files.
#[derive(Clone, Copy, Debug, PartialEq, Eq, Structural)]
pub enum PathType {
    Directory,
    File,
}

/// A glob pattern of what cleaning deletes, and what it matches.
#[derive(Clone, Debug)]
pub struct DeletePath {
    pub path_type: PathType,
    pub glob: String,
}

/// What cleaning the cache deletes: every `__pycache__` directory, then
/// every `.pyc` file, below the current directory.
pub fn get_delete_patterns() -> (r: Vec<DeletePath>)
    ensures
        r@.len() == 2,
        r@[0].path_type == PathType::Directory && r@[0].glob@ == "**/__pycache__"@,
        r@[1].path_type == PathType::File && r@[1].glob@ == "**/*.pyc"@,
{
    let mut r: Vec<DeletePath> = Vec::new();
    r.push(DeletePath { path_type: PathType::Directory, glob: "**/__pycache__".to_owned() });
    r.push(DeletePath { path_type: PathType::File, glob: "**/*.pyc".to_owned() });
    r
}

} // verus!

verus! {

/// The arguments ruff fixes lint errors with: `. --fix --extend-exclude`
/// and the environment's name.
pub fn fix_arguments(env_name: &str) -> (r: Vec<String>)
    ensures
        strings_view(r@) == seq!["."@, "--fix"@, "--extend-exclude"@, env_name@],
{
    let base: [&str; 4] = [".", "--fix", "--extend-exclude", env_name];
    let r = strings_of(&base);
    assert(strings_view(r@) =~= seq!["."@, "--fix"@, "--extend-exclude"@, env_name@]);
    r
}

/// The arguments black formats with: `. --line-length 79`, and `--check`
/// when only checking.
pub fn fmt_arguments(is_check: bool) -> (r: Vec<String>)
    ensures
        strings_view(r@) == if is_check {
            seq!["."@, "--line-length"@, "79"@, "--check"@]
        } else {
            seq!["."@, "--line-length"@, "79"@]
        },
{
    if is_check {
        let base: [&str; 4] = [".", "--line-length", "79", "--check"];
        let r = strings_of(&base);
        assert(strings_view(r@) =~= seq!["."@, "--line-length"@, "79"@, "--check"@]);
        r
    } else {
        let base: [&str; 3] = [".", "--line-length", "79"];
        let r = strings_of(&base);
        assert(strings_view(r@) =~= seq!["."@, "--line-length"@, "79"@]);
        r
    }
}

} // verus!

verus! {

/// Optional dependency lists and groups.
pub type Lists = (
    Option<Seq<crate::metadata::RequirementView>>,
    Option<Seq<(Seq<char>, Seq<crate::metadata::RequirementView>)>>,
);

/// The lists after refreshing `r` in `place` (`None` for the project's
/// dependencies, else a group): when listed there, the entries of its name
/// are dropped and `r` is appended (see `refresh_dependency`).
pub open spec fn refreshed(
    d: Option<Seq<crate::metadata::RequirementView>>,
    g: Option<Seq<(Seq<char>, Seq<crate::metadata::RequirementView>)>>,
    r: crate::metadata::RequirementView,
    place: Option<Seq<char>>,
) -> Lists {
    match place {
        None => (match d {
            Some(l) => Some(if crate::metadata::first_index(l, r) is Some {
                crate::metadata::without_name(l, r.0).push(r)
            } else {
                l
            }),
            None => None,
        }, g),
        Some(p) => (d, match g {
            Some(gs) => Some(match crate::metadata::first_group(gs, p) {
                Some(k) => if crate::metadata::first_index(gs[k].1, r) is Some {
                    gs.update(k, (gs[k].0, crate::metadata::without_name(gs[k].1, r.0).push(r)))
                } else {
                    gs
                },
                None => gs,
            }),
            None => None,
        }),
    }
}

/// The lists after refreshing `r` in each place, in order.
pub open spec fn refreshed_places(l: Lists, r: crate::metadata::RequirementView, places: Seq<Option<Seq<char>>>) -> Lists
    decreases places.len(),
{
    if places.len() == 0 {
        l
    } else {
        let m = refreshed_places(l, r, places.drop_last());
        refreshed(m.0, m.1, r, places.last())
    }
}

/// The lists after refreshing each requirement, in order, in each place.
pub open spec fn refreshed_all(l: Lists, rs: Seq<crate::metadata::RequirementView>, places: Seq<Option<Seq<char>>>) -> Lists
    decreases rs.len(),
{
    if rs.len() == 0 {
        l
    } else {
        refreshed_places(refreshed_all(l, rs.drop_last(), places), rs.last(), places)
    }
}

/// The views of optional places.
pub open spec fn places_view(p: Seq<Option<String>>) -> Seq<Option<Seq<char>>> {
    p.map_values(|o: Option<String>| match o {
        Some(s) => Some(s@),
        None => None,
    })
}

/// Record what an update installed: refresh each installed package's
/// dependency, in order, in each of the places (`None` for the project's
/// dependencies, else a group name).
pub fn refresh_installed(metadata: &mut crate::metadata::Metadata, installed: &Vec<crate::dependency::Dependency>, places: &Vec<Option<String>>)
    ensures
        (final(metadata).deps(), final(metadata).groups())
            == refreshed_all((old(metadata).deps(), old(metadata).groups()), requirements_of(dependencies_view(installed@)), places_view(places@)),
        crate::metadata::same_but_lists(*final(metadata), *old(metadata)),
{
    let ghost rs = requirements_of(dependencies_view(installed@));
    let ghost ps = places_view(places@);
    let ghost l0: Lists = (metadata.deps(), metadata.groups());
    let mut i: usize = 0;
    assert(rs.take(0) =~= Seq::<crate::metadata::RequirementView>::empty());
    while i < installed.len()
        invariant
            i <= installed@.len(),
            rs == requirements_of(dependencies_view(installed@)),
            ps == places_view(places@),
            l0 == (old(metadata).deps(), old(metadata).groups()),
            (metadata.deps(), metadata.groups()) == refreshed_all(l0, rs.take(i as int), ps),
            crate::metadata::same_but_lists(*metadata, *old(metadata)),
        decreases installed@.len() - i,
    {
        let d = &installed[i];
        let ghost start: Lists = (metadata.deps(), metadata.groups());
        proof {
            assert(rs[i as int] == d.spec_requirement());
            assert(rs.take(i + 1).drop_last() =~= rs.take(i as int));
            assert(rs.take(i + 1).last() == d.spec_requirement());
            assert(ps.take(0) =~= Seq::<Option<Seq<char>>>::empty());
        }
        let mut j: usize = 0;
        while j < places.len()
            invariant
                j <= places@.len(),
                ps == places_view(places@),
                d.spec_requirement() == rs[i as int],
                (metadata.deps(), metadata.groups()) == refreshed_places(start, d.spec_requirement(), ps.take(j as int)),
                crate::metadata::same_but_lists(*metadata, *old(metadata)),
            decreases places@.len() - j,
        {
            proof {
                assert(ps.take(j + 1).drop_last() =~= ps.take(j as int));
                assert(ps.take(j + 1).last() == ps[j as int]);
            }
            let place: Option<&str> = match &places[j] {
                Some(p) => Some(p.as_str()),
                None => None,
            };
            assert(opt_str(place) == ps[j as int]);
            refresh_dependency(metadata, d.duplicate(), place);
            j = j + 1;
        }
        assert(ps.take(places@.len() as int) =~= ps);
        i = i + 1;
    }
    assert(rs.take(installed@.len() as int) =~= rs);
}

} // verus!
