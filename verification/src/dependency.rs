//! Packages and dependencies read from strings such as `my-package==0.0.1`,
//! and the normalized forms of package names.
use vstd::prelude::*;
use crate::error::Error;
use crate::package::{operator_text, parse_specifiers, pep440_specifiers, specifier_start, specifiers_view, split_package_string, Operator};
use crate::text::{chars_of, extend_chars, is_whitespace, is_whitespace_exec, string_from_chars, strings_view};

verus! {

/// A separator that package-name normalization folds into `-`.
pub open spec fn is_name_separator(c: char) -> bool {
    c == '-' || c == '_' || c == '.' || c == ' '
}

/// A package name with every run of `-`, `_`, `.` and spaces replaced by one `-`.
pub open spec fn canonical_name(s: Seq<char>) -> Seq<char>
    decreases s.len(),
{
    if s.len() == 0 {
        s
    } else {
        let init = canonical_name(s.drop_last());
        if is_name_separator(s.last()) {
            if s.len() >= 2 && is_name_separator(s[s.len() - 2]) {
                init
            } else {
                init.push('-')
            }
        } else {
            init.push(s.last())
        }
    }
}

/// A name with every `-` replaced by `_`.
pub open spec fn underscored(s: Seq<char>) -> Seq<char> {
    s.map_values(|c: char| if c == '-' { '_' } else { c })
}

/// The normalized, distributable form of a package name.
pub fn canonical_package_name(name: &str) -> (r: Result<String, Error>)
    ensures
        r matches Ok(s) && s@ == canonical_name(name@),
{
    let v = chars_of(name);
    let mut out: Vec<char> = Vec::new();
    let mut i: usize = 0;
    while i < v.len()
        invariant
            v@ == name@,
            i <= v@.len(),
            out@ == canonical_name(v@.take(i as int)),
        decreases v@.len() - i,
    {
        proof {
            assert(v@.take(i + 1).drop_last() =~= v@.take(i as int));
        }
        let c = v[i];
        let sep = c == '-' || c == '_' || c == '.' || c == ' ';
        if sep {
            let prev_sep = i >= 1 && (v[i - 1] == '-' || v[i - 1] == '_' || v[i - 1] == '.' || v[i - 1] == ' ');
            proof {
                if i >= 1 {
                    assert(v@.take(i + 1)[i - 1] == v@[i - 1]);
                }
            }
            if !prev_sep {
                out.push('-');
            }
        } else {
            out.push(c);
        }
        i = i + 1;
    }
    assert(v@.take(v@.len() as int) =~= v@);
    Ok(string_from_chars(out.as_slice()))
}

/// A name with every run of `-`, `_`, `.` and spaces replaced by one `_`.
pub open spec fn runs_underscored(s: Seq<char>) -> Seq<char>
    decreases s.len(),
{
    if s.len() == 0 {
        s
    } else {
        let init = runs_underscored(s.drop_last());
        if is_name_separator(s.last()) {
            if s.len() >= 2 && is_name_separator(s[s.len() - 2]) {
                init
            } else {
                init.push('_')
            }
        } else {
            init.push(s.last())
        }
    }
}

/// The normalized form with `_` for `-` is the name with each run of
/// separators replaced by one `_`.
pub proof fn lemma_underscored_canonical(s: Seq<char>)
    ensures
        underscored(canonical_name(s)) == runs_underscored(s),
    decreases s.len(),
{
    if s.len() > 0 {
        lemma_underscored_canonical(s.drop_last());
        let init = canonical_name(s.drop_last());
        assert(underscored(init.push('-')) =~= underscored(init).push('_'));
        assert(underscored(init.push(s.last())) =~= underscored(init).push(if s.last() == '-' { '_' } else { s.last() }));
    } else {
        assert(underscored(s) =~= s);
    }
}

/// The importable form of a package name: its normalized form with `_` for
/// `-`, that is, the name with each run of separators replaced by one `_`.
pub fn importable_package_name(name: &str) -> (r: Result<String, Error>)
    ensures
        r matches Ok(s) && s@ == underscored(canonical_name(name@)),
        r matches Ok(s) && s@ == runs_underscored(name@),
{
    proof {
        lemma_underscored_canonical(name@);
    }
    let canonical = match canonical_package_name(name) {
        Ok(c) => c,
        Err(e) => return Err(e),
    };
    let v = chars_of(canonical.as_str());
    let mut out: Vec<char> = Vec::new();
    let mut i: usize = 0;
    while i < v.len()
        invariant
            i <= v@.len(),
            out@ == underscored(v@.take(i as int)),
        decreases v@.len() - i,
    {
        proof {
            assert(underscored(v@.take(i + 1)) =~= underscored(v@.take(i as int)).push(if v@[i as int] == '-' { '_' } else { v@[i as int] }));
        }
        if v[i] == '-' {
            out.push('_');
        } else {
            out.push(v[i]);
        }
        i = i + 1;
    }
    assert(v@.take(v@.len() as int) =~= v@);
    Ok(string_from_chars(out.as_slice()))
}

/// Normalizing a name twice is normalizing it once.
pub proof fn lemma_canonical_name_idempotent(s: Seq<char>)
    ensures
        canonical_name(canonical_name(s)) == canonical_name(s),
    decreases s.len(),
{
    lemma_canonical_name_shape(s);
    lemma_canonical_fixed(canonical_name(s));
}

/// A normalized name holds no `_`, `.` or space, and no two `-` in a row.
pub open spec fn is_canonical(s: Seq<char>) -> bool {
    &&& forall|i: int| 0 <= i < s.len() ==> #[trigger] s[i] != '_' && s[i] != '.' && s[i] != ' '
    &&& forall|i: int| 0 <= i < s.len() - 1 ==> !(#[trigger] s[i] == '-' && s[i + 1] == '-')
}

/// Normalized names are canonical; they end with `-` exactly when the name
/// ends with a separator.
pub proof fn lemma_canonical_name_shape(s: Seq<char>)
    ensures
        is_canonical(canonical_name(s)),
        canonical_name(s).len() > 0 ==> (canonical_name(s).last() == '-' <==> is_name_separator(s.last())),
        canonical_name(s).len() == 0 <==> s.len() == 0,
    decreases s.len(),
{
    if s.len() > 0 {
        let init = s.drop_last();
        lemma_canonical_name_shape(init);
        let ci = canonical_name(init);
        if init.len() > 0 {
            assert(s[s.len() - 2] == init.last());
        }
        let c = canonical_name(s);
        assert forall|i: int| 0 <= i < c.len() implies #[trigger] c[i] != '_' && c[i] != '.' && c[i] != ' ' by {
            if i < ci.len() {
                assert(c[i] == ci[i]);
            }
        }
        assert forall|i: int| 0 <= i < c.len() - 1 implies !(#[trigger] c[i] == '-' && c[i + 1] == '-') by {
            if i + 1 < ci.len() {
                assert(c[i] == ci[i] && c[i + 1] == ci[i + 1]);
            }
        }
    }
}

/// A canonical name is its own normalized form.
pub proof fn lemma_canonical_fixed(s: Seq<char>)
    requires
        is_canonical(s),
    ensures
        canonical_name(s) == s,
    decreases s.len(),
{
    if s.len() > 0 {
        let init = s.drop_last();
        assert(is_canonical(init)) by {
            assert forall|i: int| 0 <= i < init.len() implies #[trigger] init[i] != '_' && init[i] != '.' && init[i] != ' ' by {
                assert(init[i] == s[i]);
            }
            assert forall|i: int| 0 <= i < init.len() - 1 implies !(#[trigger] init[i] == '-' && init[i + 1] == '-') by {
                assert(init[i] == s[i] && init[i + 1] == s[i + 1]);
            }
        }
        lemma_canonical_fixed(init);
        if s.len() >= 2 {
            assert(s[s.len() - 2] == init.last());
        }
        assert(init.push(s.last()) =~= s);
    }
}

/// The version-specifier part of a package string: from its first operator
/// character on, if it has one.
pub open spec fn spec_specifiers_str(s: Seq<char>) -> Option<Seq<char>> {
    if specifier_start(s) < s.len() {
        Some(s.skip(specifier_start(s) as int))
    } else {
        None
    }
}

/// The version-specifier part of a package string (see `spec_specifiers_str`).
pub fn parse_version_specifiers_str(s: &str) -> (r: Option<String>)
    ensures
        match r {
            Some(t) => spec_specifiers_str(s@) == Some(t@),
            None => spec_specifiers_str(s@) is None,
        },
{
    let (_, rest) = split_package_string(s);
    if rest.unicode_len() == 0 {
        None
    } else {
        Some(rest)
    }
}

/// The text of a version specifier: its operator, its version and, for the
/// wildcard operators, `.*`.
pub open spec fn specifier_display(spec: (Operator, Seq<char>)) -> Seq<char> {
    operator_text(spec.0) + spec.1 + (if spec.0 == Operator::EqualStar || spec.0 == Operator::NotEqualStar {
        ".*"@
    } else {
        Seq::<char>::empty()
    })
}

/// The texts of specifiers joined by `, `.
pub open spec fn specifiers_display(specs: Seq<(Operator, Seq<char>)>) -> Seq<char>
    decreases specs.len(),
{
    if specs.len() == 0 {
        Seq::empty()
    } else if specs.len() == 1 {
        specifier_display(specs[0])
    } else {
        specifiers_display(specs.drop_last()) + ", "@ + specifier_display(specs.last())
    }
}

/// `s` without its whitespace.
pub open spec fn without_whitespace(s: Seq<char>) -> Seq<char>
    decreases s.len(),
{
    if s.len() == 0 {
        s
    } else if is_whitespace(s.last()) {
        without_whitespace(s.drop_last())
    } else {
        without_whitespace(s.drop_last()).push(s.last())
    }
}

/// The identity of a package: its normalized name and its version's text.
#[derive(Clone, Debug)]
pub struct PackageId {
    pub name: String,
    pub version: String,
}

/// A package: its normalized name, its version's text (none for a bare
/// name) and the name it was given.
#[derive(Clone, Debug)]
pub struct Package {
    name: String,
    version: Option<String>,
    given_name: String,
}

/// The message of a package string with more than one specifier.
pub open spec fn one_specifier_message(s: Seq<char>) -> Seq<char> {
    s + " can only contain one version specifier"@
}

/// The message of a package string whose specifier is not `==`.
pub open spec fn equal_specifier_message(s: Seq<char>) -> Seq<char> {
    s + " must contain == specifier"@
}

/// Two texts one after the other.
fn concat2(a: &str, b: &str) -> (r: String)
    ensures
        r@ == a@ + b@,
{
    let mut out = chars_of(a);
    let vb = chars_of(b);
    extend_chars(&mut out, vb.as_slice());
    string_from_chars(out.as_slice())
}

/// Join two texts with a third between them.
fn concat3(a: &str, b: &str, c: &str) -> (r: String)
    ensures
        r@ == a@ + b@ + c@,
{
    let mut out = chars_of(a);
    let vb = chars_of(b);
    extend_chars(&mut out, vb.as_slice());
    let vc = chars_of(c);
    extend_chars(&mut out, vc.as_slice());
    string_from_chars(out.as_slice())
}

impl Package {
    /// The package's normalized name.
    pub closed spec fn spec_name(&self) -> Seq<char> {
        self.name@
    }

    /// The text of the package's version, if it has one.
    pub closed spec fn spec_version(&self) -> Option<Seq<char>> {
        match self.version {
            Some(v) => Some(v@),
            None => None,
        }
    }

    /// The package's dependency string: `name==version`, or the name alone.
    pub open spec fn spec_dep_string(&self) -> Seq<char> {
        match self.spec_version() {
            Some(v) => self.spec_name() + "=="@ + v,
            None => self.spec_name(),
        }
    }

    /// The name the package was given.
    pub closed spec fn spec_given_name(&self) -> Seq<char> {
        self.given_name@
    }

    /// A package from a package string, its name part and the specifiers parsed
    /// from its specifier part: exactly one `==` specifier is accepted.
    pub fn from_parsed_specifiers(s: &str, name: &str, parsed: Result<Vec<(Operator, String)>, String>) -> (r: Result<Package, Error>)
        requires
            parsed matches Ok(v) ==> v@.len() > 0,
        ensures
            match parsed {
                Err(m) => r matches Err(Error::PEP440Error(e)) && e@ == m@,
                Ok(v) => if v@.len() > 1 {
                    r matches Err(Error::InvalidVersionString(e)) && e@ == one_specifier_message(s@)
                } else if v@[0].0 != Operator::Equal {
                    r matches Err(Error::InvalidVersionString(e)) && e@ == equal_specifier_message(s@)
                } else {
                    r matches Ok(p) && p.spec_name() == canonical_name(name@) && p.spec_version() == Some(v@[0].1@)
                        && p.spec_given_name() == name@
                },
            },
    {
        let specs = match parsed {
            Ok(v) => v,
            Err(m) => return Err(Error::PEP440Error(m)),
        };
        if specs.len() > 1 {
            return Err(Error::InvalidVersionString(concat2(s, " can only contain one version specifier")));
        }
        if specs[0].0 != Operator::Equal {
            return Err(Error::InvalidVersionString(concat2(s, " must contain == specifier")));
        }
        let canonical = match canonical_package_name(name) {
            Ok(c) => c,
            Err(e) => return Err(e),
        };
        Ok(Package { name: canonical, version: Some(specs[0].1.clone()), given_name: name.to_owned() })
    }

    /// Read a package string `name==version` (see `from_parsed_specifiers`);
    /// a bare name (no operator character) is a package without a version.
    pub fn from_str(s: &str) -> (r: Result<Package, Error>)
        ensures
            specifier_start(s@) == s@.len() ==> (r matches Ok(p) && p.spec_name() == canonical_name(s@)
                && p.spec_version() is None && p.spec_given_name() == s@),
            specifier_start(s@) < s@.len() ==> match pep440_specifiers(s@.skip(specifier_start(s@) as int)) {
                Err(m) => r matches Err(Error::PEP440Error(e)) && e@ == m,
                Ok(v) => if v.len() > 1 {
                    r matches Err(Error::InvalidVersionString(e)) && e@ == one_specifier_message(s@)
                } else if v[0].0 != Operator::Equal {
                    r matches Err(Error::InvalidVersionString(e)) && e@ == equal_specifier_message(s@)
                } else {
                    r matches Ok(p) && p.spec_name() == canonical_name(s@.take(specifier_start(s@) as int))
                        && p.spec_version() == Some(v[0].1) && p.spec_given_name() == s@.take(specifier_start(s@) as int)
                },
            },
    {
        let (name, spec_str) = split_package_string(s);
        if spec_str.unicode_len() == 0 {
            assert(s@.take(s@.len() as int) =~= s@);
            let canonical = match canonical_package_name(s) {
                Ok(c) => c,
                Err(e) => return Err(e),
            };
            return Ok(Package { name: canonical, version: None, given_name: s.to_owned() });
        }
        let parsed = parse_specifiers(spec_str.as_str());
        let ghost g = parsed;
        let r = Package::from_parsed_specifiers(s, name.as_str(), parsed);
        proof {
            if let Ok(v) = g {
                assert(specifiers_view(v@)[0] == (v@[0].0, v@[0].1@));
            }
        }
        r
    }

    /// The package's normalized name.
    pub fn name(&self) -> (r: &str)
        ensures
            r@ == self.spec_name(),
    {
        self.name.as_str()
    }

    /// The text of the package's version, if it has one.
    pub fn version(&self) -> (r: Option<&String>)
        ensures
            match r {
                Some(v) => self.spec_version() == Some(v@),
                None => self.spec_version() is None,
            },
    {
        match &self.version {
            Some(v) => Some(v),
            None => None,
        }
    }

    /// The importable form of the package's name.
    pub fn importable_name(&self) -> (r: Result<String, Error>)
        ensures
            r matches Ok(s) && s@ == underscored(canonical_name(self.spec_name())),
    {
        importable_package_name(self.name.as_str())
    }

    /// The dependency string of the package: `name==version`, or the name
    /// alone for a package without a version.
    pub fn to_dep_string(&self) -> (r: String)
        ensures
            r@ == self.spec_dep_string(),
    {
        match &self.version {
            Some(v) => concat3(self.name.as_str(), "==", v.as_str()),
            None => self.name.clone(),
        }
    }

    /// Two packages are the same package when their names are equal.
    pub fn same_package(&self, other: &Package) -> (r: bool)
        ensures
            r == (self.spec_name() == other.spec_name()),
    {
        crate::text::str_eq(self.name.as_str(), other.name.as_str())
    }
}

/// How a requirement pins its versions: PEP 440 specifiers, or a URL.
#[derive(Debug)]
pub enum VersionOrUrl {
    VersionSpecifier(Vec<(Operator, String)>),
    Url(String),
}

/// A version pin as plain values: the specifiers (none for a URL) and the URL, if it is one.
pub open spec fn version_or_url_view(v: VersionOrUrl) -> (Seq<(Operator, Seq<char>)>, Option<Seq<char>>) {
    match v {
        VersionOrUrl::VersionSpecifier(specs) => (specifiers_view(specs@), None),
        VersionOrUrl::Url(u) => (Seq::empty(), Some(u@)),
    }
}

/// A PEP 508 requirement: a name, extras, a version pin and an environment marker.
#[derive(Debug)]
pub struct Requirement {
    pub name: String,
    pub extras: Option<Vec<String>>,
    pub version_or_url: Option<VersionOrUrl>,
    pub marker: Option<String>,
}

impl View for Requirement {
    type V = (Seq<char>, Option<Seq<Seq<char>>>, Option<(Seq<(Operator, Seq<char>)>, Option<Seq<char>>)>, Option<Seq<char>>);

    open spec fn view(&self) -> Self::V {
        (
            self.name@,
            match self.extras {
                Some(e) => Some(strings_view(e@)),
                None => None,
            },
            match self.version_or_url {
                Some(v) => Some(version_or_url_view(v)),
                None => None,
            },
            match self.marker {
                Some(m) => Some(m@),
                None => None,
            },
        )
    }
}

/// Whether two lists of strings are equal.
fn strings_eq(a: &Vec<String>, b: &Vec<String>) -> (r: bool)
    ensures
        r == (strings_view(a@) == strings_view(b@)),
{
    if a.len() != b.len() {
        return false;
    }
    let mut i: usize = 0;
    while i < a.len()
        invariant
            a@.len() == b@.len(),
            i <= a@.len(),
            forall|j: int| 0 <= j < i ==> #[trigger] a@[j]@ == b@[j]@,
        decreases a@.len() - i,
    {
        if !crate::text::str_eq(a[i].as_str(), b[i].as_str()) {
            assert(strings_view(a@)[i as int] != strings_view(b@)[i as int]);
            return false;
        }
        i = i + 1;
    }
    assert(strings_view(a@) =~= strings_view(b@));
    true
}

/// Whether two lists of specifiers are equal.
fn specifiers_eq(a: &Vec<(Operator, String)>, b: &Vec<(Operator, String)>) -> (r: bool)
    ensures
        r == (specifiers_view(a@) == specifiers_view(b@)),
{
    if a.len() != b.len() {
        return false;
    }
    let mut i: usize = 0;
    while i < a.len()
        invariant
            a@.len() == b@.len(),
            i <= a@.len(),
            forall|j: int| 0 <= j < i ==> #[trigger] specifiers_view(a@)[j] == specifiers_view(b@)[j],
        decreases a@.len() - i,
    {
        if a[i].0 != b[i].0 || !crate::text::str_eq(a[i].1.as_str(), b[i].1.as_str()) {
            assert(specifiers_view(a@)[i as int] != specifiers_view(b@)[i as int]);
            return false;
        }
        i = i + 1;
    }
    assert(specifiers_view(a@) =~= specifiers_view(b@));
    true
}

/// Whether two optional strings are equal.
fn opt_str_eq(a: &Option<String>, b: &Option<String>) -> (r: bool)
    ensures
        r == (match (a, b) {
            (Some(x), Some(y)) => x@ == y@,
            (None, None) => true,
            _ => false,
        }),
{
    match (a, b) {
        (Some(x), Some(y)) => crate::text::str_eq(x.as_str(), y.as_str()),
        (None, None) => true,
        _ => false,
    }
}

/// Whether two requirements are equal in every part.
pub fn requirement_eq(a: &Requirement, b: &Requirement) -> (r: bool)
    ensures
        r == (a@ == b@),
{
    if !crate::text::str_eq(a.name.as_str(), b.name.as_str()) {
        return false;
    }
    let extras = match (&a.extras, &b.extras) {
        (Some(x), Some(y)) => strings_eq(x, y),
        (None, None) => true,
        _ => false,
    };
    if !extras {
        return false;
    }
    let pins = match (&a.version_or_url, &b.version_or_url) {
        (Some(VersionOrUrl::VersionSpecifier(x)), Some(VersionOrUrl::VersionSpecifier(y))) => specifiers_eq(x, y),
        (Some(VersionOrUrl::Url(x)), Some(VersionOrUrl::Url(y))) => crate::text::str_eq(x.as_str(), y.as_str()),
        (None, None) => true,
        _ => false,
    };
    if !pins {
        return false;
    }
    opt_str_eq(&a.marker, &b.marker)
}

/// A copy of a list of specifiers.
fn clone_specifiers(v: &Vec<(Operator, String)>) -> (r: Vec<(Operator, String)>)
    ensures
        specifiers_view(r@) == specifiers_view(v@),
{
    let mut r: Vec<(Operator, String)> = Vec::new();
    let mut i: usize = 0;
    while i < v.len()
        invariant
            i <= v@.len(),
            r@.len() == i,
            forall|j: int| 0 <= j < i ==> #[trigger] specifiers_view(r@)[j] == specifiers_view(v@)[j],
        decreases v@.len() - i,
    {
        let ghost before = r@;
        let s = v[i].1.clone();
        assert(s@ == v@[i as int].1@);
        r.push((v[i].0, s));
        proof {
            assert forall|j: int| 0 <= j < i + 1 implies #[trigger] specifiers_view(r@)[j] == specifiers_view(v@)[j] by {
                if j < i {
                    assert(r@[j] == before[j]);
                    assert(specifiers_view(before)[j] == specifiers_view(v@)[j]);
                } else {
                    assert(r@[j] == (v@[i as int].0, s));
                }
            }
        }
        i = i + 1;
    }
    assert(specifiers_view(r@) =~= specifiers_view(v@));
    r
}

/// A copy of a requirement.
pub fn clone_requirement(a: &Requirement) -> (r: Requirement)
    ensures
        r@ == a@,
{
    let extras = match &a.extras {
        Some(e) => Some(crate::text::clone_strings(e)),
        None => None,
    };
    let version_or_url = match &a.version_or_url {
        Some(VersionOrUrl::VersionSpecifier(v)) => Some(VersionOrUrl::VersionSpecifier(clone_specifiers(v))),
        Some(VersionOrUrl::Url(u)) => Some(VersionOrUrl::Url(u.clone())),
        None => None,
    };
    let marker = match &a.marker {
        Some(m) => Some(m.clone()),
        None => None,
    };
    Requirement { name: a.name.clone(), extras, version_or_url, marker }
}

/// A requirement of a name alone.
pub open spec fn bare_requirement(name: Seq<char>) -> (Seq<char>, Option<Seq<Seq<char>>>, Option<(Seq<(Operator, Seq<char>)>, Option<Seq<char>>)>, Option<Seq<char>>) {
    (name, None, None, None)
}

/// What reading a dependency string gives: the requirement of the name
/// before the first operator character and the specifiers after it (none
/// when there is nothing after it); nothing when the specifiers cannot be read.
pub open spec fn spec_dependency(s: Seq<char>) -> Option<(
    (Seq<char>, Option<Seq<Seq<char>>>, Option<(Seq<(Operator, Seq<char>)>, Option<Seq<char>>)>, Option<Seq<char>>),
    Option<Seq<(Operator, Seq<char>)>>,
)> {
    let k = specifier_start(s);
    if k == s.len() {
        Some((bare_requirement(s), None))
    } else {
        match pep440_specifiers(s.skip(k as int)) {
            Ok(v) => Some((bare_requirement(s.take(k as int)), Some(v))),
            Err(_) => None,
        }
    }
}

/// A dependency: a requirement and, optionally, its version specifiers.
#[derive(Debug)]
pub struct Dependency {
    requirement: Requirement,
    version_specifiers: Option<Vec<(Operator, String)>>,
}

impl Dependency {
    /// The dependency's name.
    pub closed spec fn spec_name(&self) -> Seq<char> {
        self.requirement.name@
    }

    /// The dependency's requirement.
    pub closed spec fn spec_requirement(&self) -> (Seq<char>, Option<Seq<Seq<char>>>, Option<(Seq<(Operator, Seq<char>)>, Option<Seq<char>>)>, Option<Seq<char>>) {
        self.requirement@
    }

    /// The dependency's specifiers, if it has any.
    pub closed spec fn spec_specifiers(&self) -> Option<Seq<(Operator, Seq<char>)>> {
        match self.version_specifiers {
            Some(v) => Some(specifiers_view(v@)),
            None => None,
        }
    }

    /// The dependency's requirement.
    pub fn requirement(&self) -> (r: &Requirement)
        ensures
            r@ == self.spec_requirement(),
    {
        &self.requirement
    }

    /// The dependency's requirement, taken out of it.
    pub fn into_requirement(self) -> (r: Requirement)
        ensures
            r@ == self.spec_requirement(),
    {
        self.requirement
    }

    /// A copy of the dependency.
    pub fn duplicate(&self) -> (d: Dependency)
        ensures
            d.spec_requirement() == self.spec_requirement(),
            d.spec_specifiers() == self.spec_specifiers(),
            d.spec_name() == self.spec_name(),
    {
        let version_specifiers = match &self.version_specifiers {
            Some(v) => Some(clone_specifiers(v)),
            None => None,
        };
        Dependency { requirement: clone_requirement(&self.requirement), version_specifiers }
    }

    /// The dependency a requirement states: the requirement, with its
    /// specifiers when it pins versions by specifiers.
    pub fn from_requirement(value: &Requirement) -> (d: Dependency)
        ensures
            d.spec_requirement() == value@,
            d.spec_name() == value.name@,
            d.spec_specifiers() == match value.version_or_url {
                Some(VersionOrUrl::VersionSpecifier(v)) => Some(specifiers_view(v@)),
                _ => None,
            },
    {
        let version_specifiers = match &value.version_or_url {
            Some(VersionOrUrl::VersionSpecifier(v)) => Some(clone_specifiers(v)),
            _ => None,
        };
        Dependency { requirement: clone_requirement(value), version_specifiers }
    }

    /// Two dependencies are equal when their requirements are.
    pub fn same_requirement(&self, other: &Dependency) -> (r: bool)
        ensures
            r == (self.spec_requirement() == other.spec_requirement()),
    {
        requirement_eq(&self.requirement, &other.requirement)
    }

    /// A dependency from its name and the specifiers parsed from its specifier part.
    pub fn from_parsed_specifiers(name: &str, parsed: Result<Vec<(Operator, String)>, String>) -> (r: Result<Dependency, Error>)
        ensures
            match parsed {
                Err(m) => r matches Err(Error::PEP440Error(e)) && e@ == m@,
                Ok(v) => r matches Ok(d) && d.spec_name() == name@ && d.spec_specifiers() == Some(specifiers_view(v@))
                && d.spec_requirement() == bare_requirement(name@),
            },
    {
        match parsed {
            Ok(v) => Ok(Dependency { requirement: bare(name), version_specifiers: Some(v) }),
            Err(m) => Err(Error::PEP440Error(m)),
        }
    }

    /// Read a dependency string: the text before the first operator character
    /// is the name, the rest its specifiers (none when the rest is empty).
    pub fn from_str(s: &str) -> (r: Result<Dependency, Error>)
        ensures
            match spec_dependency(s@) {
                Some(v) => r matches Ok(d) && (d.spec_requirement(), d.spec_specifiers()) == v && d.spec_name() == v.0.0,
                None => r matches Err(Error::PEP440Error(_)),
            },
            specifier_start(s@) == s@.len() ==> (r matches Ok(d) && d.spec_name() == s@ && d.spec_specifiers() is None
                && d.spec_requirement() == bare_requirement(s@)),
            specifier_start(s@) < s@.len() ==> match pep440_specifiers(s@.skip(specifier_start(s@) as int)) {
                Err(m) => r matches Err(Error::PEP440Error(e)) && e@ == m,
                Ok(v) => r matches Ok(d) && d.spec_name() == s@.take(specifier_start(s@) as int) && d.spec_specifiers() == Some(v)
                    && d.spec_requirement() == bare_requirement(s@.take(specifier_start(s@) as int)),
            },
    {
        let (name, spec_str) = split_package_string(s);
        if spec_str.unicode_len() == 0 {
            assert(s@.take(s@.len() as int) =~= s@);
            return Ok(Dependency { requirement: bare(name.as_str()), version_specifiers: None });
        }
        let parsed = parse_specifiers(spec_str.as_str());
        Dependency::from_parsed_specifiers(name.as_str(), parsed)
    }

    /// The dependency's name.
    pub fn name(&self) -> (r: &str)
        ensures
            r@ == self.spec_name(),
            r@ == self.spec_requirement().0,
    {
        self.requirement.name.as_str()
    }

    /// The dependency's specifiers, if it has any.
    pub fn version_specifiers(&self) -> (r: Option<&Vec<(Operator, String)>>)
        ensures
            match r {
                Some(v) => self.spec_specifiers() == Some(specifiers_view(v@)),
                None => self.spec_specifiers() is None,
            },
    {
        match &self.version_specifiers {
            Some(v) => Some(v),
            None => None,
        }
    }

    /// The dependency string: the name, then the specifiers' text without
    /// whitespace (specifiers separated by commas).
    pub fn to_dep_string(&self) -> (r: String)
        ensures
            r@ == self.spec_name() + match self.spec_specifiers() {
                Some(v) => without_whitespace(specifiers_display(v)),
                None => Seq::<char>::empty(),
            },
    {
        let mut out = chars_of(self.requirement.name.as_str());
        match &self.version_specifiers {
            Some(v) => {
                let text = specifiers_text(v);
                let compact = remove_whitespace(text.as_slice());
                extend_chars(&mut out, compact.as_slice());
            },
            None => {
                assert(out@ =~= out@ + Seq::<char>::empty());
            },
        }
        string_from_chars(out.as_slice())
    }

    /// The identity of the package the dependency pins: its name and the
    /// version of its first specifier.
    pub fn to_pkg(self) -> (id: PackageId)
        requires
            self.spec_specifiers() matches Some(v) && v.len() > 0,
        ensures
            id.name@ == self.spec_name(),
            id.version@ == self.spec_specifiers().unwrap()[0].1,
    {
        let specs = self.version_specifiers.unwrap();
        assert(specifiers_view(specs@)[0] == (specs@[0].0, specs@[0].1@));
        PackageId { name: self.requirement.name, version: specs[0].1.clone() }
    }
}

/// The requirement of a name alone.
fn bare(name: &str) -> (r: Requirement)
    ensures
        r@ == bare_requirement(name@),
{
    Requirement { name: name.to_owned(), extras: None, version_or_url: None, marker: None }
}

/// The text of one specifier (see `specifier_display`).
fn specifier_chars(spec: &(Operator, String)) -> (r: Vec<char>)
    ensures
        r@ == specifier_display((spec.0, spec.1@)),
{
    let mut out = chars_of(spec.0.as_str());
    let v = chars_of(spec.1.as_str());
    extend_chars(&mut out, v.as_slice());
    if spec.0 == Operator::EqualStar || spec.0 == Operator::NotEqualStar {
        out.push('.');
        out.push('*');
        proof { reveal_strlit(".*"); }
        assert(out@ =~= operator_text(spec.0) + spec.1@ + ".*"@);
    } else {
        assert(out@ =~= operator_text(spec.0) + spec.1@ + Seq::<char>::empty());
    }
    out
}

/// The texts of specifiers joined by `, ` (see `specifiers_display`).
fn specifiers_text(specs: &Vec<(Operator, String)>) -> (r: Vec<char>)
    ensures
        r@ == specifiers_display(specifiers_view(specs@)),
{
    let ghost sv = specifiers_view(specs@);
    let mut out: Vec<char> = Vec::new();
    let mut i: usize = 0;
    while i < specs.len()
        invariant
            sv == specifiers_view(specs@),
            i <= specs@.len(),
            out@ == specifiers_display(sv.take(i as int)),
        decreases specs@.len() - i,
    {
        proof {
            assert(sv.take(i + 1).drop_last() =~= sv.take(i as int));
            assert(sv.take(i + 1).last() == (specs@[i as int].0, specs@[i as int].1@));
            if i == 0 {
                assert(sv.take(1)[0] == sv[0]);
            }
        }
        if i > 0 {
            out.push(',');
            out.push(' ');
            proof { reveal_strlit(", "); }
        }
        let piece = specifier_chars(&specs[i]);
        extend_chars(&mut out, piece.as_slice());
        proof {
            if i > 0 {
                assert(out@ =~= specifiers_display(sv.take(i as int)) + ", "@ + specifier_display(sv.take(i + 1).last()));
            } else {
                assert(out@ =~= specifier_display(sv.take(1)[0]));
            }
        }
        i = i + 1;
    }
    assert(sv.take(specs@.len() as int) =~= sv);
    out
}

/// Drop the whitespace of a text.
fn remove_whitespace(s: &[char]) -> (r: Vec<char>)
    ensures
        r@ == without_whitespace(s@),
{
    let mut out: Vec<char> = Vec::new();
    let mut i: usize = 0;
    while i < s.len()
        invariant
            i <= s@.len(),
            out@ == without_whitespace(s@.take(i as int)),
        decreases s@.len() - i,
    {
        proof {
            assert(s@.take(i + 1).drop_last() =~= s@.take(i as int));
        }
        if !is_whitespace_exec(s[i]) {
            out.push(s[i]);
        }
        i = i + 1;
    }
    assert(s@.take(s@.len() as int) =~= s@);
    out
}

} // verus!

verus! {

/// An importable name holds no `-`, `.` or space.
pub proof fn lemma_importable_name_has_no_separators(s: Seq<char>)
    ensures
        forall|i: int| 0 <= i < underscored(canonical_name(s)).len() ==> {
            let c = #[trigger] underscored(canonical_name(s))[i];
            c != '-' && c != '.' && c != ' '
        },
{
    lemma_canonical_name_shape(s);
}

} // verus!

verus! {

/// Texts joined with `,` between them.
pub open spec fn comma_joined(v: Seq<Seq<char>>) -> Seq<char>
    decreases v.len(),
{
    if v.len() == 0 {
        Seq::empty()
    } else if v.len() == 1 {
        v[0]
    } else {
        comma_joined(v.drop_last()) + seq![','] + v.last()
    }
}

/// The text of a requirement as a project file lists it: its name; its
/// extras, comma-separated in brackets; its specifiers as a dependency
/// string writes them, or ` @ ` and its URL; and `; ` and its marker.
pub open spec fn requirement_display(r: (Seq<char>, Option<Seq<Seq<char>>>, Option<(Seq<(Operator, Seq<char>)>, Option<Seq<char>>)>, Option<Seq<char>>)) -> Seq<char> {
    r.0 + (match r.1 {
        Some(e) => seq!['['] + comma_joined(e) + seq![']'],
        None => Seq::empty(),
    }) + (match r.2 {
        Some((specs, None)) => without_whitespace(specifiers_display(specs)),
        Some((_, Some(u))) => " @ "@ + u,
        None => Seq::empty(),
    }) + (match r.3 {
        Some(m) => "; "@ + m,
        None => Seq::empty(),
    })
}

/// Texts joined with `,` between them (see `comma_joined`).
fn comma_join(v: &Vec<String>) -> (r: Vec<char>)
    ensures
        r@ == comma_joined(strings_view(v@)),
{
    let ghost sv = strings_view(v@);
    let mut out: Vec<char> = Vec::new();
    let mut i: usize = 0;
    while i < v.len()
        invariant
            sv == strings_view(v@),
            i <= v@.len(),
            out@ == comma_joined(sv.take(i as int)),
        decreases v@.len() - i,
    {
        proof {
            assert(sv.take(i + 1).drop_last() =~= sv.take(i as int));
            assert(sv.take(i + 1).last() == v@[i as int]@);
        }
        let piece = chars_of(v[i].as_str());
        if i > 0 {
            out.push(',');
        } else {
            assert(sv.take(0) =~= Seq::<Seq<char>>::empty());
            assert(out@ =~= Seq::<char>::empty());
        }
        let ghost before = out@;
        extend_chars(&mut out, piece.as_slice());
        proof {
            if i == 0 {
                assert(out@ =~= sv.take(1)[0]);
            } else {
                assert(out@ =~= comma_joined(sv.take(i as int)) + seq![','] + sv.take(i + 1).last());
            }
        }
        i = i + 1;
    }
    assert(sv.take(v@.len() as int) =~= sv);
    out
}

/// The text of a requirement as a project file lists it (see `requirement_display`).
pub fn requirement_text(r: &Requirement) -> (s: String)
    ensures
        s@ == requirement_display(r@),
{
    let mut out = chars_of(r.name.as_str());
    let ghost n = out@;
    let extras: Vec<char> = match &r.extras {
        Some(e) => {
            let mut x: Vec<char> = Vec::new();
            x.push('[');
            let joined = comma_join(e);
            extend_chars(&mut x, joined.as_slice());
            x.push(']');
            x
        },
        None => Vec::new(),
    };
    let pin: Vec<char> = match &r.version_or_url {
        Some(VersionOrUrl::VersionSpecifier(v)) => {
            let text = specifiers_text(v);
            remove_whitespace(text.as_slice())
        },
        Some(VersionOrUrl::Url(u)) => {
            let mut x = chars_of(" @ ");
            let uc = chars_of(u.as_str());
            extend_chars(&mut x, uc.as_slice());
            x
        },
        None => Vec::new(),
    };
    let marker: Vec<char> = match &r.marker {
        Some(m) => {
            let mut x = chars_of("; ");
            let mc = chars_of(m.as_str());
            extend_chars(&mut x, mc.as_slice());
            x
        },
        None => Vec::new(),
    };
    extend_chars(&mut out, extras.as_slice());
    extend_chars(&mut out, pin.as_slice());
    extend_chars(&mut out, marker.as_slice());
    string_from_chars(out.as_slice())
}

} // verus!
