//! Python packages named with PEP 440 version specifiers (`name>=1.2.3`).
use vstd::prelude::*;
use std::str::FromStr;
use pep440_rs::Operator as Pep440Operator;
use crate::error::Error;
use crate::text::{chars_of, lemma_split_char_nonempty, slice_to_vec, split_char, split_chars, str_eq, string_from_chars};

pub mod dist_info;
pub mod installer;
pub mod python;

verus! {

/// A PEP 440 comparison operator.
#[derive(Clone, Copy, Debug, PartialEq, Eq, Structural)]
pub enum Operator {
    Equal,
    EqualStar,
    ExactEqual,
    NotEqual,
    NotEqualStar,
    TildeEqual,
    LessThan,
    LessThanEqual,
    GreaterThan,
    GreaterThanEqual,
}

/// The text an operator displays as; the wildcard forms display without their star.
pub open spec fn operator_text(op: Operator) -> Seq<char> {
    match op {
        Operator::Equal => "=="@,
        Operator::EqualStar => "=="@,
        Operator::ExactEqual => "==="@,
        Operator::NotEqual => "!="@,
        Operator::NotEqualStar => "!="@,
        Operator::TildeEqual => "~="@,
        Operator::LessThan => "<"@,
        Operator::LessThanEqual => "<="@,
        Operator::GreaterThan => ">"@,
        Operator::GreaterThanEqual => ">="@,
    }
}

/// The operator a text names; no text names a wildcard form.
pub open spec fn operator_named(s: Seq<char>) -> Option<Operator> {
    if s == "=="@ {
        Some(Operator::Equal)
    } else if s == "==="@ {
        Some(Operator::ExactEqual)
    } else if s == "!="@ {
        Some(Operator::NotEqual)
    } else if s == "~="@ {
        Some(Operator::TildeEqual)
    } else if s == "<"@ {
        Some(Operator::LessThan)
    } else if s == "<="@ {
        Some(Operator::LessThanEqual)
    } else if s == ">"@ {
        Some(Operator::GreaterThan)
    } else if s == ">="@ {
        Some(Operator::GreaterThanEqual)
    } else {
        None
    }
}

/// Whether an operator may be used with a version that has a local segment.
pub open spec fn is_local_compatible(op: Operator) -> bool {
    !(op == Operator::GreaterThan || op == Operator::GreaterThanEqual || op == Operator::LessThan
        || op == Operator::LessThanEqual || op == Operator::TildeEqual || op == Operator::EqualStar
        || op == Operator::NotEqualStar)
}

impl Operator {
    /// The text the operator displays as.
    pub fn as_str(&self) -> (r: &'static str)
        ensures
            r@ == operator_text(*self),
    {
        match self {
            Operator::Equal => "==",
            Operator::EqualStar => "==",
            Operator::ExactEqual => "===",
            Operator::NotEqual => "!=",
            Operator::NotEqualStar => "!=",
            Operator::TildeEqual => "~=",
            Operator::LessThan => "<",
            Operator::LessThanEqual => "<=",
            Operator::GreaterThan => ">",
            Operator::GreaterThanEqual => ">=",
        }
    }

    /// The operator a text names, if any.
    pub fn from_text(s: &str) -> (r: Option<Operator>)
        ensures
            r == operator_named(s@),
    {
        if str_eq(s, "==") {
            Some(Operator::Equal)
        } else if str_eq(s, "===") {
            Some(Operator::ExactEqual)
        } else if str_eq(s, "!=") {
            Some(Operator::NotEqual)
        } else if str_eq(s, "~=") {
            Some(Operator::TildeEqual)
        } else if str_eq(s, "<") {
            Some(Operator::LessThan)
        } else if str_eq(s, "<=") {
            Some(Operator::LessThanEqual)
        } else if str_eq(s, ">") {
            Some(Operator::GreaterThan)
        } else if str_eq(s, ">=") {
            Some(Operator::GreaterThanEqual)
        } else {
            None
        }
    }

    /// Whether the operator may be used with a version that has a local segment.
    pub fn local_compatible(&self) -> (r: bool)
        ensures
            r == is_local_compatible(*self),
    {
        match self {
            Operator::GreaterThan | Operator::GreaterThanEqual | Operator::LessThan
            | Operator::LessThanEqual | Operator::TildeEqual | Operator::EqualStar
            | Operator::NotEqualStar => false,
            _ => true,
        }
    }
}

/// What `pep440_rs::VersionSpecifier::from_str` gives for the text of one
/// specifier: its operator and the text of its version, or the text of the
/// parse error.
pub uninterp spec fn pep440_specifier(s: Seq<char>) -> Result<(Operator, Seq<char>), Seq<char>>;

/// The specifiers as plain values.
pub open spec fn specifiers_view(v: Seq<(Operator, String)>) -> Seq<(Operator, Seq<char>)> {
    v.map_values(|p: (Operator, String)| (p.0, p.1@))
}

/// Each piece read as one specifier, in order; the first piece that is no
/// specifier gives its error.
pub open spec fn specifier_pieces(ps: Seq<Seq<char>>) -> Result<Seq<(Operator, Seq<char>)>, Seq<char>>
    decreases ps.len(),
{
    if ps.len() == 0 {
        Ok(Seq::empty())
    } else {
        match specifier_pieces(ps.drop_last()) {
            Err(m) => Err(m),
            Ok(init) => match pep440_specifier(ps.last()) {
                Ok(x) => Ok(init.push(x)),
                Err(m) => Err(m),
            },
        }
    }
}

/// A comma-separated list of specifiers, read in the order written: none
/// for an empty text, else one from each comma-separated piece.
pub open spec fn pep440_specifiers(s: Seq<char>) -> Result<Seq<(Operator, Seq<char>)>, Seq<char>> {
    if s.len() == 0 {
        Ok(Seq::empty())
    } else {
        specifier_pieces(split_char(s, ','))
    }
}

/// Parse one version specifier with `pep440_rs::VersionSpecifier::from_str`;
/// it comes back as its operator and its version's text, an error as its text.
#[verifier::external_body]
fn parse_specifier(text: &str) -> (r: Result<(Operator, String), String>)
    ensures
        match r {
            Ok(v) => pep440_specifier(text@) == Ok::<(Operator, Seq<char>), Seq<char>>((v.0, v.1@)),
            Err(e) => pep440_specifier(text@) == Err::<(Operator, Seq<char>), Seq<char>>(e@),
        },
{
    match pep440_rs::VersionSpecifier::from_str(text) {
        Ok(sp) => Ok((match sp.operator() {
            Pep440Operator::Equal => Operator::Equal, Pep440Operator::EqualStar => Operator::EqualStar,
            Pep440Operator::ExactEqual => Operator::ExactEqual, Pep440Operator::NotEqual => Operator::NotEqual,
            Pep440Operator::NotEqualStar => Operator::NotEqualStar, Pep440Operator::TildeEqual => Operator::TildeEqual,
            Pep440Operator::LessThan => Operator::LessThan, Pep440Operator::LessThanEqual => Operator::LessThanEqual,
            Pep440Operator::GreaterThan => Operator::GreaterThan, Pep440Operator::GreaterThanEqual => Operator::GreaterThanEqual,
        }, sp.version().to_string())),
        Err(e) => Err(e.to_string()),
    }
}

/// Parse a comma-separated list of version specifiers in the order written
/// (see `pep440_specifiers`); a non-empty text that parses gives at least
/// one specifier.
pub fn parse_specifiers(text: &str) -> (r: Result<Vec<(Operator, String)>, String>)
    ensures
        match r {
            Ok(v) => pep440_specifiers(text@) == Ok::<Seq<(Operator, Seq<char>)>, Seq<char>>(specifiers_view(v@))
                && (text@.len() > 0 ==> v@.len() > 0),
            Err(e) => pep440_specifiers(text@) == Err::<Seq<(Operator, Seq<char>)>, Seq<char>>(e@),
        },
{
    let mut out: Vec<(Operator, String)> = Vec::new();
    if text.unicode_len() == 0 {
        assert(specifiers_view(out@) =~= Seq::<(Operator, Seq<char>)>::empty());
        return Ok(out);
    }
    let chars = chars_of(text);
    let pieces = split_chars(chars.as_slice(), ',');
    let ghost ps = split_char(text@, ',');
    proof {
        lemma_split_char_nonempty(text@, ',');
    }
    let mut i: usize = 0;
    assert(ps.take(0) =~= Seq::<Seq<char>>::empty());
    assert(specifiers_view(out@) =~= Seq::<(Operator, Seq<char>)>::empty());
    while i < pieces.len()
        invariant
            chars@ == text@,
            text@.len() > 0,
            ps == split_char(text@, ','),
            pieces@.len() == ps.len(),
            forall|j: int| 0 <= j < pieces@.len() ==> #[trigger] pieces@[j]@ == ps[j],
            i <= pieces@.len(),
            specifier_pieces(ps.take(i as int)) == Ok::<Seq<(Operator, Seq<char>)>, Seq<char>>(specifiers_view(out@)),
            out@.len() == i,
        decreases pieces@.len() - i,
    {
        proof {
            assert(ps.take(i + 1).drop_last() =~= ps.take(i as int));
            assert(ps.take(i + 1).last() == ps[i as int]);
        }
        let piece = string_from_chars(pieces[i].as_slice());
        match parse_specifier(piece.as_str()) {
            Ok(sp) => {
                let ghost before = out@;
                out.push(sp);
                assert(specifiers_view(out@) =~= specifiers_view(before).push((sp.0, sp.1@)));
            },
            Err(e) => {
                proof {
                    assert(piece@ == ps[i as int]);
                    assert(specifier_pieces(ps.take(i + 1)) == Err::<Seq<(Operator, Seq<char>)>, Seq<char>>(e@));
                    lemma_pieces_error_stays(ps, i as int + 1, e@);
                    assert(ps.take(ps.len() as int) =~= ps);
                }
                return Err(e);
            },
        }
        i = i + 1;
    }
    assert(ps.take(ps.len() as int) =~= ps);
    Ok(out)
}

/// Once a piece fails, every longer run of pieces fails with its error.
proof fn lemma_pieces_error_stays(ps: Seq<Seq<char>>, k: int, m: Seq<char>)
    requires
        0 <= k <= ps.len(),
        specifier_pieces(ps.take(k)) == Err::<Seq<(Operator, Seq<char>)>, Seq<char>>(m),
    ensures
        specifier_pieces(ps) == Err::<Seq<(Operator, Seq<char>)>, Seq<char>>(m),
    decreases ps.len() - k,
{
    if k < ps.len() {
        assert(ps.take(k + 1).drop_last() =~= ps.take(k));
        lemma_pieces_error_stays(ps, k + 1, m);
    } else {
        assert(ps.take(k) =~= ps);
    }
}

/// What `pep440_rs::Version::from_str` gives for a text: the version's
/// normalized text, the number of its release segments and whether it has a
/// local segment; nothing when the text is not a PEP 440 version.
pub uninterp spec fn pep440_version(s: Seq<char>) -> Option<(Seq<char>, nat, bool)>;

/// Parse a version with `pep440_rs::Version::from_str`, giving its display
/// text, the number of its release segments and whether it is local.
#[verifier::external_body]
pub(crate) fn parse_version(text: &str) -> (r: Option<(String, usize, bool)>)
    ensures
        match r {
            Some(v) => pep440_version(text@) == Some((v.0@, v.1 as nat, v.2)),
            None => pep440_version(text@) is None,
        },
{
    match pep440_rs::Version::from_str(text) {
        Ok(v) => Some((v.to_string(), v.release().len(), v.is_local())),
        Err(_) => None,
    }
}

/// Build a `pep440_rs::VersionSpecifier` with `VersionSpecifier::from_version`
/// from the operator and the version `pep440_rs::Version::from_str` reads,
/// and tell whether it was built.  In that source, building fails exactly
/// for a local version with an operator that does not allow one, and for
/// `~=` with fewer than two release segments (`specifier_allowed`); a text
/// that is no version builds nothing.
#[verifier::external_body]
fn specifier_builds(op: Operator, version: &str) -> (r: bool)
    ensures
        match pep440_version(version@) {
            Some(pv) => r == specifier_allowed(op, pv.1, pv.2),
            None => !r,
        },
{
    let op = match op {
        Operator::Equal => Pep440Operator::Equal, Operator::EqualStar => Pep440Operator::EqualStar,
        Operator::ExactEqual => Pep440Operator::ExactEqual, Operator::NotEqual => Pep440Operator::NotEqual,
        Operator::NotEqualStar => Pep440Operator::NotEqualStar, Operator::TildeEqual => Pep440Operator::TildeEqual,
        Operator::LessThan => Pep440Operator::LessThan, Operator::LessThanEqual => Pep440Operator::LessThanEqual,
        Operator::GreaterThan => Pep440Operator::GreaterThan, Operator::GreaterThanEqual => Pep440Operator::GreaterThanEqual,
    };
    match pep440_rs::Version::from_str(version) {
        Ok(v) => pep440_rs::VersionSpecifier::from_version(op, v).is_ok(),
        Err(_) => false,
    }
}

/// A version specifier: an operator and the text of a version.
#[derive(Clone, Debug)]
pub struct VersionSpecifier {
    pub operator: Operator,
    pub version: String,
}

impl View for VersionSpecifier {
    type V = (Operator, Seq<char>);

    open spec fn view(&self) -> (Operator, Seq<char>) {
        (self.operator, self.version@)
    }
}

/// A Python package: its name and, optionally, one version specifier.
#[derive(Clone, Debug)]
pub struct PythonPackage {
    /// The name of the package.
    pub name: String,
    /// The package's version specifier, such as `>1.2.3`.
    pub version_specifier: Option<VersionSpecifier>,
}

/// The view of an optional specifier.
pub open spec fn specifier_view(s: Option<VersionSpecifier>) -> Option<(Operator, Seq<char>)> {
    match s {
        Some(v) => Some(v@),
        None => None,
    }
}

impl View for PythonPackage {
    type V = (Seq<char>, Option<(Operator, Seq<char>)>);

    open spec fn view(&self) -> (Seq<char>, Option<(Operator, Seq<char>)>) {
        (self.name@, specifier_view(self.version_specifier))
    }
}

/// The operator asked for: `==` when none is given.
pub open spec fn requested_operator(operator: Option<Seq<char>>) -> Option<Operator> {
    match operator {
        Some(o) => operator_named(o),
        None => Some(Operator::Equal),
    }
}

/// Whether `pep440_rs` builds a specifier from an operator and a parsed
/// version: a local version needs a local-compatible operator, and `~=`
/// needs at least two release segments (see `specifier_builds`).
pub open spec fn specifier_allowed(op: Operator, release_len: nat, local: bool) -> bool {
    !(local && !is_local_compatible(op)) && !(op == Operator::TildeEqual && release_len < 2)
}

/// The view of an optional string slice.
pub open spec fn opt_str_view(o: Option<&str>) -> Option<Seq<char>> {
    match o {
        Some(s) => Some(s@),
        None => None,
    }
}

/// Whether a character may start the version specifiers of a package string.
pub open spec fn is_operator_char(c: char) -> bool {
    c == '=' || c == '~' || c == '!' || c == '>' || c == '<'
}

/// The position of the first operator character of `s` (its length when there is none).
pub open spec fn specifier_start(s: Seq<char>) -> nat
    decreases s.len(),
{
    if s.len() == 0 {
        0
    } else if is_operator_char(s[0]) {
        0
    } else {
        1 + specifier_start(s.drop_first())
    }
}

/// `i` is the position of the first operator character of `s`.
pub proof fn lemma_specifier_start(s: Seq<char>, i: int)
    requires
        0 <= i <= s.len(),
        forall|j: int| 0 <= j < i ==> !#[trigger] is_operator_char(s[j]),
        i == s.len() || is_operator_char(s[i]),
    ensures
        specifier_start(s) == i,
    decreases i,
{
    if i > 0 {
        let t = s.drop_first();
        assert forall|j: int| 0 <= j < i - 1 implies !#[trigger] is_operator_char(t[j]) by {
            assert(t[j] == s[j + 1]);
        }
        assert(!is_operator_char(s[0]));
        lemma_specifier_start(t, i - 1);
    }
}

/// What reading a package string gives: the text before the first operator
/// character is the name and the rest holds the specifiers, of which the
/// first is kept; without specifiers the whole text is the name.  A failed
/// parse gives the parser's message.
pub open spec fn spec_package(s: Seq<char>) -> Result<(Seq<char>, Option<(Operator, Seq<char>)>), Seq<char>> {
    let k = specifier_start(s);
    if k == s.len() {
        Ok((s, None))
    } else {
        match pep440_specifiers(s.skip(k as int)) {
            Ok(v) => if v.len() > 0 {
                Ok((s.take(k as int), Some(v[0])))
            } else {
                Ok((s, None))
            },
            Err(m) => Err(m),
        }
    }
}

/// Split a package string at its first operator character.
pub fn split_package_string(s: &str) -> (r: (String, String))
    ensures
        specifier_start(s@) <= s@.len(),
        r.0@ == s@.take(specifier_start(s@) as int),
        r.1@ == s@.skip(specifier_start(s@) as int),
{
    let v = chars_of(s);
    let mut i: usize = 0;
    while i < v.len() && !(v[i] == '=' || v[i] == '~' || v[i] == '!' || v[i] == '>' || v[i] == '<')
        invariant
            v@ == s@,
            i <= v@.len(),
            forall|j: int| 0 <= j < i ==> !#[trigger] is_operator_char(v@[j]),
        decreases v@.len() - i,
    {
        i = i + 1;
    }
    proof {
        lemma_specifier_start(s@, i as int);
    }
    let name = slice_to_vec(v.as_slice(), 0, i);
    let rest = slice_to_vec(v.as_slice(), i, v.len());
    assert(name@ =~= s@.take(i as int));
    assert(rest@ =~= s@.skip(i as int));
    (string_from_chars(name.as_slice()), string_from_chars(rest.as_slice()))
}

impl PythonPackage {
    /// A package from its name, an optional operator (`==` when absent) and a version.
    pub fn from_str_parts(name: &str, operator: Option<&str>, version: &str) -> (r: Result<PythonPackage, Error>)
        ensures
            requested_operator(opt_str_view(operator)) is None ==> (r matches Err(Error::PyPackageInvalidVersionOperator(m))
                && Some(m@) == opt_str_view(operator)),
            requested_operator(opt_str_view(operator)) is Some && pep440_version(version@) is None ==>
                (r matches Err(Error::PyPackageInvalidVersion(m)) && m@ == version@),
            match (requested_operator(opt_str_view(operator)), pep440_version(version@)) {
                (Some(op), Some(pv)) => if specifier_allowed(op, pv.1, pv.2) {
                    r matches Ok(p) && p@ == (name@, Some((op, pv.0)))
                } else {
                    r matches Err(Error::PyPackageVersionSpecifierError)
                },
                _ => true,
            },
    {
        let op = match operator {
            Some(it) => match Operator::from_text(it) {
                Some(o) => o,
                None => return Err(Error::PyPackageInvalidVersionOperator(it.to_owned())),
            },
            None => Operator::Equal,
        };
        let (text, _release_len, _local) = match parse_version(version) {
            Some(v) => v,
            None => return Err(Error::PyPackageInvalidVersion(version.to_owned())),
        };
        if !specifier_builds(op, version) {
            return Err(Error::PyPackageVersionSpecifierError);
        }
        Ok(PythonPackage { name: name.to_owned(), version_specifier: Some(VersionSpecifier { operator: op, version: text }) })
    }

    /// A package from a package string and the specifiers parsed from its
    /// specifier part: the first specifier is kept; with none, the whole
    /// string is the name.
    pub fn from_parsed_specifiers(whole: &str, name: &str, parsed: Result<Vec<(Operator, String)>, String>) -> (r: Result<PythonPackage, Error>)
        ensures
            match parsed {
                Ok(v) => if v@.len() > 0 {
                    r matches Ok(p) && p@ == (name@, Some((v@[0].0, v@[0].1@)))
                } else {
                    r matches Ok(p) && p@ == (whole@, None::<(Operator, Seq<char>)>)
                },
                Err(m) => r matches Err(Error::PyPackageInitalizationError(e)) && e@ == m@,
            },
    {
        match parsed {
            Ok(specs) => {
                if specs.len() > 0 {
                    let first = &specs[0];
                    Ok(PythonPackage {
                        name: name.to_owned(),
                        version_specifier: Some(VersionSpecifier { operator: first.0, version: first.1.clone() }),
                    })
                } else {
                    Ok(PythonPackage { name: whole.to_owned(), version_specifier: None })
                }
            },
            Err(m) => Err(Error::PyPackageInitalizationError(m)),
        }
    }

    /// Read a package string such as `requests==2.28.1` (see `spec_package`).
    pub fn from_str(s: &str) -> (r: Result<PythonPackage, Error>)
        ensures
            match spec_package(s@) {
                Ok(v) => r matches Ok(p) && p@ == v,
                Err(m) => r matches Err(Error::PyPackageInitalizationError(e)) && e@ == m,
            },
    {
        let (name, spec_str) = split_package_string(s);
        if spec_str.unicode_len() == 0 {
            assert(s@.take(s@.len() as int) =~= s@);
            return Ok(PythonPackage { name: s.to_owned(), version_specifier: None });
        }
        let parsed = parse_specifiers(spec_str.as_str());
        let ghost g = parsed;
        let r = PythonPackage::from_parsed_specifiers(s, name.as_str(), parsed);
        proof {
            match g {
                Ok(v) => {
                    if v@.len() > 0 {
                        assert(specifiers_view(v@)[0] == (v@[0].0, v@[0].1@));
                    }
                },
                Err(_) => {},
            }
        }
        r
    }

    /// The operator of the package's specifier, if it has one.
    pub fn operator(&self) -> (r: Option<&Operator>)
        ensures
            match self.version_specifier {
                Some(v) => r == Some(&v.operator),
                None => r is None,
            },
    {
        match &self.version_specifier {
            Some(specifier) => Some(&specifier.operator),
            None => None,
        }
    }

    /// The version text of the package's specifier, if it has one.
    pub fn version(&self) -> (r: Option<&String>)
        ensures
            match self.version_specifier {
                Some(v) => r matches Some(t) && t@ == v.version@,
                None => r is None,
            },
    {
        match &self.version_specifier {
            Some(specifier) => Some(&specifier.version),
            None => None,
        }
    }

    /// The text the package displays as: the name, then the operator and the
    /// version when it has a specifier.
    pub fn to_string(&self) -> (s: String)
        ensures
            s@ == package_display(self@),
    {
        match &self.version_specifier {
            Some(specifier) => {
                let mut out = chars_of(self.name.as_str());
                let op = chars_of(specifier.operator.as_str());
                crate::text::extend_chars(&mut out, op.as_slice());
                let ver = chars_of(specifier.version.as_str());
                crate::text::extend_chars(&mut out, ver.as_slice());
                string_from_chars(out.as_slice())
            },
            None => self.name.clone(),
        }
    }
}

/// The text of a package: its name, then its operator and version when it has a specifier.
pub open spec fn package_display(p: (Seq<char>, Option<(Operator, Seq<char>)>)) -> Seq<char> {
    match p.1 {
        Some(spec) => p.0 + operator_text(spec.0) + spec.1,
        None => p.0,
    }
}

} // verus!

verus! {

/// Reading back the text of an operator gives the operator, except for the
/// wildcard forms, which display as their plain forms.
pub proof fn lemma_operator_text_roundtrip(op: Operator)
    ensures
        op != Operator::EqualStar && op != Operator::NotEqualStar ==> operator_named(operator_text(op)) == Some(op),
        op == Operator::EqualStar ==> operator_named(operator_text(op)) == Some(Operator::Equal),
        op == Operator::NotEqualStar ==> operator_named(operator_text(op)) == Some(Operator::NotEqual),
{
    reveal_strlit("==");
    reveal_strlit("===");
    reveal_strlit("!=");
    reveal_strlit("~=");
    reveal_strlit("<");
    reveal_strlit("<=");
    reveal_strlit(">");
    reveal_strlit(">=");
    let eq = "=="@;
    let eee = "==="@;
    let ne = "!="@;
    let te = "~="@;
    let lt = "<"@;
    let le = "<="@;
    let gt = ">"@;
    let ge = ">="@;
    assert(eq[0] == '=' && ne[0] == '!' && te[0] == '~' && le[0] == '<' && ge[0] == '>' && lt[0] == '<' && gt[0] == '>');
    assert(eq.len() == 2 && eee.len() == 3 && ne.len() == 2 && te.len() == 2 && lt.len() == 1 && le.len() == 2 && gt.len() == 1 && ge.len() == 2);
    assert(ne != eq);
    assert(te != eq && te != ne);
    assert(le != eq && le != ne && le != te);
    assert(ge != eq && ge != ne && ge != te && ge != le);
    assert(gt != lt);
}

} // verus!
