//! Python packages with a plain operator and version text.
use vstd::prelude::*;
use crate::package::is_operator_char;
use crate::text::{chars_of, contains_pattern, extend_chars, find_pattern, first_occurrence, is_first_occurrence, lemma_first_occurrence_unique, occurs_at, split_once, split_once_exec, str_eq, string_from_chars};

verus! {

/// Python package version specifiers (PEP 440 operators).
#[derive(Clone, Copy, Debug, PartialEq, Eq, Structural)]
pub enum VersionSpecifier {
    /// `~=`
    Compatible,
    /// `==`, the default
    Matching,
    /// `!=`
    Exclusion,
    /// `>=`
    GreaterIncluding,
    /// `<=`
    LesserIncluding,
    /// `<`
    GreaterExcluding,
    /// `>`
    LesserExcluding,
    /// `===`
    ArbitraryEqual,
}

/// The text of a specifier.
pub open spec fn specifier_text(v: VersionSpecifier) -> Seq<char> {
    match v {
        VersionSpecifier::Compatible => "~="@,
        VersionSpecifier::Matching => "=="@,
        VersionSpecifier::Exclusion => "!="@,
        VersionSpecifier::ArbitraryEqual => "==="@,
        VersionSpecifier::LesserIncluding => "<="@,
        VersionSpecifier::LesserExcluding => "<"@,
        VersionSpecifier::GreaterIncluding => ">="@,
        VersionSpecifier::GreaterExcluding => ">"@,
    }
}

/// The specifier a text names.
pub open spec fn specifier_named(s: Seq<char>) -> Option<VersionSpecifier> {
    if s == "~="@ {
        Some(VersionSpecifier::Compatible)
    } else if s == "=="@ {
        Some(VersionSpecifier::Matching)
    } else if s == "!="@ {
        Some(VersionSpecifier::Exclusion)
    } else if s == "==="@ {
        Some(VersionSpecifier::ArbitraryEqual)
    } else if s == "<="@ {
        Some(VersionSpecifier::LesserIncluding)
    } else if s == "<"@ {
        Some(VersionSpecifier::LesserExcluding)
    } else if s == ">="@ {
        Some(VersionSpecifier::GreaterIncluding)
    } else if s == ">"@ {
        Some(VersionSpecifier::GreaterExcluding)
    } else {
        None
    }
}

impl VersionSpecifier {
    /// The text of the specifier, such as `~=`.
    pub fn to_string(&self) -> (s: String)
        ensures
            s@ == specifier_text(*self),
    {
        let t = match self {
            VersionSpecifier::Compatible => "~=",
            VersionSpecifier::Matching => "==",
            VersionSpecifier::Exclusion => "!=",
            VersionSpecifier::ArbitraryEqual => "===",
            VersionSpecifier::LesserIncluding => "<=",
            VersionSpecifier::LesserExcluding => "<",
            VersionSpecifier::GreaterIncluding => ">=",
            VersionSpecifier::GreaterExcluding => ">",
        };
        t.to_owned()
    }

    /// The specifier a text names; any other text is an error.
    pub fn from_str(s: &str) -> (r: Result<VersionSpecifier, ()>)
        ensures
            match specifier_named(s@) {
                Some(v) => r == Ok::<VersionSpecifier, ()>(v),
                None => r is Err,
            },
    {
        if str_eq(s, "~=") {
            Ok(VersionSpecifier::Compatible)
        } else if str_eq(s, "==") {
            Ok(VersionSpecifier::Matching)
        } else if str_eq(s, "!=") {
            Ok(VersionSpecifier::Exclusion)
        } else if str_eq(s, "===") {
            Ok(VersionSpecifier::ArbitraryEqual)
        } else if str_eq(s, "<=") {
            Ok(VersionSpecifier::LesserIncluding)
        } else if str_eq(s, "<") {
            Ok(VersionSpecifier::LesserExcluding)
        } else if str_eq(s, ">=") {
            Ok(VersionSpecifier::GreaterIncluding)
        } else if str_eq(s, ">") {
            Ok(VersionSpecifier::GreaterExcluding)
        } else {
            Err(())
        }
    }
}

impl Default for VersionSpecifier {
    /// `==` is the default specifier.
    fn default() -> (v: VersionSpecifier)
        ensures
            v == VersionSpecifier::Matching,
    {
        VersionSpecifier::Matching
    }
}

/// The operator texts, character by character.
proof fn lemma_operator_literals()
    ensures
        "~="@ == seq!['~', '='],
        "=="@ == seq!['=', '='],
        "!="@ == seq!['!', '='],
        "==="@ == seq!['=', '=', '='],
        "<="@ == seq!['<', '='],
        "<"@ == seq!['<'],
        ">="@ == seq!['>', '='],
        ">"@ == seq!['>'],
{
    reveal_strlit("~=");
    reveal_strlit("==");
    reveal_strlit("!=");
    reveal_strlit("===");
    reveal_strlit("<=");
    reveal_strlit("<");
    reveal_strlit(">=");
    reveal_strlit(">");
    assert("~="@ =~= seq!['~', '=']);
    assert("=="@ =~= seq!['=', '=']);
    assert("!="@ =~= seq!['!', '=']);
    assert("==="@ =~= seq!['=', '=', '=']);
    assert("<="@ =~= seq!['<', '=']);
    assert("<"@ =~= seq!['<']);
    assert(">="@ =~= seq!['>', '=']);
    assert(">"@ =~= seq!['>']);
}

/// Texts whose first characters differ are different.
proof fn lemma_first_char_differs(a: Seq<char>, b: Seq<char>)
    requires
        a.len() > 0,
        b.len() > 0,
        a[0] != b[0],
    ensures
        a != b,
{
}

/// Reading back the text of a specifier gives the specifier.
pub proof fn lemma_specifier_text_roundtrip(v: VersionSpecifier)
    ensures
        specifier_named(specifier_text(v)) == Some(v),
{
    lemma_operator_literals();
    let tilde = seq!['~', '='];
    let eq = seq!['=', '='];
    let bang = seq!['!', '='];
    let le = seq!['<', '='];
    let ge = seq!['>', '='];
    let lt = seq!['<'];
    let gt = seq!['>'];
    let eee = seq!['=', '=', '='];
    lemma_first_char_differs(eq, tilde);
    lemma_first_char_differs(bang, tilde);
    lemma_first_char_differs(bang, eq);
    lemma_first_char_differs(le, tilde);
    lemma_first_char_differs(le, eq);
    lemma_first_char_differs(le, bang);
    lemma_first_char_differs(ge, tilde);
    lemma_first_char_differs(ge, eq);
    lemma_first_char_differs(ge, bang);
    lemma_first_char_differs(ge, le);
    lemma_first_char_differs(gt, lt);
    assert(eee.len() != tilde.len() && eee.len() != eq.len() && eee.len() != bang.len());
    assert(lt.len() != tilde.len() && lt.len() != eq.len() && lt.len() != bang.len() && lt.len() != eee.len() && lt.len() != le.len());
    assert(gt.len() != tilde.len() && gt.len() != eq.len() && gt.len() != bang.len() && gt.len() != eee.len() && gt.len() != le.len() && gt.len() != ge.len());
    assert(ge.len() != eee.len() && ge.len() != lt.len());
    assert(le.len() != eee.len());
}

/// A Python package: a name, and optionally a specifier and a version.
pub struct PythonPackage {
    pub name: String,
    pub op: Option<VersionSpecifier>,
    pub version: Option<String>,
}

/// The view of an optional string.
pub open spec fn opt_string_view(o: Option<String>) -> Option<Seq<char>> {
    match o {
        Some(s) => Some(s@),
        None => None,
    }
}

/// The view of an optional string slice.
pub open spec fn opt_str_view(o: Option<&str>) -> Option<Seq<char>> {
    match o {
        Some(s) => Some(s@),
        None => None,
    }
}

/// The operator a package string is split at: the first of `==`, `~=`, `!=`,
/// `>=`, `<=`, `>`, `<`, `===` that occurs in it (`==` when none does).
pub open spec fn split_operator(s: Seq<char>) -> Seq<char> {
    if contains_pattern(s, "=="@) {
        "=="@
    } else if contains_pattern(s, "~="@) {
        "~="@
    } else if contains_pattern(s, "!="@) {
        "!="@
    } else if contains_pattern(s, ">="@) {
        ">="@
    } else if contains_pattern(s, "<="@) {
        "<="@
    } else if contains_pattern(s, ">"@) {
        ">"@
    } else if contains_pattern(s, "<"@) {
        "<"@
    } else if contains_pattern(s, "==="@) {
        "==="@
    } else {
        "=="@
    }
}

/// The text between the first and the second occurrence of `pat` in `s`
/// (or up to the end when it occurs once).
pub open spec fn second_piece(s: Seq<char>, pat: Seq<char>) -> Seq<char> {
    split_once(split_once(s, pat).1.unwrap(), pat).0
}

impl PythonPackage {
    /// The name, specifier and version of the package.
    pub open spec fn parts(&self) -> (Seq<char>, Option<VersionSpecifier>, Option<Seq<char>>) {
        (self.name@, self.op, opt_string_view(self.version))
    }

    /// A package from its name, an optional specifier text (`==` when absent)
    /// and an optional version.
    pub fn new(name: &str, op: Option<&str>, version: Option<&str>) -> (p: PythonPackage)
        requires
            op matches Some(o) ==> specifier_named(o@) is Some,
        ensures
            p.parts() == (name@, match op {
                Some(o) => specifier_named(o@),
                None => Some(VersionSpecifier::Matching),
            }, opt_str_view(version)),
    {
        let version = match version {
            Some(it) => Some(it.to_owned()),
            None => None,
        };
        match op {
            Some(operator) => {
                let spec = VersionSpecifier::from_str(operator).unwrap();
                PythonPackage { name: name.to_owned(), op: Some(spec), version }
            },
            None => PythonPackage { name: name.to_owned(), op: Some(VersionSpecifier::default()), version },
        }
    }

    /// A package from a package string: split at the first operator found in it
    /// (see `split_operator`), the name is the text before it and the version
    /// the text after it (up to a second occurrence); without an operator the
    /// whole string is the name.
    pub fn from(pkg_string: String) -> (p: PythonPackage)
        ensures
            contains_pattern(pkg_string@, split_operator(pkg_string@)) ==> p.parts() == (
                split_once(pkg_string@, split_operator(pkg_string@)).0,
                specifier_named(split_operator(pkg_string@)),
                Some(second_piece(pkg_string@, split_operator(pkg_string@))),
            ),
            !contains_pattern(pkg_string@, split_operator(pkg_string@)) ==> p.parts() == (
                pkg_string@,
                None::<VersionSpecifier>,
                None::<Seq<char>>,
            ),
            forall|name: Seq<char>, o: Seq<char>, v: Seq<char>|
                #![trigger reads_back_operator(o), free_of_operators(name), free_of_operators(v)]
                reads_back_operator(o) && free_of_operators(name) && free_of_operators(v) && pkg_string@ == name + o + v
                ==> p.parts().0 == name && p.parts().2 == Some(v) && p.parts().1 is Some && specifier_text(p.parts().1.unwrap()) == o,
    {
        proof {
            assert forall|name: Seq<char>, o: Seq<char>, v: Seq<char>|
                #![trigger reads_back_operator(o), free_of_operators(name), free_of_operators(v)]
                reads_back_operator(o) && free_of_operators(name) && free_of_operators(v) && pkg_string@ == name + o + v
                implies contains_pattern(pkg_string@, split_operator(pkg_string@))
                    && split_once(pkg_string@, split_operator(pkg_string@)).0 == name
                    && second_piece(pkg_string@, split_operator(pkg_string@)) == v
                    && specifier_named(split_operator(pkg_string@)) is Some && specifier_text(specifier_named(split_operator(pkg_string@)).unwrap()) == o by {
                lemma_package_string_roundtrip(name, o, v);
                lemma_operator_literals();
            }
        }
        let s = chars_of(pkg_string.as_str());
        let ops: [&str; 8] = ["==", "~=", "!=", ">=", "<=", ">", "<", "==="];
        let mut op: &str = "==";
        let mut found = false;
        let mut i: usize = 0;
        let ghost mut k: int = 0;
        proof {
            lemma_operator_literals();
        }
        while i < 8
            invariant
                s@ == pkg_string@,
                i <= 8,
                ops@.len() == 8,
                ops@[0]@ == "=="@, ops@[1]@ == "~="@, ops@[2]@ == "!="@, ops@[3]@ == ">="@,
                ops@[4]@ == "<="@, ops@[5]@ == ">"@, ops@[6]@ == "<"@, ops@[7]@ == "==="@,
                !found ==> forall|j: int| 0 <= j < i ==> !#[trigger] contains_pattern(s@, ops@[j]@),
                !found ==> op@ == "=="@,
                found ==> 0 <= k < i && op@ == ops@[k]@ && contains_pattern(s@, op@)
                    && forall|j: int| 0 <= j < k ==> !#[trigger] contains_pattern(s@, ops@[j]@),
            decreases 8 - i,
        {
            if !found {
                let candidate = chars_of(ops[i]);
                match find_pattern(s.as_slice(), candidate.as_slice()) {
                    Some(at) => {
                        assert(crate::text::occurs_at(s@, candidate@, at as int));
                        op = ops[i];
                        found = true;
                        proof { k = i as int; }
                    },
                    None => {},
                }
            }
            i = i + 1;
        }
        let ghost chosen = split_operator(pkg_string@);
        assert(found ==> op@ == chosen);
        assert(!found ==> !contains_pattern(pkg_string@, chosen));
        let pat = chars_of(op);
        let (name, rest) = split_once_exec(s.as_slice(), pat.as_slice());
        match rest {
            Some(after) => {
                assert(found);
                proof {
                    assert(op@ == ops@[k]@);
                    assert(0 <= k < 8);
                    if k == 0 { lemma_specifier_text_roundtrip(VersionSpecifier::Matching); }
                    if k == 1 { lemma_specifier_text_roundtrip(VersionSpecifier::Compatible); }
                    if k == 2 { lemma_specifier_text_roundtrip(VersionSpecifier::Exclusion); }
                    if k == 3 { lemma_specifier_text_roundtrip(VersionSpecifier::GreaterIncluding); }
                    if k == 4 { lemma_specifier_text_roundtrip(VersionSpecifier::LesserIncluding); }
                    if k == 5 { lemma_specifier_text_roundtrip(VersionSpecifier::GreaterExcluding); }
                    if k == 6 { lemma_specifier_text_roundtrip(VersionSpecifier::LesserExcluding); }
                    if k == 7 { lemma_specifier_text_roundtrip(VersionSpecifier::ArbitraryEqual); }
                }
                let (version, _) = split_once_exec(after.as_slice(), pat.as_slice());
                let spec = VersionSpecifier::from_str(op).unwrap();
                PythonPackage {
                    name: string_from_chars(name.as_slice()),
                    op: Some(spec),
                    version: Some(string_from_chars(version.as_slice())),
                }
            },
            None => {
                assert(!found);
                PythonPackage { name: pkg_string, op: None, version: None }
            },
        }
    }

    /// The name of the package.
    pub fn string(&self) -> (r: &String)
        ensures
            r@ == self.name@,
    {
        &self.name
    }

    /// The text the package displays as: the name, then (when there is a
    /// version) the specifier (`==` when absent) and the version.
    pub fn to_string(&self) -> (s: String)
        ensures
            s@ == python_package_display(self.parts()),
    {
        match &self.version {
            Some(ver) => {
                let mut out = chars_of(self.name.as_str());
                let op = match &self.op {
                    Some(o) => o.to_string(),
                    None => "==".to_owned(),
                };
                let opc = chars_of(op.as_str());
                extend_chars(&mut out, opc.as_slice());
                let vc = chars_of(ver.as_str());
                extend_chars(&mut out, vc.as_slice());
                string_from_chars(out.as_slice())
            },
            None => {
                let out = chars_of(self.name.as_str());
                string_from_chars(out.as_slice())
            },
        }
    }
}

/// The text of a package: its name, then, when it has a version, its
/// specifier (`==` when absent) and the version.
pub open spec fn python_package_display(p: (Seq<char>, Option<VersionSpecifier>, Option<Seq<char>>)) -> Seq<char> {
    match p.2 {
        Some(v) => p.0 + (match p.1 {
            Some(op) => specifier_text(op),
            None => "=="@,
        }) + v,
        None => p.0,
    }
}

/// The package string of a name, an optional operator and an optional
/// version: the name, then (when there is a version) the operator (`==` when
/// absent) and the version.
pub open spec fn spec_package_string(name: Seq<char>, op: Option<Seq<char>>, version: Option<Seq<char>>) -> Seq<char> {
    match version {
        Some(v) => name + (match op {
            Some(o) => o,
            None => "=="@,
        }) + v,
        None => name,
    }
}

/// Build a package string from its parts (see `spec_package_string`).
pub fn package_string_from_parts(name: &str, op: &Option<&str>, version: &Option<&str>) -> (s: String)
    ensures
        s@ == spec_package_string(name@, opt_str_view(*op), opt_str_view(*version)),
{
    let mut out = chars_of(name);
    let chosen: &str = match op {
        Some(it) => it,
        None => "==",
    };
    match version {
        Some(v) => {
            let oc = chars_of(chosen);
            extend_chars(&mut out, oc.as_slice());
            let vc = chars_of(v);
            extend_chars(&mut out, vc.as_slice());
        },
        None => {},
    }
    string_from_chars(out.as_slice())
}

/// Displaying a package made from parts gives the package string of those parts.
pub proof fn lemma_display_of_new_is_package_string(name: Seq<char>, op: Option<Seq<char>>, version: Option<Seq<char>>)
    requires
        op matches Some(o) ==> specifier_named(o) is Some,
    ensures
        python_package_display((name, match op {
            Some(o) => specifier_named(o),
            None => Some(VersionSpecifier::Matching),
        }, version)) == spec_package_string(name, op, version),
{
    lemma_operator_literals();
    match op {
        Some(o) => {
            let v = specifier_named(o).unwrap();
            lemma_specifier_text_roundtrip(v);
            assert(specifier_text(v) == o);
        },
        None => {},
    }
}

} // verus!

verus! {

/// A text without operator characters (`=`, `~`, `!`, `>`, `<`).
pub open spec fn free_of_operators(t: Seq<char>) -> bool {
    forall|i: int| 0 <= i < t.len() ==> !is_operator_char(#[trigger] t[i])
}

/// A text made only of operator characters.
pub open spec fn all_operators(t: Seq<char>) -> bool {
    forall|i: int| 0 <= i < t.len() ==> is_operator_char(#[trigger] t[i])
}

/// In `name + o + v`, with `o` made of operator characters and the name and
/// version free of them, a pattern of operator characters occurs only
/// within `o`.
proof fn lemma_operator_window(name: Seq<char>, o: Seq<char>, v: Seq<char>, pat: Seq<char>, i: int)
    requires
        free_of_operators(name),
        free_of_operators(v),
        all_operators(pat),
        pat.len() > 0,
        occurs_at(name + o + v, pat, i),
    ensures
        name.len() <= i,
        i + pat.len() <= name.len() + o.len(),
        occurs_at(o, pat, i - name.len()),
{
    let s = name + o + v;
    let n = name.len() as int;
    assert(s.subrange(i, i + pat.len())[0] == pat[0]);
    assert(s[i] == pat[0]);
    assert(is_operator_char(pat[0]));
    if i < n {
        assert(s[i] == name[i]);
    }
    let last = i + pat.len() - 1;
    assert(s.subrange(i, i + pat.len())[pat.len() - 1] == pat[pat.len() - 1]);
    assert(s[last] == pat[pat.len() - 1]);
    assert(is_operator_char(pat[pat.len() - 1]));
    if last >= n + o.len() {
        assert(s[last] == v[last - n - o.len()]);
    }
    assert(o.subrange(i - n, i - n + pat.len()) =~= s.subrange(i, i + pat.len()));
}

/// A pattern of operator characters occurs in `name + o + v` exactly when
/// it occurs in `o`.
proof fn lemma_operator_contains(name: Seq<char>, o: Seq<char>, v: Seq<char>, pat: Seq<char>)
    requires
        free_of_operators(name),
        free_of_operators(v),
        all_operators(pat),
        pat.len() > 0,
    ensures
        contains_pattern(name + o + v, pat) == contains_pattern(o, pat),
{
    let s = name + o + v;
    if contains_pattern(s, pat) {
        let i = choose|i: int| #[trigger] occurs_at(s, pat, i);
        lemma_operator_window(name, o, v, pat, i);
    }
    if contains_pattern(o, pat) {
        let j = choose|j: int| #[trigger] occurs_at(o, pat, j);
        assert(s.subrange(name.len() + j, name.len() + j + pat.len()) =~= o.subrange(j, j + pat.len()));
        assert(occurs_at(s, pat, name.len() + j));
    }
}

/// Whether a pattern occurs in a text of at most two characters, told
/// character by character.
proof fn lemma_small_contains(o: Seq<char>, p: Seq<char>)
    requires
        1 <= o.len() <= 2,
        1 <= p.len() <= 3,
    ensures
        p.len() > o.len() ==> !contains_pattern(o, p),
        p.len() == 2 && o.len() == 2 ==> contains_pattern(o, p) == (p[0] == o[0] && p[1] == o[1]),
        p.len() == 1 && o.len() == 1 ==> contains_pattern(o, p) == (p[0] == o[0]),
        p.len() == 1 && o.len() == 2 ==> contains_pattern(o, p) == (p[0] == o[0] || p[0] == o[1]),
{
    if contains_pattern(o, p) {
        let i = choose|i: int| #[trigger] occurs_at(o, p, i);
        assert(o.subrange(i, i + p.len())[0] == p[0]);
        if p.len() == 2 {
            assert(o.subrange(i, i + p.len())[1] == p[1]);
        }
    }
    if p.len() <= o.len() {
        if p.len() == o.len() && p[0] == o[0] && (p.len() == 1 || p[1] == o[1]) {
            assert(o.subrange(0, p.len() as int) =~= p);
            assert(occurs_at(o, p, 0));
        }
        if p.len() == 1 && o.len() == 2 {
            if p[0] == o[0] {
                assert(o.subrange(0, 1) =~= p);
                assert(occurs_at(o, p, 0));
            } else if p[0] == o[1] {
                assert(o.subrange(1, 2) =~= p);
                assert(occurs_at(o, p, 1));
            }
        }
    }
}

/// The operators a package string reads back as written: `==`, `~=`, `!=`,
/// `>=`, `<=`, `>` and `<`.
pub open spec fn reads_back_operator(o: Seq<char>) -> bool {
    o == "=="@ || o == "~="@ || o == "!="@ || o == ">="@ || o == "<="@ || o == ">"@ || o == "<"@
}

/// In `name + o + v` a pattern of operator characters occurs exactly when it
/// occurs in `o`, for each of the patterns a package string is split at.
proof fn lemma_operator_patterns(name: Seq<char>, o: Seq<char>, v: Seq<char>)
    requires
        free_of_operators(name),
        free_of_operators(v),
    ensures
        contains_pattern(name + o + v, "=="@) == contains_pattern(o, "=="@),
        contains_pattern(name + o + v, "~="@) == contains_pattern(o, "~="@),
        contains_pattern(name + o + v, "!="@) == contains_pattern(o, "!="@),
        contains_pattern(name + o + v, ">="@) == contains_pattern(o, ">="@),
        contains_pattern(name + o + v, "<="@) == contains_pattern(o, "<="@),
        contains_pattern(name + o + v, ">"@) == contains_pattern(o, ">"@),
        contains_pattern(name + o + v, "<"@) == contains_pattern(o, "<"@),
        contains_pattern(name + o + v, "==="@) == contains_pattern(o, "==="@),
{
    lemma_operator_literals();
    assert(all_operators("=="@));
    assert(all_operators("~="@));
    assert(all_operators("!="@));
    assert(all_operators(">="@));
    assert(all_operators("<="@));
    assert(all_operators(">"@));
    assert(all_operators("<"@));
    assert(all_operators("==="@));
    lemma_operator_contains(name, o, v, "=="@);
    lemma_operator_contains(name, o, v, "~="@);
    lemma_operator_contains(name, o, v, "!="@);
    lemma_operator_contains(name, o, v, ">="@);
    lemma_operator_contains(name, o, v, "<="@);
    lemma_operator_contains(name, o, v, ">"@);
    lemma_operator_contains(name, o, v, "<"@);
    lemma_operator_contains(name, o, v, "==="@);
}

/// `==` is the first of the split patterns it holds.
proof fn lemma_split_operator_0(o: Seq<char>)
    requires
        o == seq!['=', '='],
    ensures
        split_operator(o) == o,
{
    lemma_operator_literals();
    lemma_small_contains(o, "=="@);
    assert(contains_pattern(o, "=="@));
}

/// `~=` is the first of the split patterns it holds.
#[verifier::spinoff_prover]
#[verifier::rlimit(40)]
proof fn lemma_split_operator_1(o: Seq<char>)
    requires
        o == seq!['~', '='],
    ensures
        split_operator(o) == o,
{
    lemma_operator_literals();
    lemma_small_contains(o, "=="@);
    assert(o[0] != '=');
    assert(!contains_pattern(o, "=="@));
    assert(o.subrange(0, 2) =~= "~="@);
    assert(occurs_at(o, "~="@, 0));
    assert(contains_pattern(o, "~="@));
    assert(split_operator(o) == "~="@);
}

/// `!=` is the first of the split patterns it holds.
proof fn lemma_split_operator_2(o: Seq<char>)
    requires
        o == seq!['!', '='],
    ensures
        split_operator(o) == o,
{
    lemma_operator_literals();
    lemma_small_contains(o, "=="@);
    lemma_small_contains(o, "~="@);
    lemma_small_contains(o, "!="@);
    assert(!contains_pattern(o, "=="@));
    assert(!contains_pattern(o, "~="@));
    assert(contains_pattern(o, "!="@));
}

/// `>=` is the first of the split patterns it holds.
proof fn lemma_split_operator_3(o: Seq<char>)
    requires
        o == seq!['>', '='],
    ensures
        split_operator(o) == o,
{
    lemma_operator_literals();
    lemma_small_contains(o, "=="@);
    lemma_small_contains(o, "~="@);
    lemma_small_contains(o, "!="@);
    lemma_small_contains(o, ">="@);
    assert(!contains_pattern(o, "=="@));
    assert(!contains_pattern(o, "~="@));
    assert(!contains_pattern(o, "!="@));
    assert(contains_pattern(o, ">="@));
}

/// `<=` is the first of the split patterns it holds.
proof fn lemma_split_operator_4(o: Seq<char>)
    requires
        o == seq!['<', '='],
    ensures
        split_operator(o) == o,
{
    lemma_operator_literals();
    lemma_small_contains(o, "=="@);
    lemma_small_contains(o, "~="@);
    lemma_small_contains(o, "!="@);
    lemma_small_contains(o, ">="@);
    lemma_small_contains(o, "<="@);
    assert(!contains_pattern(o, "=="@));
    assert(!contains_pattern(o, "~="@));
    assert(!contains_pattern(o, "!="@));
    assert(!contains_pattern(o, ">="@));
    assert(contains_pattern(o, "<="@));
}

/// `>` is the first of the split patterns it holds.
proof fn lemma_split_operator_5(o: Seq<char>)
    requires
        o == seq!['>'],
    ensures
        split_operator(o) == o,
{
    lemma_operator_literals();
    lemma_small_contains(o, "=="@);
    lemma_small_contains(o, "~="@);
    lemma_small_contains(o, "!="@);
    lemma_small_contains(o, ">="@);
    lemma_small_contains(o, "<="@);
    lemma_small_contains(o, ">"@);
    assert(!contains_pattern(o, "=="@));
    assert(!contains_pattern(o, "~="@));
    assert(!contains_pattern(o, "!="@));
    assert(!contains_pattern(o, ">="@));
    assert(!contains_pattern(o, "<="@));
    assert(contains_pattern(o, ">"@));
}

/// `<` is the first of the split patterns it holds.
proof fn lemma_split_operator_6(o: Seq<char>)
    requires
        o == seq!['<'],
    ensures
        split_operator(o) == o,
{
    lemma_operator_literals();
    lemma_small_contains(o, "=="@);
    lemma_small_contains(o, "~="@);
    lemma_small_contains(o, "!="@);
    lemma_small_contains(o, ">="@);
    lemma_small_contains(o, "<="@);
    lemma_small_contains(o, ">"@);
    lemma_small_contains(o, "<"@);
    assert(!contains_pattern(o, "=="@));
    assert(!contains_pattern(o, "~="@));
    assert(!contains_pattern(o, "!="@));
    assert(!contains_pattern(o, ">="@));
    assert(!contains_pattern(o, "<="@));
    assert(!contains_pattern(o, ">"@));
    assert(contains_pattern(o, "<"@));
}

/// Each operator that reads back is the first of the split patterns it holds.
proof fn lemma_operator_is_split_operator(o: Seq<char>)
    requires
        reads_back_operator(o),
    ensures
        split_operator(o) == o,
{
    lemma_operator_literals();
    if o == "=="@ {
        lemma_split_operator_0(o);
    } else if o == "~="@ {
        lemma_split_operator_1(o);
    } else if o == "!="@ {
        lemma_split_operator_2(o);
    } else if o == ">="@ {
        lemma_split_operator_3(o);
    } else if o == "<="@ {
        lemma_split_operator_4(o);
    } else if o == ">"@ {
        lemma_split_operator_5(o);
    } else if o == "<"@ {
        lemma_split_operator_6(o);
    }
}

/// Reading a package string `name`, operator, `version` (the name and the
/// version free of operator characters) gives back that name, that
/// operator and that version: the string is split at the operator written
/// (so a string with `<=` is never split at a bare `<`), the name is what
/// comes before it and the version what comes after.
pub proof fn lemma_package_string_roundtrip(name: Seq<char>, o: Seq<char>, v: Seq<char>)
    requires
        free_of_operators(name),
        free_of_operators(v),
        reads_back_operator(o),
    ensures
        spec_package_string(name, Some(o), Some(v)) == name + o + v,
        split_operator(name + o + v) == o,
        contains_pattern(name + o + v, split_operator(name + o + v)),
        split_once(name + o + v, split_operator(name + o + v)).0 == name,
        second_piece(name + o + v, split_operator(name + o + v)) == v,
        o == "=="@ ==> specifier_named(split_operator(name + o + v)) == Some(VersionSpecifier::Matching),
        o == "~="@ ==> specifier_named(split_operator(name + o + v)) == Some(VersionSpecifier::Compatible),
        o == "!="@ ==> specifier_named(split_operator(name + o + v)) == Some(VersionSpecifier::Exclusion),
        o == ">="@ ==> specifier_named(split_operator(name + o + v)) == Some(VersionSpecifier::GreaterIncluding),
        o == "<="@ ==> specifier_named(split_operator(name + o + v)) == Some(VersionSpecifier::LesserIncluding),
        o == ">"@ ==> specifier_named(split_operator(name + o + v)) == Some(VersionSpecifier::GreaterExcluding),
        o == "<"@ ==> specifier_named(split_operator(name + o + v)) == Some(VersionSpecifier::LesserExcluding),
{
    let s = name + o + v;
    lemma_split_operator_same(name, o, v);
    lemma_operator_is_split_operator(o);
    assert(split_operator(s) == o);
    lemma_operator_chars(o);
    lemma_first_split(name, o, v);
    lemma_specifier_of_operator(o);
}

/// An operator that reads back is a non-empty run of operator characters.
proof fn lemma_operator_chars(o: Seq<char>)
    requires
        reads_back_operator(o),
    ensures
        all_operators(o),
        o.len() > 0,
{
    lemma_operator_literals();
}

/// The split operator of `name + o + v` is that of `o` alone.
proof fn lemma_split_operator_same(name: Seq<char>, o: Seq<char>, v: Seq<char>)
    requires
        free_of_operators(name),
        free_of_operators(v),
    ensures
        split_operator(name + o + v) == split_operator(o),
{
    lemma_operator_patterns(name, o, v);
}

/// The specifier each operator that reads back names.
proof fn lemma_specifier_of_operator(o: Seq<char>)
    requires
        reads_back_operator(o),
    ensures
        o == "=="@ ==> specifier_named(o) == Some(VersionSpecifier::Matching),
        o == "~="@ ==> specifier_named(o) == Some(VersionSpecifier::Compatible),
        o == "!="@ ==> specifier_named(o) == Some(VersionSpecifier::Exclusion),
        o == ">="@ ==> specifier_named(o) == Some(VersionSpecifier::GreaterIncluding),
        o == "<="@ ==> specifier_named(o) == Some(VersionSpecifier::LesserIncluding),
        o == ">"@ ==> specifier_named(o) == Some(VersionSpecifier::GreaterExcluding),
        o == "<"@ ==> specifier_named(o) == Some(VersionSpecifier::LesserExcluding),
{
    lemma_specifier_text_roundtrip(VersionSpecifier::Matching);
    lemma_specifier_text_roundtrip(VersionSpecifier::Compatible);
    lemma_specifier_text_roundtrip(VersionSpecifier::Exclusion);
    lemma_specifier_text_roundtrip(VersionSpecifier::GreaterIncluding);
    lemma_specifier_text_roundtrip(VersionSpecifier::LesserIncluding);
    lemma_specifier_text_roundtrip(VersionSpecifier::GreaterExcluding);
    lemma_specifier_text_roundtrip(VersionSpecifier::LesserExcluding);
}

/// `===` splits at the `==` it starts with.
proof fn lemma_split_operator_triple()
    ensures
        split_operator("==="@) == "=="@,
{
    lemma_operator_literals();
    let o = "==="@;
    assert(o.subrange(0, 2) =~= "=="@);
    assert(occurs_at(o, "=="@, 0));
}

/// Splitting `name + o + v` at a pattern `o` starts with (all operator
/// characters, the name and version free of them) gives the name, then the
/// rest of `o` and the version.
proof fn lemma_prefix_split(name: Seq<char>, o: Seq<char>, v: Seq<char>, pat: Seq<char>)
    requires
        free_of_operators(name),
        free_of_operators(v),
        all_operators(pat),
        pat.len() > 0,
        pat.len() <= o.len(),
        o.subrange(0, pat.len() as int) == pat,
    ensures
        split_once(name + o + v, pat) == (name, Some(o.skip(pat.len() as int) + v)),
{
    let s = name + o + v;
    let n = name.len() as int;
    assert(s.subrange(n, n + pat.len()) =~= pat);
    assert(occurs_at(s, pat, n));
    assert forall|j: int| 0 <= j < n implies !#[trigger] occurs_at(s, pat, j) by {
        if occurs_at(s, pat, j) {
            lemma_operator_window(name, o, v, pat, j);
        }
    }
    assert(is_first_occurrence(s, pat, n));
    let f = first_occurrence(s, pat);
    lemma_first_occurrence_unique(s, pat, f, n);
    assert(s.take(n) =~= name);
    assert(s.skip(n + pat.len()) =~= o.skip(pat.len() as int) + v);
}

/// `===` does not read back: the string is split at the `==` it starts
/// with, so the operator read is `==` and the version keeps the third `=`.
pub proof fn lemma_package_string_triple_equal(name: Seq<char>, v: Seq<char>)
    requires
        free_of_operators(name),
        free_of_operators(v),
    ensures
        split_operator(name + "==="@ + v) == "=="@,
        specifier_named(split_operator(name + "==="@ + v)) == Some(VersionSpecifier::Matching),
        split_once(name + "==="@ + v, "=="@).0 == name,
        second_piece(name + "==="@ + v, "=="@) == seq!['='] + v,
{
    lemma_split_operator_same(name, "==="@, v);
    lemma_split_operator_triple();
    lemma_operator_literals();
    let e = "=="@;
    assert(all_operators(e));
    assert("==="@.subrange(0, 2) =~= e);
    lemma_prefix_split(name, "==="@, v, e);
    let rest = seq!['='] + v;
    assert("==="@.skip(2) + v =~= rest);
    assert(!contains_pattern(rest, e)) by {
        if contains_pattern(rest, e) {
            let j = choose|j: int| #[trigger] occurs_at(rest, e, j);
            assert(rest.subrange(j, j + 2)[1] == e[1]);
            assert(rest[j + 1] == v[j]);
        }
    }
    lemma_specifier_text_roundtrip(VersionSpecifier::Matching);
}

/// Splitting `name + o + v` at `o` (made of operator characters, the name
/// and version free of them) gives the name, then the version, which holds
/// no further `o`.
proof fn lemma_first_split(name: Seq<char>, o: Seq<char>, v: Seq<char>)
    requires
        free_of_operators(name),
        free_of_operators(v),
        all_operators(o),
        o.len() > 0,
    ensures
        contains_pattern(name + o + v, o),
        split_once(name + o + v, o).0 == name,
        split_once(name + o + v, o).1 == Some(v),
        split_once(v, o).0 == v,
{
    let s = name + o + v;
    let n = name.len() as int;
    assert(s.subrange(n, n + o.len()) =~= o);
    assert(occurs_at(s, o, n));
    assert forall|j: int| 0 <= j < n implies !#[trigger] occurs_at(s, o, j) by {
        if occurs_at(s, o, j) {
            lemma_operator_window(name, o, v, o, j);
        }
    }
    assert(is_first_occurrence(s, o, n));
    let f = first_occurrence(s, o);
    lemma_first_occurrence_unique(s, o, f, n);
    assert(s.take(n) =~= name);
    assert(s.skip(n + o.len()) =~= v);
    assert(!contains_pattern(v, o)) by {
        if contains_pattern(v, o) {
            let j = choose|j: int| #[trigger] occurs_at(v, o, j);
            assert(v.subrange(j, j + o.len())[0] == o[0]);
            assert(v[j] == o[0]);
        }
    }
}

} // verus!
