//! A simple `MAJOR.MINOR.PATCH` version, as used for Python interpreters.
use vstd::prelude::*;
use std::cmp::Ordering;
use crate::error::Error;
use crate::number::{decimal, decimal_chars, digits_value, is_numeral, lemma_parse_numeral, parse_usize_text, parse_usize_text_exec};
use crate::text::{chars_of, extend_chars, split_char, string_from_chars};

verus! {

/// A version with three release numbers.
pub struct Version {
    release: Vec<usize>,
}

impl View for Version {
    type V = Seq<usize>;

    closed spec fn view(&self) -> Seq<usize> {
        self.release@
    }
}

/// The dot-separated parts of a version string.
pub open spec fn version_parts(s: Seq<char>) -> Seq<Seq<char>> {
    split_char(s, '.')
}

/// `s` has the shape `N`, `N.N` or `N.N.N` where each `N` is a run of ASCII digits.
pub open spec fn is_version_text(s: Seq<char>) -> bool {
    let parts = version_parts(s);
    &&& 1 <= parts.len() <= 3
    &&& forall|i: int| 0 <= i < parts.len() ==> #[trigger] is_numeral(parts[i])
}

/// Every number of a version text fits in a `usize`.
pub open spec fn version_numbers_fit(s: Seq<char>) -> bool {
    let parts = version_parts(s);
    forall|i: int| 0 <= i < parts.len() ==> #[trigger] digits_value(parts[i]) <= usize::MAX
}

/// The value of part `i` of a version text, zero when the part is absent.
pub open spec fn version_part_value(s: Seq<char>, i: int) -> usize {
    if i < version_parts(s).len() {
        digits_value(version_parts(s)[i]) as usize
    } else {
        0
    }
}

/// The release numbers a version text denotes: missing parts are zero.
pub open spec fn spec_release(s: Seq<char>) -> Seq<usize> {
    seq![version_part_value(s, 0), version_part_value(s, 1), version_part_value(s, 2)]
}

/// The message of a number that does not fit in a `usize`.
pub open spec fn too_large_message() -> Seq<char> {
    "number too large to fit in target type"@
}

/// Every character of `s` is ASCII.
pub open spec fn is_ascii(s: Seq<char>) -> bool {
    forall|i: int| 0 <= i < s.len() ==> (#[trigger] s[i] as u32) < 128
}

/// What `regex::Regex::new(r"^(\d+)(?:\.(\d+))?(?:\.(\d+))?$")` and then
/// `captures` give for a text: the text of each of the three groups (nothing
/// for a group that took no part in the match), nothing when the text does
/// not match, or the message of the error when the expression does not
/// compile.  `\d` there is any Unicode decimal digit.
pub uninterp spec fn version_captures(s: Seq<char>) -> Result<Option<Seq<Option<Seq<char>>>>, Seq<char>>;

/// The groups as plain values.
pub open spec fn groups_view(g: Seq<Option<String>>) -> Seq<Option<Seq<char>>> {
    g.map_values(|o: Option<String>| match o {
        Some(t) => Some(t@),
        None => None,
    })
}

/// A result of matching, as plain values.
pub open spec fn captures_view(c: Result<Option<Vec<Option<String>>>, String>) -> Result<Option<Seq<Option<Seq<char>>>>, Seq<char>> {
    match c {
        Ok(Some(g)) => Ok(Some(groups_view(g@))),
        Ok(None) => Ok(None),
        Err(m) => Err(m@),
    }
}

/// The groups the version expression captures in ASCII text: the digit
/// runs between dots, when the text is one to three of them.
pub open spec fn ascii_version_groups(s: Seq<char>) -> Option<Seq<Option<Seq<char>>>> {
    if is_version_text(s) {
        let p = version_parts(s);
        Some(seq![Some(p[0]), if p.len() > 1 { Some(p[1]) } else { None }, if p.len() > 2 { Some(p[2]) } else { None }])
    } else {
        None
    }
}

/// What matching ASCII text gives (see `ascii_version_groups`).
pub open spec fn ascii_captures(s: Seq<char>) -> Result<Option<Seq<Option<Seq<char>>>>, Seq<char>> {
    Ok(ascii_version_groups(s))
}

/// Match a text against the version expression with the `regex` crate
/// (`Regex::new`, then `captures`), giving the text of its three groups.
/// For ASCII text the expression matches exactly the one to three runs of
/// ASCII digits separated by dots, each group holding one run in order.
#[verifier::external_body]
fn capture_version(s: &str) -> (r: Result<Option<Vec<Option<String>>>, String>)
    ensures
        captures_view(r) == version_captures(s@),
        is_ascii(s@) ==> captures_view(r) == ascii_captures(s@),
{
    match regex::Regex::new(r"^(\d+)(?:\.(\d+))?(?:\.(\d+))?$") {
        Ok(re) => Ok(re.captures(s).map(|c| (1..c.len()).map(|i| c.get(i).map(|m| m.as_str().to_string())).collect())),
        Err(e) => Err(e.to_string()),
    }
}

/// Group `i` read as a `usize` as `str::parse` reads it; zero when the group
/// is missing.
pub open spec fn group_value(g: Seq<Option<Seq<char>>>, i: int) -> Result<usize, Seq<char>> {
    if i < g.len() {
        match g[i] {
            Some(t) => parse_usize_text(t),
            None => Ok(0),
        }
    } else {
        Ok(0)
    }
}

/// The release the first three groups give, or the error of the first
/// group that does not read.
pub open spec fn release_from_groups(g: Seq<Option<Seq<char>>>) -> Result<Seq<usize>, Seq<char>> {
    match (group_value(g, 0), group_value(g, 1), group_value(g, 2)) {
        (Err(m), _, _) => Err(m),
        (Ok(_), Err(m), _) => Err(m),
        (Ok(_), Ok(_), Err(m)) => Err(m),
        (Ok(a), Ok(b), Ok(c)) => Ok(seq![a, b, c]),
    }
}

/// What reading text `s` as a version gives, from what matching it gave: the
/// expression's error; `InvalidVersionString` when it does not match; the
/// release from the groups; or the error of a group that does not read.
pub open spec fn version_outcome(s: Seq<char>, c: Result<Option<Seq<Option<Seq<char>>>>, Seq<char>>, r: Result<Version, Error>) -> bool {
    match c {
        Err(m) => r matches Err(Error::RegexError(e)) && e@ == m,
        Ok(None) => r matches Err(Error::InvalidVersionString(e)) && e@ == s,
        Ok(Some(g)) => match release_from_groups(g) {
            Ok(rel) => r matches Ok(v) && v@ == rel,
            Err(m) => r matches Err(Error::InternalError(e)) && e@ == m,
        },
    }
}

/// The release a text reads as, if it reads as one.
pub open spec fn version_read(s: Seq<char>) -> Option<Seq<usize>> {
    match version_captures(s) {
        Ok(Some(g)) => match release_from_groups(g) {
            Ok(rel) => Some(rel),
            Err(_) => None,
        },
        _ => None,
    }
}

/// On the groups of ASCII text, the release is the digit runs' values when
/// they fit, else the overflow error.
pub proof fn lemma_ascii_release(s: Seq<char>)
    requires
        is_version_text(s),
    ensures
        release_from_groups(ascii_version_groups(s).unwrap()) == (if version_numbers_fit(s) {
            Ok::<Seq<usize>, Seq<char>>(spec_release(s))
        } else {
            Err::<Seq<usize>, Seq<char>>(too_large_message())
        }),
{
    let p = version_parts(s);
    let g = ascii_version_groups(s).unwrap();
    assert forall|i: int| 0 <= i < p.len() implies group_value(g, i) == (if digits_value(#[trigger] p[i]) <= usize::MAX {
        Ok::<usize, Seq<char>>(digits_value(p[i]) as usize)
    } else {
        Err::<usize, Seq<char>>(too_large_message())
    }) by {
        assert(is_numeral(p[i]));
        lemma_parse_numeral(p[i]);
    }
    assert forall|i: int| p.len() <= i < 3 implies group_value(g, i) == Ok::<usize, Seq<char>>(0) by {}
    if version_numbers_fit(s) {
        assert(release_from_groups(g) =~~= Ok::<Seq<usize>, Seq<char>>(spec_release(s)));
    } else {
        let k = choose|i: int| 0 <= i < p.len() && !(#[trigger] digits_value(p[i]) <= usize::MAX);
        assert(digits_value(p[k]) > usize::MAX);
    }
}

/// The ordering of two numbers.
pub open spec fn number_order(a: usize, b: usize) -> Ordering {
    if a < b {
        Ordering::Less
    } else if a == b {
        Ordering::Equal
    } else {
        Ordering::Greater
    }
}

/// The ordering of two releases: their numbers compared in turn, the first
/// that differ deciding.
pub open spec fn release_order(a: Seq<usize>, b: Seq<usize>) -> Ordering {
    if a[0] != b[0] {
        number_order(a[0], b[0])
    } else if a[1] != b[1] {
        number_order(a[1], b[1])
    } else if a[2] != b[2] {
        number_order(a[2], b[2])
    } else {
        Ordering::Equal
    }
}

/// The opposite of an ordering.
pub open spec fn reversed(o: Ordering) -> Ordering {
    match o {
        Ordering::Less => Ordering::Greater,
        Ordering::Equal => Ordering::Equal,
        Ordering::Greater => Ordering::Less,
    }
}

/// The text a version displays as: the first number, then the second number twice.
pub open spec fn version_display(r: Seq<usize>) -> Seq<char> {
    decimal(r[0] as nat) + seq!['.'] + decimal(r[1] as nat) + seq!['.'] + decimal(r[1] as nat)
}

impl Version {
    /// A version always holds three release numbers.
    #[verifier::type_invariant]
    spec fn inv(self) -> bool {
        self.release@.len() == 3
    }

    /// The number of release numbers (always three).
    pub fn release_len(&self) -> (n: usize)
        ensures
            n == self@.len(),
            n == 3,
    {
        proof { use_type_invariant(self); }
        self.release.len()
    }

    /// A version from the groups its text matched (see `version_outcome`):
    /// each group present is read as a `usize`, a missing one is zero.
    pub fn from_captures(s: &str, captures: Result<Option<Vec<Option<String>>>, String>) -> (r: Result<Version, Error>)
        ensures
            version_outcome(s@, captures_view(captures), r),
    {
        let ghost cv = captures_view(captures);
        let groups = match captures {
            Err(m) => return Err(Error::RegexError(m)),
            Ok(None) => return Err(Error::InvalidVersionString(s.to_owned())),
            Ok(Some(g)) => g,
        };
        let ghost gv = groups_view(groups@);
        assert(cv == Ok::<Option<Seq<Option<Seq<char>>>>, Seq<char>>(Some(gv)));
        let mut release: Vec<usize> = Vec::new();
        let mut i: usize = 0;
        while i < 3
            invariant
                gv == groups_view(groups@),
                cv == Ok::<Option<Seq<Option<Seq<char>>>>, Seq<char>>(Some(gv)),
                cv == captures_view(captures),
                i <= 3,
                release@.len() == i,
                forall|j: int| 0 <= j < i ==> #[trigger] group_value(gv, j) == Ok::<usize, Seq<char>>(release@[j]),
            decreases 3 - i,
        {
            let n: usize = if i < groups.len() {
                match &groups[i] {
                    Some(t) => {
                        let cs = chars_of(t.as_str());
                        match parse_usize_text_exec(cs.as_slice()) {
                            Ok(n) => n,
                            Err(e) => {
                                proof {
                                    assert(group_value(gv, i as int) == Err::<usize, Seq<char>>(e@));
                                    if i >= 1 {
                                        assert(group_value(gv, 0) == Ok::<usize, Seq<char>>(release@[0]));
                                    }
                                    if i >= 2 {
                                        assert(group_value(gv, 1) == Ok::<usize, Seq<char>>(release@[1]));
                                    }
                                    assert(release_from_groups(gv) == Err::<Seq<usize>, Seq<char>>(e@));
                                }
                                return Err(Error::InternalError(e));
                            },
                        }
                    },
                    None => 0,
                }
            } else {
                0
            };
            release.push(n);
            i = i + 1;
        }
        let v = Version { release };
        assert(v@ =~= seq![release@[0], release@[1], release@[2]]);
        Ok(v)
    }

    /// Read a version from text `N`, `N.N` or `N.N.N` with the regular
    /// expression `^(\d+)(?:\.(\d+))?(?:\.(\d+))?$`; missing numbers are
    /// zero.  For ASCII text this reads the digit runs between dots.
    pub fn from_str(s: &str) -> (r: Result<Version, Error>)
        ensures
            version_outcome(s@, version_captures(s@), r),
            is_ascii(s@) ==> (r is Ok <==> is_version_text(s@) && version_numbers_fit(s@)),
            is_ascii(s@) ==> (r matches Ok(v) ==> v@ == spec_release(s@)),
            is_ascii(s@) && is_version_text(s@) && !version_numbers_fit(s@) ==> (r matches Err(Error::InternalError(m))
                && m@ == too_large_message()),
            is_ascii(s@) && !is_version_text(s@) ==> (r matches Err(Error::InvalidVersionString(m)) && m@ == s@),
    {
        let captures = capture_version(s);
        proof {
            if is_ascii(s@) && is_version_text(s@) {
                lemma_ascii_release(s@);
            }
        }
        Version::from_captures(s, captures)
    }

    /// The release numbers.
    pub fn release(&self) -> (r: &Vec<usize>)
        ensures
            r@ == self@,
    {
        &self.release
    }

    /// The text this version displays as (`MAJOR.MINOR.MINOR`).
    pub fn to_string(&self) -> (s: String)
        ensures
            s@ == version_display(self@),
    {
        proof { use_type_invariant(self); }
        let mut out = decimal_chars(self.release[0]);
        out.push('.');
        let minor = decimal_chars(self.release[1]);
        extend_chars(&mut out, minor.as_slice());
        out.push('.');
        extend_chars(&mut out, minor.as_slice());
        string_from_chars(out.as_slice())
    }

    /// The version as a semantic version.
    pub fn to_semver(self) -> (v: SemVer)
        ensures
            v.major == self@[0],
            v.minor == self@[1],
            v.patch == self@[2],
    {
        proof { use_type_invariant(&self); }
        SemVer { major: self.release[0], minor: self.release[1], patch: self.release[2] }
    }
}

/// A semantic version `MAJOR.MINOR.PATCH`.
pub struct SemVer {
    pub major: usize,
    pub minor: usize,
    pub patch: usize,
}

/// Compare two releases (see `release_order`).
pub fn compare_release(this: &Version, other: &Version) -> (o: Ordering)
    ensures
        o == release_order(this@, other@),
{
    proof {
        use_type_invariant(this);
        use_type_invariant(other);
    }
    let mut i: usize = 0;
    while i < 3
        invariant
            i <= 3,
            this@.len() == 3,
            other@.len() == 3,
            forall|j: int| 0 <= j < i ==> #[trigger] this@[j] == other@[j],
        decreases 3 - i,
    {
        let a = this.release[i];
        let b = other.release[i];
        if a != b {
            if a < b {
                return Ordering::Less;
            } else {
                return Ordering::Greater;
            }
        }
        i = i + 1;
    }
    Ordering::Equal
}

impl PartialEq for Version {
    fn eq(&self, other: &Self) -> (r: bool) {
        match compare_release(self, other) {
            Ordering::Equal => true,
            _ => false,
        }
    }
}

impl vstd::std_specs::cmp::PartialEqSpecImpl for Version {
    open spec fn obeys_eq_spec() -> bool {
        true
    }

    open spec fn eq_spec(&self, other: &Version) -> bool {
        release_order(self@, other@) == Ordering::Equal
    }
}

impl Eq for Version {}

impl PartialOrd for Version {
    fn partial_cmp(&self, other: &Self) -> (r: Option<Ordering>) {
        Some(compare_release(self, other))
    }
}

impl vstd::std_specs::cmp::PartialOrdSpecImpl for Version {
    open spec fn obeys_partial_cmp_spec() -> bool {
        true
    }

    open spec fn partial_cmp_spec(&self, other: &Version) -> Option<Ordering> {
        Some(release_order(self@, other@))
    }
}

} // verus!

verus! {

/// Two releases compare equal exactly when they are the same numbers.
pub proof fn lemma_release_same_is_equality(a: Seq<usize>, b: Seq<usize>)
    requires
        a.len() == 3,
        b.len() == 3,
    ensures
        release_order(a, b) == Ordering::Equal <==> a == b,
{
    if release_order(a, b) == Ordering::Equal {
        assert(a =~= b);
    }
}

/// A release compares equal to itself.
pub proof fn lemma_release_order_reflexive(a: Seq<usize>)
    requires
        a.len() == 3,
    ensures
        release_order(a, a) == Ordering::Equal,
{
}

/// Swapping two releases reverses their ordering.
pub proof fn lemma_release_order_antisymmetric(a: Seq<usize>, b: Seq<usize>)
    requires
        a.len() == 3,
        b.len() == 3,
    ensures
        release_order(b, a) == reversed(release_order(a, b)),
{
}

/// The ordering of releases is transitive.
pub proof fn lemma_release_order_transitive(a: Seq<usize>, b: Seq<usize>, c: Seq<usize>, o: Ordering)
    requires
        a.len() == 3,
        b.len() == 3,
        c.len() == 3,
        release_order(a, b) == o,
        release_order(b, c) == o,
    ensures
        release_order(a, c) == o,
{
}

/// The text `MAJOR.MINOR.PATCH` written with decimal numerals reads back as
/// the release `[MAJOR, MINOR, PATCH]`.
pub proof fn lemma_version_text_roundtrip(major: usize, minor: usize, patch: usize)
    ensures
        is_version_text(decimal(major as nat) + seq!['.'] + decimal(minor as nat) + seq!['.'] + decimal(patch as nat)),
        version_numbers_fit(decimal(major as nat) + seq!['.'] + decimal(minor as nat) + seq!['.'] + decimal(patch as nat)),
        spec_release(decimal(major as nat) + seq!['.'] + decimal(minor as nat) + seq!['.'] + decimal(patch as nat))
            == seq![major, minor, patch],
{
    let a = decimal(major as nat);
    let b = decimal(minor as nat);
    let c = decimal(patch as nat);
    crate::number::lemma_decimal_value(major as nat);
    crate::number::lemma_decimal_value(minor as nat);
    crate::number::lemma_decimal_value(patch as nat);
    assert forall|i: int| 0 <= i < a.len() implies a[i] != '.' by { assert(crate::number::is_ascii_digit(a[i])); }
    assert forall|i: int| 0 <= i < b.len() implies b[i] != '.' by { assert(crate::number::is_ascii_digit(b[i])); }
    assert forall|i: int| 0 <= i < c.len() implies c[i] != '.' by { assert(crate::number::is_ascii_digit(c[i])); }
    crate::text::lemma_split_char_plain(a, '.');
    crate::text::lemma_split_char_sep_then_plain(a, b, '.');
    let ab = a.push('.') + b;
    crate::text::lemma_split_char_sep_then_plain(ab, c, '.');
    let s = a + seq!['.'] + b + seq!['.'] + c;
    assert(s =~= ab.push('.') + c);
    assert(version_parts(s) =~= seq![a, b, c]);
    assert(spec_release(s) =~= seq![major, minor, patch]);
}

} // verus!

verus! {

/// Every version of a collection of interpreters compares equal to itself.
pub proof fn lemma_release_order_reflexive_all(vs: Seq<Seq<usize>>)
    ensures
        forall|j: int| 0 <= j < vs.len() && #[trigger] vs[j].len() == 3 ==> release_order(vs[j], vs[j]) == Ordering::Equal,
{
}

/// "Not greater" is transitive.
pub proof fn lemma_release_order_le_transitive(a: Seq<usize>, b: Seq<usize>, c: Seq<usize>)
    requires
        a.len() == 3,
        b.len() == 3,
        c.len() == 3,
        release_order(a, b) != Ordering::Greater,
        release_order(b, c) != Ordering::Greater,
    ensures
        release_order(a, c) != Ordering::Greater,
{
}

} // verus!

verus! {

/// Release `a` orders before release `b`.
pub open spec fn release_lt(a: Seq<usize>, b: Seq<usize>) -> bool {
    release_order(a, b) == Ordering::Less
}

/// Release `a` orders after release `b`.
pub open spec fn release_gt(a: Seq<usize>, b: Seq<usize>) -> bool {
    release_order(a, b) == Ordering::Greater
}

/// Releases `a` and `b` compare equal.
pub open spec fn release_same(a: Seq<usize>, b: Seq<usize>) -> bool {
    release_order(a, b) == Ordering::Equal
}

/// Whether version `a` orders before version `b`.
pub fn version_lt(a: &Version, b: &Version) -> (r: bool)
    ensures
        r == release_lt(a@, b@),
{
    match compare_release(a, b) {
        Ordering::Less => true,
        _ => false,
    }
}

/// Facts about the three-way comparison of releases, stated with the predicates.
pub proof fn lemma_release_predicates(a: Seq<usize>, b: Seq<usize>)
    requires
        a.len() == 3,
        b.len() == 3,
    ensures
        release_lt(a, b) <==> release_gt(b, a),
        release_same(a, b) <==> release_same(b, a),
        release_lt(a, b) || release_same(a, b) || release_gt(a, b),
        !(release_lt(a, b) && release_same(a, b)),
        !(release_lt(a, b) && release_gt(a, b)),
        !(release_gt(a, b) && release_same(a, b)),
        release_same(a, a),
{
}

/// The predicates are transitive.
pub proof fn lemma_release_predicates_transitive(a: Seq<usize>, b: Seq<usize>, c: Seq<usize>)
    requires
        a.len() == 3,
        b.len() == 3,
        c.len() == 3,
    ensures
        !release_gt(a, b) && !release_gt(b, c) ==> !release_gt(a, c),
        release_lt(a, b) && !release_gt(b, c) ==> release_lt(a, c),
        !release_gt(a, b) && release_lt(b, c) ==> release_lt(a, c),
{
}

} // verus!

verus! {

/// Reading back the text a version displays as gives its first number and
/// its second number twice (the display repeats the second number).
pub proof fn lemma_display_reads_back(r: Seq<usize>)
    requires
        r.len() == 3,
    ensures
        is_version_text(version_display(r)),
        version_numbers_fit(version_display(r)),
        spec_release(version_display(r)) == seq![r[0], r[1], r[1]],
{
    lemma_version_text_roundtrip(r[0], r[1], r[1]);
}

} // verus!
