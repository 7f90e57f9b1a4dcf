//! Decimal numerals: reading and writing unsigned integers.
use vstd::prelude::*;

verus! {

/// An ASCII decimal digit.
pub open spec fn is_ascii_digit(c: char) -> bool {
    '0' <= c && c <= '9'
}

/// The value of an ASCII decimal digit.
pub open spec fn digit_value(c: char) -> nat {
    ((c as u32) - ('0' as u32)) as nat
}

/// The digit character for a value below ten.
pub open spec fn digit_char(d: nat) -> char {
    ((d + ('0' as u32)) as u32) as char
}

/// Every character of `s` is an ASCII digit.
pub open spec fn all_digits(s: Seq<char>) -> bool {
    forall|i: int| 0 <= i < s.len() ==> #[trigger] is_ascii_digit(s[i])
}

/// `s` is a non-empty run of ASCII digits.
pub open spec fn is_numeral(s: Seq<char>) -> bool {
    s.len() > 0 && all_digits(s)
}

/// The value of a run of ASCII digits, most significant first.
pub open spec fn digits_value(s: Seq<char>) -> nat
    decreases s.len(),
{
    if s.len() == 0 {
        0
    } else {
        digits_value(s.drop_last()) * 10 + digit_value(s.last())
    }
}

/// The decimal numeral of `n`, without leading zeros.
pub open spec fn decimal(n: nat) -> Seq<char>
    decreases n,
{
    if n < 10 {
        seq![digit_char(n)]
    } else {
        decimal(n / 10).push(digit_char(n % 10))
    }
}

/// What reading a numeral as a `usize` gives: its value when it is a
/// numeral whose value fits.
pub open spec fn spec_parse_usize(s: Seq<char>) -> Option<usize> {
    if is_numeral(s) && digits_value(s) <= usize::MAX {
        Some(digits_value(s) as usize)
    } else {
        None
    }
}

/// The value of a numeral does not shrink when digits are appended.
pub proof fn lemma_digits_value_prefix(s: Seq<char>, i: int)
    requires
        0 <= i <= s.len(),
        all_digits(s),
    ensures
        digits_value(s.take(i)) <= digits_value(s),
    decreases s.len() - i,
{
    if i < s.len() {
        lemma_digits_value_prefix(s, i + 1);
        assert(s.take(i + 1).drop_last() =~= s.take(i));
        assert(is_ascii_digit(s[i]));
    } else {
        assert(s.take(i) =~= s);
    }
}

/// The decimal numeral of `n` is a numeral whose value is `n`.
pub proof fn lemma_decimal_value(n: nat)
    ensures
        is_numeral(decimal(n)),
        digits_value(decimal(n)) == n,
    decreases n,
{
    if n < 10 {
        let s = decimal(n);
        assert(s.drop_last() =~= Seq::<char>::empty());
        assert(digit_value(digit_char(n)) == n);
        assert(s.last() == digit_char(n));
        assert(digits_value(s) == digits_value(s.drop_last()) * 10 + digit_value(s.last()));
    } else {
        lemma_decimal_value(n / 10);
        let s = decimal(n);
        assert(s.drop_last() =~= decimal(n / 10));
        assert(digit_value(digit_char(n % 10)) == n % 10);
        assert(s.last() == digit_char(n % 10));
        assert(digits_value(s) == digits_value(decimal(n / 10)) * 10 + n % 10);
        assert((n / 10) * 10 + n % 10 == n);
        assert forall|i: int| 0 <= i < s.len() implies #[trigger] is_ascii_digit(s[i]) by {
            if i < s.len() - 1 {
                assert(s[i] == decimal(n / 10)[i]);
            }
        }
    }
}

/// Reading back the decimal numeral of a `usize` gives the same number.
pub proof fn lemma_parse_decimal_roundtrip(n: usize)
    ensures
        spec_parse_usize(decimal(n as nat)) == Some(n),
{
    lemma_decimal_value(n as nat);
}

/// Read a numeral as a `usize`.
pub fn parse_usize(s: &[char]) -> (r: Option<usize>)
    ensures
        r == spec_parse_usize(s@),
{
    if s.len() == 0 {
        return None;
    }
    let mut acc: usize = 0;
    let mut i: usize = 0;
    while i < s.len()
        invariant
            i <= s@.len(),
            all_digits(s@.take(i as int)),
            acc == digits_value(s@.take(i as int)),
        decreases s@.len() - i,
    {
        let c = s[i];
        proof {
            assert(s@.take(i + 1).drop_last() =~= s@.take(i as int));
            assert(s@.take(i + 1).last() == c);
        }
        if !('0' <= c && c <= '9') {
            assert(!is_ascii_digit(s@[i as int]));
            return None;
        }
        let d: usize = (c as u32 - '0' as u32) as usize;
        assert(all_digits(s@.take(i + 1))) by {
            assert forall|j: int| 0 <= j < i + 1 implies #[trigger] is_ascii_digit(s@.take(i + 1)[j]) by {
                if j < i {
                    assert(s@.take(i + 1)[j] == s@.take(i as int)[j]);
                }
            }
        }
        match acc.checked_mul(10) {
            Some(m) => match m.checked_add(d) {
                Some(v) => {
                    acc = v;
                },
                None => {
                    proof { overflow_beyond(s@, i as int); }
                    return None;
                },
            },
            None => {
                proof { overflow_beyond(s@, i as int); }
                return None;
            },
        }
        i = i + 1;
    }
    assert(s@.take(s@.len() as int) =~= s@);
    Some(acc)
}

/// Once a prefix of digits is too large, the whole numeral (if it is one) is too large.
proof fn overflow_beyond(s: Seq<char>, i: int)
    requires
        0 <= i < s.len(),
        all_digits(s.take(i + 1)),
        digits_value(s.take(i + 1)) > usize::MAX,
    ensures
        spec_parse_usize(s) is None,
{
    if all_digits(s) {
        lemma_digits_value_prefix(s, i + 1);
    }
}

/// The decimal digits of `n`.
pub fn decimal_chars(n: usize) -> (v: Vec<char>)
    ensures
        v@ == decimal(n as nat),
    decreases n,
{
    if n < 10 {
        let c = ((n as u32) + ('0' as u32)) as u8 as char;
        let v: Vec<char> = vec![c];
        assert(v@ =~= decimal(n as nat));
        v
    } else {
        let mut v = decimal_chars(n / 10);
        let c = (((n % 10) as u32) + ('0' as u32)) as u8 as char;
        v.push(c);
        v
    }
}

} // verus!

verus! {

/// The ASCII lower-case form of `c`.
pub open spec fn ascii_lower(c: char) -> char {
    if 'A' <= c && c <= 'Z' {
        ((c as u32) + 32) as char
    } else {
        c
    }
}

/// `s` equals the lower-case word `word` up to ASCII case.
pub open spec fn eq_ignore_ascii_case(s: Seq<char>, word: Seq<char>) -> bool {
    s.len() == word.len() && forall|i: int| 0 <= i < s.len() ==> #[trigger] ascii_lower(s[i]) == word[i]
}

/// A sign character.
pub open spec fn is_sign(c: char) -> bool {
    c == '+' || c == '-'
}

/// An exponent marker.
pub open spec fn is_exp_marker(c: char) -> bool {
    c == 'e' || c == 'E'
}

/// `m` is a mantissa: digits with at most one `.`, holding at least one digit.
pub open spec fn is_mantissa(m: Seq<char>) -> bool {
    &&& forall|i: int| 0 <= i < m.len() ==> (is_ascii_digit(#[trigger] m[i]) || m[i] == '.')
    &&& exists|i: int| 0 <= i < m.len() && is_ascii_digit(#[trigger] m[i])
    &&& forall|i: int, j: int| 0 <= i < j < m.len() ==> !(#[trigger] m[i] == '.' && #[trigger] m[j] == '.')
}

/// `e` is an exponent: `e` or `E`, an optional sign, then digits.
pub open spec fn is_exponent(e: Seq<char>) -> bool {
    &&& e.len() >= 2
    &&& is_exp_marker(e[0])
    &&& if is_sign(e[1]) {
        is_numeral(e.skip(2))
    } else {
        is_numeral(e.skip(1))
    }
}

/// `b` is a decimal number: a mantissa, then optionally an exponent
/// starting at the first exponent marker.
pub open spec fn is_decimal_number(b: Seq<char>) -> bool {
    exists|k: int|
        0 <= k <= b.len() && (forall|i: int| 0 <= i < k ==> !is_exp_marker(#[trigger] b[i]))
            && is_mantissa(b.take(k)) && (k == b.len() || is_exponent(b.skip(k)))
}

/// `s` is accepted by `f32::from_str`: after an optional sign, `inf`,
/// `infinity` or `nan` in any ASCII case, or a decimal number
/// (the grammar the standard library documents for parsing floats).
pub open spec fn is_float_literal(s: Seq<char>) -> bool {
    let b = if s.len() > 0 && is_sign(s[0]) { s.drop_first() } else { s };
    ||| eq_ignore_ascii_case(b, "inf"@)
    ||| eq_ignore_ascii_case(b, "infinity"@)
    ||| eq_ignore_ascii_case(b, "nan"@)
    ||| is_decimal_number(b)
}

/// Lower-case an ASCII letter.
pub fn ascii_lower_exec(c: char) -> (r: char)
    ensures
        r == ascii_lower(c),
{
    if 'A' <= c && c <= 'Z' {
        ((c as u32) + 32) as u8 as char
    } else {
        c
    }
}

/// Whether `s[from..]` equals `word` up to ASCII case.
pub fn eq_ignore_ascii_case_exec(s: &[char], from: usize, word: &str) -> (r: bool)
    requires
        from <= s@.len(),
    ensures
        r == eq_ignore_ascii_case(s@.skip(from as int), word@),
{
    let w = crate::text::chars_of(word);
    if s.len() - from != w.len() {
        return false;
    }
    let mut i: usize = 0;
    while i < w.len()
        invariant
            from <= s@.len(),
            s@.len() == s.len(),
            s@.len() - from == w@.len(),
            w@ == word@,
            i <= w@.len(),
            forall|j: int| 0 <= j < i ==> #[trigger] ascii_lower(s@.skip(from as int)[j]) == w@[j],
        decreases w@.len() - i,
    {
        if ascii_lower_exec(s[from + i]) != w[i] {
            assert(ascii_lower(s@.skip(from as int)[i as int]) != w@[i as int]);
            return false;
        }
        i = i + 1;
    }
    true
}

/// Whether `s[from..to]` is a mantissa.
fn is_mantissa_exec(s: &[char], from: usize, to: usize) -> (r: bool)
    requires
        from <= to <= s@.len(),
    ensures
        r == is_mantissa(s@.subrange(from as int, to as int)),
{
    let ghost m = s@.subrange(from as int, to as int);
    let mut i: usize = from;
    let mut seen_digit = false;
    let mut seen_dot = false;
    while i < to
        invariant
            from <= i <= to <= s@.len(),
            m == s@.subrange(from as int, to as int),
            forall|j: int| 0 <= j < i - from ==> (is_ascii_digit(#[trigger] m[j]) || m[j] == '.'),
            seen_digit == exists|j: int| 0 <= j < i - from && is_ascii_digit(#[trigger] m[j]),
            seen_dot == exists|j: int| 0 <= j < i - from && #[trigger] m[j] == '.',
            forall|a: int, b: int| 0 <= a < b < i - from ==> !(#[trigger] m[a] == '.' && #[trigger] m[b] == '.'),
        decreases to - i,
    {
        let c = s[i];
        assert(c == m[i - from]);
        if '0' <= c && c <= '9' {
            seen_digit = true;
        } else if c == '.' {
            if seen_dot {
                let ghost j = choose|j: int| 0 <= j < i - from && #[trigger] m[j] == '.';
                assert(m[j] == '.' && m[i - from] == '.');
                return false;
            }
            seen_dot = true;
        } else {
            assert(!(is_ascii_digit(m[i - from]) || m[i - from] == '.'));
            return false;
        }
        i = i + 1;
    }
    seen_digit
}

/// Whether `s[from..]` is an exponent.
fn is_exponent_exec(s: &[char], from: usize) -> (r: bool)
    requires
        from <= s@.len(),
    ensures
        r == is_exponent(s@.skip(from as int)),
{
    let ghost e = s@.skip(from as int);
    if s.len() - from < 2 {
        return false;
    }
    if !(s[from] == 'e' || s[from] == 'E') {
        return false;
    }
    let start: usize = if s[from + 1] == '+' || s[from + 1] == '-' { from + 2 } else { from + 1 };
    assert(e.skip(if is_sign(e[1]) { 2int } else { 1int }) =~= s@.skip(start as int));
    if start == s.len() {
        return false;
    }
    let mut i: usize = start;
    while i < s.len()
        invariant
            start <= i <= s@.len(),
            e == s@.skip(from as int),
            e.len() >= 2,
            is_exp_marker(e[0]),
            e.skip(if is_sign(e[1]) { 2int } else { 1int }) == s@.skip(start as int),
            forall|j: int| start <= j < i ==> is_ascii_digit(#[trigger] s@[j]),
        decreases s@.len() - i,
    {
        if !('0' <= s[i] && s[i] <= '9') {
            assert(!is_ascii_digit(s@.skip(start as int)[i - start]));
            return false;
        }
        i = i + 1;
    }
    assert(all_digits(s@.skip(start as int)));
    true
}

/// Whether `s` is accepted by `f32::from_str` (see `is_float_literal`).
pub fn is_float_literal_exec(s: &[char]) -> (r: bool)
    ensures
        r == is_float_literal(s@),
{
    let from: usize = if s.len() > 0 && (s[0] == '+' || s[0] == '-') { 1 } else { 0 };
    let ghost b = if s@.len() > 0 && is_sign(s@[0]) { s@.drop_first() } else { s@ };
    assert(b =~= s@.skip(from as int));
    if eq_ignore_ascii_case_exec(s, from, "inf") || eq_ignore_ascii_case_exec(s, from, "infinity")
        || eq_ignore_ascii_case_exec(s, from, "nan") {
        return true;
    }
    // the mantissa ends at the first exponent marker
    let mut k: usize = from;
    while k < s.len() && !(s[k] == 'e' || s[k] == 'E')
        invariant
            from <= k <= s@.len(),
            forall|i: int| from <= i < k ==> !is_exp_marker(#[trigger] s@[i]),
        decreases s@.len() - k,
    {
        k = k + 1;
    }
    let ok = is_mantissa_exec(s, from, k) && (k == s.len() || is_exponent_exec(s, k));
    let ghost kk = (k - from) as int;
    assert(b.take(kk) =~= s@.subrange(from as int, k as int));
    assert(b.skip(kk) =~= s@.skip(k as int));
    assert forall|i: int| 0 <= i < kk implies !is_exp_marker(#[trigger] b[i]) by {
        assert(b[i] == s@[from + i]);
    }
    if ok {
        assert(is_decimal_number(b));
    } else {
        assert forall|k2: int|
            0 <= k2 <= b.len() && (forall|i: int| 0 <= i < k2 ==> !is_exp_marker(#[trigger] b[i]))
                && is_mantissa(b.take(k2)) implies !(k2 == b.len() || is_exponent(b.skip(k2))) by {
            if k2 < kk {
                // b[k2] is not a marker, so an exponent cannot start there
                assert(!is_exp_marker(b[k2]));
                assert(b.skip(k2)[0] == b[k2]);
            } else if k2 > kk {
                assert(k < s@.len());
                assert(is_exp_marker(b[kk]));
            }
        }
    }
    ok
}

} // verus!

verus! {

/// The message of reading a number from empty text.
pub open spec fn empty_number_message() -> Seq<char> {
    "cannot parse integer from empty string"@
}

/// The message of reading a number from text with a character that is no digit.
pub open spec fn invalid_digit_message() -> Seq<char> {
    "invalid digit found in string"@
}

/// The message of reading a number too large for a `usize`.
pub open spec fn overflow_message() -> Seq<char> {
    "number too large to fit in target type"@
}

/// Reading the digits of `d` from position `i` on, the value of those
/// before being `acc`: the first character that is no ASCII digit, or the
/// first digit that takes the value past `usize::MAX`, ends the reading with
/// its error.
pub open spec fn digits_from(d: Seq<char>, i: int, acc: nat) -> Result<usize, Seq<char>>
    decreases d.len() - i,
{
    if i >= d.len() {
        Ok(acc as usize)
    } else if !is_ascii_digit(d[i]) {
        Err(invalid_digit_message())
    } else if acc * 10 + digit_value(d[i]) > usize::MAX {
        Err(overflow_message())
    } else {
        digits_from(d, i + 1, acc * 10 + digit_value(d[i]))
    }
}

/// What `str::parse::<usize>` gives for a text: an empty text, or a lone
/// sign, is an error; a leading `+` is skipped; then the digits are read in
/// order (see `digits_from`).
pub open spec fn parse_usize_text(t: Seq<char>) -> Result<usize, Seq<char>> {
    if t.len() == 0 {
        Err(empty_number_message())
    } else if t.len() == 1 && (t[0] == '+' || t[0] == '-') {
        Err(invalid_digit_message())
    } else if t[0] == '+' {
        digits_from(t, 1, 0)
    } else {
        digits_from(t, 0, 0)
    }
}

/// Read a `usize` from text as `str::parse::<usize>` does (see `parse_usize_text`).
pub fn parse_usize_text_exec(t: &[char]) -> (r: Result<usize, String>)
    ensures
        match r {
            Ok(n) => parse_usize_text(t@) == Ok::<usize, Seq<char>>(n),
            Err(e) => parse_usize_text(t@) == Err::<usize, Seq<char>>(e@),
        },
{
    if t.len() == 0 {
        let m = "cannot parse integer from empty string";
        return Err(m.to_owned());
    }
    if t.len() == 1 && (t[0] == '+' || t[0] == '-') {
        return Err("invalid digit found in string".to_owned());
    }
    let start: usize = if t[0] == '+' { 1 } else { 0 };
    let mut acc: usize = 0;
    let mut i: usize = start;
    while i < t.len()
        invariant
            start <= i <= t@.len(),
            parse_usize_text(t@) == digits_from(t@, start as int, 0),
            digits_from(t@, start as int, 0) == digits_from(t@, i as int, acc as nat),
        decreases t@.len() - i,
    {
        let c = t[i];
        if !('0' <= c && c <= '9') {
            return Err("invalid digit found in string".to_owned());
        }
        let d: usize = (c as u32 - '0' as u32) as usize;
        assert(d == digit_value(t@[i as int]));
        match acc.checked_mul(10) {
            Some(m) => match m.checked_add(d) {
                Some(v) => {
                    acc = v;
                },
                None => {
                    return Err("number too large to fit in target type".to_owned());
                },
            },
            None => {
                return Err("number too large to fit in target type".to_owned());
            },
        }
        i = i + 1;
    }
    Ok(acc)
}

/// Reading a run of ASCII digits gives its value when that fits in a
/// `usize`, and the overflow error otherwise.
pub proof fn lemma_digits_from_numeral(d: Seq<char>, i: int)
    requires
        all_digits(d),
        0 <= i <= d.len(),
        digits_value(d.take(i)) <= usize::MAX,
    ensures
        digits_from(d, i, digits_value(d.take(i))) == (if digits_value(d) <= usize::MAX {
            Ok::<usize, Seq<char>>(digits_value(d) as usize)
        } else {
            Err::<usize, Seq<char>>(overflow_message())
        }),
    decreases d.len() - i,
{
    if i == d.len() {
        assert(d.take(i) =~= d);
    } else {
        assert(d.take(i + 1).drop_last() =~= d.take(i));
        assert(d.take(i + 1).last() == d[i]);
        assert(is_ascii_digit(d[i]));
        let next = digits_value(d.take(i)) * 10 + digit_value(d[i]);
        assert(next == digits_value(d.take(i + 1)));
        if next > usize::MAX {
            lemma_digits_value_prefix(d, i + 1);
        } else {
            lemma_digits_from_numeral(d, i + 1);
        }
    }
}

/// A numeral reads as its value when that fits in a `usize`, and as the
/// overflow error otherwise.
pub proof fn lemma_parse_numeral(t: Seq<char>)
    requires
        is_numeral(t),
    ensures
        parse_usize_text(t) == (if digits_value(t) <= usize::MAX {
            Ok::<usize, Seq<char>>(digits_value(t) as usize)
        } else {
            Err::<usize, Seq<char>>(overflow_message())
        }),
{
    assert(is_ascii_digit(t[0]));
    assert(t.take(0) =~= Seq::<char>::empty());
    lemma_digits_from_numeral(t, 0);
}

} // verus!
