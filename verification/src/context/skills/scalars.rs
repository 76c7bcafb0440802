//! Character classes and trimming, and the escaping of XML text and YAML scalars.
use vstd::prelude::*;
use crate::strs::{chars_of, push_char, push_chars, to_owned_string};

verus! {

broadcast use vstd::string::group_string_axioms;

/// Unicode `White_Space` (what `char::is_whitespace` tests).
pub open spec fn is_ws(c: char) -> bool {
    let u = c as u32;
    ||| 0x09 <= u <= 0x0D
    ||| u == 0x20
    ||| u == 0x85
    ||| u == 0xA0
    ||| u == 0x1680
    ||| 0x2000 <= u <= 0x200A
    ||| u == 0x2028
    ||| u == 0x2029
    ||| u == 0x202F
    ||| u == 0x205F
    ||| u == 0x3000
}

/// `char::is_whitespace`.
pub fn char_is_ws(c: char) -> (r: bool)
    ensures
        r == is_ws(c),
{
    let u = c as u32;
    (0x09 <= u && u <= 0x0D) || u == 0x20 || u == 0x85 || u == 0xA0 || u == 0x1680 || (0x2000 <= u && u <= 0x200A)
        || u == 0x2028 || u == 0x2029 || u == 0x202F || u == 0x205F || u == 0x3000
}

/// `s` without its leading whitespace.
pub open spec fn trim_start(s: Seq<char>) -> Seq<char>
    decreases s.len(),
{
    if s.len() > 0 && is_ws(s[0]) {
        trim_start(s.drop_first())
    } else {
        s
    }
}

/// `s` without its trailing whitespace.
pub open spec fn trim_end(s: Seq<char>) -> Seq<char>
    decreases s.len(),
{
    if s.len() > 0 && is_ws(s.last()) {
        trim_end(s.drop_last())
    } else {
        s
    }
}

/// `s` without leading and trailing whitespace (`str::trim`).
pub open spec fn trim(s: Seq<char>) -> Seq<char> {
    trim_end(trim_start(s))
}

/// Index of the first character of `s[from..to]` that is not whitespace (`to` if none).
pub fn skip_ws_forward(s: &Vec<char>, from: usize, to: usize) -> (i: usize)
    requires
        from <= to <= s.len(),
    ensures
        from <= i <= to,
        trim_start(s@.subrange(from as int, to as int)) == s@.subrange(i as int, to as int),
{
    let mut i = from;
    while i < to && char_is_ws(s[i])
        invariant
            from <= i <= to <= s.len(),
            trim_start(s@.subrange(from as int, to as int)) == trim_start(s@.subrange(i as int, to as int)),
        decreases to - i,
    {
        assert(s@.subrange(i as int, to as int).drop_first() =~= s@.subrange(i + 1, to as int));
        i = i + 1;
    }
    i
}

/// Index just past the last character of `s[from..to]` that is not whitespace (`from` if none).
pub fn skip_ws_backward(s: &Vec<char>, from: usize, to: usize) -> (j: usize)
    requires
        from <= to <= s.len(),
    ensures
        from <= j <= to,
        trim_end(s@.subrange(from as int, to as int)) == s@.subrange(from as int, j as int),
{
    let mut j = to;
    while j > from && char_is_ws(s[j - 1])
        invariant
            from <= j <= to <= s.len(),
            trim_end(s@.subrange(from as int, to as int)) == trim_end(s@.subrange(from as int, j as int)),
        decreases j - from,
    {
        assert(s@.subrange(from as int, j as int).drop_last() =~= s@.subrange(from as int, j - 1));
        j = j - 1;
    }
    j
}

/// The bounds `[i, j)` of `trim(s[from..to])` within `s`.
pub fn trim_bounds(s: &Vec<char>, from: usize, to: usize) -> (r: (usize, usize))
    requires
        from <= to <= s.len(),
    ensures
        from <= r.0 <= r.1 <= to,
        trim(s@.subrange(from as int, to as int)) == s@.subrange(r.0 as int, r.1 as int),
{
    let i = skip_ws_forward(s, from, to);
    let j = skip_ws_backward(s, i, to);
    (i, j)
}

/// `p` is a prefix of `s`.
pub open spec fn has_prefix(s: Seq<char>, p: Seq<char>) -> bool {
    p.len() <= s.len() && s.take(p.len() as int) == p
}

/// Whether `s[from..to]` starts with `p`.
pub fn starts_with_at(s: &Vec<char>, from: usize, to: usize, p: &Vec<char>) -> (r: bool)
    requires
        from <= to <= s.len(),
    ensures
        r == has_prefix(s@.subrange(from as int, to as int), p@),
{
    if p.len() > to - from {
        return false;
    }
    let mut k: usize = 0;
    while k < p.len()
        invariant
            0 <= k <= p.len(),
            p.len() <= to - from,
            from <= to <= s.len(),
            forall|m: int| 0 <= m < k ==> s@[from + m] == p@[m],
        decreases p.len() - k,
    {
        if s[from + k] != p[k] {
            assert(s@.subrange(from as int, to as int).take(p.len() as int)[k as int] != p@[k as int]);
            return false;
        }
        k = k + 1;
    }
    assert(s@.subrange(from as int, to as int).take(p.len() as int) =~= p@);
    true
}

// ---------------------------------------------------------------------------
// XML text escaping
// ---------------------------------------------------------------------------

/// The escape of one character in XML text.
pub open spec fn xml_escape_char(c: char) -> Seq<char> {
    if c == '&' {
        seq!['&', 'a', 'm', 'p', ';']
    } else if c == '<' {
        seq!['&', 'l', 't', ';']
    } else if c == '>' {
        seq!['&', 'g', 't', ';']
    } else if c == '"' {
        seq!['&', 'q', 'u', 'o', 't', ';']
    } else if c == '\'' {
        seq!['&', 'a', 'p', 'o', 's', ';']
    } else {
        seq![c]
    }
}

/// `s` with `&`, `<`, `>`, `"` and `'` replaced by their XML entities.
pub open spec fn xml_escaped(s: Seq<char>) -> Seq<char>
    decreases s.len(),
{
    if s.len() == 0 {
        seq![]
    } else {
        xml_escaped(s.drop_last()) + xml_escape_char(s.last())
    }
}

/// Appends the XML escape of `c` to `out`.
fn push_xml_escaped_char(out: &mut String, c: char)
    ensures
        final(out)@ == old(out)@ + xml_escape_char(c),
{
    let ghost before = out@;
    if c == '&' {
        push_char(out, '&'); push_char(out, 'a'); push_char(out, 'm'); push_char(out, 'p'); push_char(out, ';');
    } else if c == '<' {
        push_char(out, '&'); push_char(out, 'l'); push_char(out, 't'); push_char(out, ';');
    } else if c == '>' {
        push_char(out, '&'); push_char(out, 'g'); push_char(out, 't'); push_char(out, ';');
    } else if c == '"' {
        push_char(out, '&'); push_char(out, 'q'); push_char(out, 'u'); push_char(out, 'o'); push_char(out, 't');
        push_char(out, ';');
    } else if c == '\'' {
        push_char(out, '&'); push_char(out, 'a'); push_char(out, 'p'); push_char(out, 'o'); push_char(out, 's');
        push_char(out, ';');
    } else {
        push_char(out, c);
    }
    assert(out@ =~= before + xml_escape_char(c));
}

/// Minimal XML escaping: `&`, `<`, `>`, `"` and `'` become entities.
pub fn xml_escape(s: &str) -> (r: String)
    ensures
        r@ == xml_escaped(s@),
{
    let v = chars_of(s);
    let mut out = String::new();
    let mut i: usize = 0;
    while i < v.len()
        invariant
            0 <= i <= v.len(),
            v@ == s@,
            out@ == xml_escaped(v@.take(i as int)),
        decreases v.len() - i,
    {
        assert(v@.take(i + 1).drop_last() =~= v@.take(i as int));
        push_xml_escaped_char(&mut out, v[i]);
        i = i + 1;
    }
    assert(v@.take(v.len() as int) =~= v@);
    out
}

/// Escaped XML text holds no `<`, `>`, `"` or `'`, so it cannot open or close markup.
pub proof fn law_xml_escaped_has_no_markup(s: Seq<char>)
    ensures
        forall|i: int| 0 <= i < xml_escaped(s).len() ==> {
            let c = #[trigger] xml_escaped(s)[i];
            c != '<' && c != '>' && c != '"' && c != '\''
        },
    decreases s.len(),
{
    if s.len() > 0 {
        law_xml_escaped_has_no_markup(s.drop_last());
        let p = xml_escaped(s.drop_last());
        let e = xml_escape_char(s.last());
        assert forall|i: int| 0 <= i < xml_escaped(s).len() implies {
            let c = #[trigger] xml_escaped(s)[i];
            c != '<' && c != '>' && c != '"' && c != '\''
        } by {
            if i >= p.len() {
                assert(xml_escaped(s)[i] == e[i - p.len()]);
            } else {
                assert(xml_escaped(s)[i] == p[i]);
            }
        }
    }
}


// ---------------------------------------------------------------------------
// YAML plain and double-quoted scalars
// ---------------------------------------------------------------------------

/// An ASCII decimal digit.
pub open spec fn is_digit(c: char) -> bool {
    '0' <= c <= '9'
}

/// An ASCII hexadecimal digit.
pub open spec fn is_hex_digit(c: char) -> bool {
    is_digit(c) || ('a' <= c <= 'f') || ('A' <= c <= 'F')
}

/// An octal digit.
pub open spec fn is_octal_digit(c: char) -> bool {
    '0' <= c <= '7'
}

/// Every character of `s` is a decimal digit.
pub open spec fn all_digits(s: Seq<char>) -> bool {
    forall|i: int| 0 <= i < s.len() ==> #[trigger] is_digit(s[i])
}

/// Every character of `s` is a decimal digit or `.`.
pub open spec fn all_digits_or_dots(s: Seq<char>) -> bool {
    forall|i: int| 0 <= i < s.len() ==> is_digit(#[trigger] s[i]) || s[i] == '.'
}

/// Every character of `s` is a hexadecimal digit.
pub open spec fn all_hex_digits(s: Seq<char>) -> bool {
    forall|i: int| 0 <= i < s.len() ==> #[trigger] is_hex_digit(s[i])
}

/// Every character of `s` is an octal digit.
pub open spec fn all_octal_digits(s: Seq<char>) -> bool {
    forall|i: int| 0 <= i < s.len() ==> #[trigger] is_octal_digit(s[i])
}

/// Some character of `s` is a decimal digit.
pub open spec fn some_digit(s: Seq<char>) -> bool {
    exists|i: int| 0 <= i < s.len() && #[trigger] is_digit(s[i])
}

/// The number of occurrences of `c` in `s`.
pub open spec fn count_char(s: Seq<char>, c: char) -> nat
    decreases s.len(),
{
    if s.len() == 0 {
        0
    } else {
        count_char(s.drop_last(), c) + if s.last() == c { 1nat } else { 0nat }
    }
}

/// `s` without one leading `+` or `-`.
pub open spec fn unsigned_body(s: Seq<char>) -> Seq<char> {
    if s.len() > 0 && (s[0] == '+' || s[0] == '-') {
        s.drop_first()
    } else {
        s
    }
}

/// `YYYY-MM-DD`: three all-digit parts of 4, 2 and 2 characters joined by `-`.
pub open spec fn is_date_like(s: Seq<char>) -> bool {
    &&& s.len() == 10
    &&& s[4] == '-'
    &&& s[7] == '-'
    &&& all_digits(s.take(4))
    &&& all_digits(s.subrange(5, 7))
    &&& all_digits(s.skip(8))
}

/// A scalar that a YAML reader would take for an integer, a float, a hex or octal
/// number or a date rather than a string.
pub open spec fn looks_numeric_or_date_spec(s: Seq<char>) -> bool {
    let body = unsigned_body(s);
    ||| body.len() > 0 && all_digits(body)
    ||| body.len() > 0 && all_digits_or_dots(body) && count_char(body, '.') == 1 && some_digit(body)
    ||| s.len() > 2 && s[0] == '0' && (s[1] == 'x' || s[1] == 'X') && all_hex_digits(s.skip(2))
    ||| s.len() > 2 && s[0] == '0' && (s[1] == 'o' || s[1] == 'O') && all_octal_digits(s.skip(2))
    ||| is_date_like(s)
}

/// A character that forces quoting wherever it occurs.
pub open spec fn is_yaml_special(c: char) -> bool {
    c == ':' || c == '#' || c == '\n' || c == '\t' || c == '\r' || c == '"' || c == '\'' || c == '\\'
}

/// A YAML indicator character, which forces quoting at the start of a scalar.
pub open spec fn is_yaml_indicator(c: char) -> bool {
    ||| c == '-' || c == '?' || c == ',' || c == '[' || c == ']' || c == '{' || c == '}'
    ||| c == '&' || c == '*' || c == '!' || c == '|' || c == '>' || c == '%' || c == '@'
    ||| c == '`' || c == '~'
}

/// `c` and `w` are equal ignoring ASCII case, where `w` is lower case.
pub open spec fn ascii_ci_char_eq(c: char, w: char) -> bool {
    c == w || ('a' <= w <= 'z' && (c as u32) + 32 == (w as u32))
}

/// `s` equals the lower-case word `w` ignoring ASCII case.
pub open spec fn ascii_ci_eq(s: Seq<char>, w: Seq<char>) -> bool {
    s.len() == w.len() && forall|i: int| 0 <= i < s.len() ==> #[trigger] ascii_ci_char_eq(s[i], w[i])
}

/// The plain scalars YAML reads as booleans or null.
pub open spec fn is_reserved_word(s: Seq<char>) -> bool {
    ||| ascii_ci_eq(s, seq!['t', 'r', 'u', 'e'])
    ||| ascii_ci_eq(s, seq!['f', 'a', 'l', 's', 'e'])
    ||| ascii_ci_eq(s, seq!['n', 'u', 'l', 'l'])
    ||| ascii_ci_eq(s, seq!['y', 'e', 's'])
    ||| ascii_ci_eq(s, seq!['n', 'o'])
    ||| ascii_ci_eq(s, seq!['o', 'n'])
    ||| ascii_ci_eq(s, seq!['o', 'f', 'f'])
    ||| ascii_ci_eq(s, seq!['~'])
}

/// `s` must be double-quoted to be read back as the same string.
pub open spec fn needs_quoting(s: Seq<char>) -> bool {
    ||| s.len() == 0
    ||| is_ws(s[0]) || is_ws(s.last())
    ||| exists|i: int| 0 <= i < s.len() && #[trigger] is_yaml_special(s[i])
    ||| is_yaml_indicator(s[0])
    ||| is_reserved_word(s)
    ||| looks_numeric_or_date_spec(s)
}

/// The escape of one character inside a double-quoted YAML scalar.
pub open spec fn yaml_escape_char(c: char) -> Seq<char> {
    if c == '\\' {
        seq!['\\', '\\']
    } else if c == '"' {
        seq!['\\', '"']
    } else if c == '\n' {
        seq!['\\', 'n']
    } else if c == '\t' {
        seq!['\\', 't']
    } else if c == '\r' {
        seq!['\\', 'r']
    } else {
        seq![c]
    }
}

/// `s` with `\`, `"`, newline, tab and carriage return escaped.
pub open spec fn yaml_escaped(s: Seq<char>) -> Seq<char>
    decreases s.len(),
{
    if s.len() == 0 {
        seq![]
    } else {
        yaml_escaped(s.drop_last()) + yaml_escape_char(s.last())
    }
}

/// `s` as a YAML scalar: bare where the plain form reads back as the same string,
/// double-quoted and escaped otherwise.
pub open spec fn yaml_scalar(s: Seq<char>) -> Seq<char> {
    if needs_quoting(s) {
        seq!['"'] + yaml_escaped(s) + seq!['"']
    } else {
        s
    }
}

fn is_digit_char(c: char) -> (r: bool)
    ensures
        r == is_digit(c),
{
    '0' <= c && c <= '9'
}

/// Whether `v[from..to]` is made of characters that satisfy the class `k`:
/// 0 decimal digits, 1 digits or dots, 2 hexadecimal digits, 3 octal digits.
fn all_in_class(v: &Vec<char>, from: usize, to: usize, k: u8) -> (r: bool)
    requires
        from <= to <= v.len(),
        k < 4,
    ensures
        k == 0 ==> r == all_digits(v@.subrange(from as int, to as int)),
        k == 1 ==> r == all_digits_or_dots(v@.subrange(from as int, to as int)),
        k == 2 ==> r == all_hex_digits(v@.subrange(from as int, to as int)),
        k == 3 ==> r == all_octal_digits(v@.subrange(from as int, to as int)),
{
    let ghost sub = v@.subrange(from as int, to as int);
    let mut i = from;
    while i < to
        invariant
            from <= i <= to <= v.len(),
            k < 4,
            sub == v@.subrange(from as int, to as int),
            k == 0 ==> forall|j: int| 0 <= j < i - from ==> #[trigger] is_digit(sub[j]),
            k == 1 ==> forall|j: int| 0 <= j < i - from ==> is_digit(#[trigger] sub[j]) || sub[j] == '.',
            k == 2 ==> forall|j: int| 0 <= j < i - from ==> #[trigger] is_hex_digit(sub[j]),
            k == 3 ==> forall|j: int| 0 <= j < i - from ==> #[trigger] is_octal_digit(sub[j]),
        decreases to - i,
    {
        let c = v[i];
        assert(sub[i - from] == c);
        let ok = if k == 0 {
            is_digit_char(c)
        } else if k == 1 {
            is_digit_char(c) || c == '.'
        } else if k == 2 {
            is_digit_char(c) || ('a' <= c && c <= 'f') || ('A' <= c && c <= 'F')
        } else {
            '0' <= c && c <= '7'
        };
        if !ok {
            proof {
                if k == 0 {
                    assert(!is_digit(sub[i - from]));
                } else if k == 1 {
                    assert(!(is_digit(sub[i - from]) || sub[i - from] == '.'));
                } else if k == 2 {
                    assert(!is_hex_digit(sub[i - from]));
                } else {
                    assert(!is_octal_digit(sub[i - from]));
                }
            }
            return false;
        }
        i = i + 1;
    }
    true
}

/// The number of dots and whether a digit occurs in `v[from..]`.
fn dots_and_digit(v: &Vec<char>, from: usize) -> (r: (usize, bool))
    requires
        from <= v.len(),
    ensures
        r.0 == count_char(v@.skip(from as int), '.'),
        r.1 == some_digit(v@.skip(from as int)),
{
    let ghost body = v@.skip(from as int);
    let mut dots: usize = 0;
    let mut digit = false;
    let mut i = from;
    while i < v.len()
        invariant
            from <= i <= v.len(),
            body == v@.skip(from as int),
            dots == count_char(body.take(i - from), '.'),
            dots <= i - from,
            digit == exists|j: int| 0 <= j < i - from && #[trigger] is_digit(body[j]),
        decreases v.len() - i,
    {
        assert(body.take(i - from + 1).drop_last() =~= body.take(i - from));
        assert(body[i - from] == v@[i as int]);
        if v[i] == '.' {
            dots = dots + 1;
        }
        if is_digit_char(v[i]) {
            digit = true;
        }
        i = i + 1;
    }
    assert(body.take(i - from) =~= body);
    (dots, digit)
}

/// Whether the scalar looks like a number, float, hex, octal or date, so that a
/// YAML reader would not read it back as a string.
pub fn looks_numeric_or_date(s: &str) -> (r: bool)
    ensures
        r == looks_numeric_or_date_spec(s@),
{
    let v = chars_of(s);
    let n = v.len();
    let start: usize = if n > 0 && (v[0] == '+' || v[0] == '-') { 1 } else { 0 };
    proof {
        if start == 1 {
            assert(unsigned_body(v@) =~= v@.subrange(1, n as int));
        } else {
            assert(unsigned_body(v@) =~= v@.subrange(0, n as int));
        }
        assert(v@.skip(start as int) =~= v@.subrange(start as int, n as int));
    }
    let mut numeric = false;
    if start < n {
        if all_in_class(&v, start, n, 0) {
            numeric = true;
        } else if all_in_class(&v, start, n, 1) {
            let (dots, digit) = dots_and_digit(&v, start);
            numeric = dots == 1 && digit;
        }
    }
    if numeric {
        return true;
    }
    proof {
        assert(v@.skip(2) =~= v@.subrange(2, n as int));
    }
    if n > 2 && v[0] == '0' && (v[1] == 'x' || v[1] == 'X') && all_in_class(&v, 2, n, 2) {
        return true;
    }
    if n > 2 && v[0] == '0' && (v[1] == 'o' || v[1] == 'O') && all_in_class(&v, 2, n, 3) {
        return true;
    }
    if n == 10 && v[4] == '-' && v[7] == '-' {
        proof {
            assert(v@.take(4) =~= v@.subrange(0, 4));
            assert(v@.skip(8) =~= v@.subrange(8, 10));
        }
        return all_in_class(&v, 0, 4, 0) && all_in_class(&v, 5, 7, 0) && all_in_class(&v, 8, 10, 0);
    }
    false
}

fn is_yaml_special_char(c: char) -> (r: bool)
    ensures
        r == is_yaml_special(c),
{
    c == ':' || c == '#' || c == '\n' || c == '\t' || c == '\r' || c == '"' || c == '\'' || c == '\\'
}

fn is_yaml_indicator_char(c: char) -> (r: bool)
    ensures
        r == is_yaml_indicator(c),
{
    c == '-' || c == '?' || c == ',' || c == '[' || c == ']' || c == '{' || c == '}' || c == '&'
        || c == '*' || c == '!' || c == '|' || c == '>' || c == '%' || c == '@' || c == '`'
        || c == '~'
}

/// Whether `v` equals the lower-case word `w` ignoring ASCII case.
fn ascii_ci_equals(v: &Vec<char>, w: &Vec<char>) -> (r: bool)
    ensures
        r == ascii_ci_eq(v@, w@),
{
    if v.len() != w.len() {
        return false;
    }
    let mut i: usize = 0;
    while i < v.len()
        invariant
            0 <= i <= v.len(),
            v.len() == w.len(),
            forall|j: int| 0 <= j < i ==> #[trigger] ascii_ci_char_eq(v@[j], w@[j]),
        decreases v.len() - i,
    {
        let c = v[i];
        let d = w[i];
        let same = c == d || ('a' <= d && d <= 'z' && (c as u32) == (d as u32) - 32);
        if !same {
            assert(!ascii_ci_char_eq(v@[i as int], w@[i as int]));
            return false;
        }
        i = i + 1;
    }
    true
}

fn is_reserved(v: &Vec<char>) -> (r: bool)
    ensures
        r == is_reserved_word(v@),
{
    let w1 = vec!['t', 'r', 'u', 'e'];
    let w2 = vec!['f', 'a', 'l', 's', 'e'];
    let w3 = vec!['n', 'u', 'l', 'l'];
    let w4 = vec!['y', 'e', 's'];
    let w5 = vec!['n', 'o'];
    let w6 = vec!['o', 'n'];
    let w7 = vec!['o', 'f', 'f'];
    let w8 = vec!['~'];
    proof {
        assert(w1@ =~= seq!['t', 'r', 'u', 'e']);
        assert(w2@ =~= seq!['f', 'a', 'l', 's', 'e']);
        assert(w3@ =~= seq!['n', 'u', 'l', 'l']);
        assert(w4@ =~= seq!['y', 'e', 's']);
        assert(w5@ =~= seq!['n', 'o']);
        assert(w6@ =~= seq!['o', 'n']);
        assert(w7@ =~= seq!['o', 'f', 'f']);
        assert(w8@ =~= seq!['~']);
    }
    ascii_ci_equals(v, &w1) || ascii_ci_equals(v, &w2) || ascii_ci_equals(v, &w3) || ascii_ci_equals(v, &w4)
        || ascii_ci_equals(v, &w5) || ascii_ci_equals(v, &w6) || ascii_ci_equals(v, &w7)
        || ascii_ci_equals(v, &w8)
}

/// Whether a YAML scalar must be double-quoted to be read back as the same string.
pub fn yaml_scalar_needs_quoting(s: &str) -> (r: bool)
    ensures
        r == needs_quoting(s@),
{
    let v = chars_of(s);
    let n = v.len();
    if n == 0 {
        return true;
    }
    if char_is_ws(v[0]) || char_is_ws(v[n - 1]) {
        return true;
    }
    let mut i: usize = 0;
    while i < n
        invariant
            0 <= i <= n,
            n == v.len(),
            v@ == s@,
            forall|j: int| 0 <= j < i ==> !#[trigger] is_yaml_special(v@[j]),
        decreases n - i,
    {
        if is_yaml_special_char(v[i]) {
            assert(is_yaml_special(v@[i as int]));
            return true;
        }
        i = i + 1;
    }
    if is_yaml_indicator_char(v[0]) {
        return true;
    }
    if is_reserved(&v) {
        return true;
    }
    looks_numeric_or_date(s)
}

/// Appends the escape of `c` inside a double-quoted scalar to `out`.
fn push_yaml_escaped_char(out: &mut String, c: char)
    ensures
        final(out)@ == old(out)@ + yaml_escape_char(c),
{
    let ghost before = out@;
    if c == '\\' {
        push_char(out, '\\'); push_char(out, '\\');
    } else if c == '"' {
        push_char(out, '\\'); push_char(out, '"');
    } else if c == '\n' {
        push_char(out, '\\'); push_char(out, 'n');
    } else if c == '\t' {
        push_char(out, '\\'); push_char(out, 't');
    } else if c == '\r' {
        push_char(out, '\\'); push_char(out, 'r');
    } else {
        push_char(out, c);
    }
    assert(out@ =~= before + yaml_escape_char(c));
}

/// Renders `s` as a YAML scalar: bare when YAML's plain-scalar rules read it back as
/// the same string, double-quoted with `\`, `"`, newline, tab and carriage return
/// escaped otherwise.
pub fn yaml_escape_scalar(s: &str) -> (r: String)
    ensures
        r@ == yaml_scalar(s@),
{
    if !yaml_scalar_needs_quoting(s) {
        return to_owned_string(s);
    }
    let v = chars_of(s);
    let mut out = String::new();
    push_char(&mut out, '"');
    let mut i: usize = 0;
    while i < v.len()
        invariant
            0 <= i <= v.len(),
            v@ == s@,
            out@ == seq!['"'] + yaml_escaped(v@.take(i as int)),
        decreases v.len() - i,
    {
        assert(v@.take(i + 1).drop_last() =~= v@.take(i as int));
        push_yaml_escaped_char(&mut out, v[i]);
        i = i + 1;
        assert(out@ =~= seq!['"'] + yaml_escaped(v@.take(i as int)));
    }
    assert(v@.take(v.len() as int) =~= v@);
    push_char(&mut out, '"');
    out
}

} // verus!
