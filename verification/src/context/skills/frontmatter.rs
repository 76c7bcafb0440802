//! The `---`-delimited frontmatter of a `SKILL.md`, and its `name:` and
//! `description:` fields.
use vstd::prelude::*;
use crate::strs::{chars_of, string_of, to_owned_string};
use crate::context::lines::{split_lines, text_lines, lines_view};
use crate::context::skills::SkillError;
use crate::context::skills::scalars::{has_prefix, starts_with_at, trim, trim_bounds, trim_start, skip_ws_forward};

verus! {

broadcast use vstd::string::group_string_axioms;

/// `s` is at least two characters long and starts and ends with `q`.
pub open spec fn quoted_by(s: Seq<char>, q: char) -> bool {
    s.len() >= 2 && s[0] == q && s.last() == q
}

/// `s` without the surrounding pair of double or single quotes, if it has one
/// (a lone quote character is no pair, and stays as it is).
pub open spec fn unquoted(s: Seq<char>) -> Seq<char> {
    if quoted_by(s, '"') || quoted_by(s, '\'') {
        s.subrange(1, s.len() - 1)
    } else {
        s
    }
}

/// Removes one pair of surrounding double or single quotes from a YAML value.
pub fn unquote(s: &str) -> (r: String)
    ensures
        r@ == unquoted(s@),
{
    let v = chars_of(s);
    let n = v.len();
    if n >= 2 && ((v[0] == '"' && v[n - 1] == '"') || (v[0] == '\'' && v[n - 1] == '\'')) {
        let inner = sub_chars(&v, 1, n - 1);
        string_of(&inner)
    } else {
        to_owned_string(s)
    }
}

/// The characters `v[from..to]`.
pub fn sub_chars(v: &Vec<char>, from: usize, to: usize) -> (w: Vec<char>)
    requires
        from <= to <= v.len(),
    ensures
        w@ == v@.subrange(from as int, to as int),
{
    let mut w: Vec<char> = Vec::new();
    let mut i = from;
    while i < to
        invariant
            from <= i <= to <= v.len(),
            w@ == v@.subrange(from as int, i as int),
        decreases to - i,
    {
        w.push(v[i]);
        i = i + 1;
        assert(w@ =~= v@.subrange(from as int, i as int));
    }
    w
}

/// The line that opens the frontmatter.
pub open spec fn opening_fence() -> Seq<char> {
    seq!['-', '-', '-']
}

/// A line break followed by the closing `---`.
pub open spec fn closing_fence() -> Seq<char> {
    seq!['\n', '-', '-', '-']
}

/// The key of the name field.
pub open spec fn name_key() -> Seq<char> {
    seq!['n', 'a', 'm', 'e', ':']
}

/// The key of the description field.
pub open spec fn description_key() -> Seq<char> {
    seq!['d', 'e', 's', 'c', 'r', 'i', 'p', 't', 'i', 'o', 'n', ':']
}

/// The first index at or after `i` where `p` occurs in `s`.
pub open spec fn find_from(s: Seq<char>, p: Seq<char>, i: nat) -> Option<nat>
    decreases s.len() - i,
{
    if i + p.len() > s.len() {
        None
    } else if s.subrange(i as int, (i + p.len()) as int) == p {
        Some(i)
    } else if i < s.len() {
        find_from(s, p, i + 1)
    } else {
        None
    }
}

/// What follows the opening `---` once leading whitespace is skipped, if the
/// content starts with it.
pub open spec fn after_opening(content: Seq<char>) -> Option<Seq<char>> {
    let t = trim_start(content);
    if has_prefix(t, opening_fence()) {
        Some(t.skip(3))
    } else {
        None
    }
}

/// The text between the opening `---` and the first line break followed by `---`.
pub open spec fn frontmatter_block(content: Seq<char>) -> Option<Seq<char>> {
    match after_opening(content) {
        None => None,
        Some(a) => match find_from(a, closing_fence(), 0) {
            None => None,
            Some(e) => Some(a.take(e as int)),
        },
    }
}

/// The value of a trimmed line that starts with `key`.
pub open spec fn field_value(line: Seq<char>, key: Seq<char>) -> Seq<char> {
    trim(line.skip(key.len() as int))
}

/// The `name` and `description` values found in `lines`, the last occurrence of
/// each winning; a line counts for `description` only if it is not a name line.
pub open spec fn scan_fields(lines: Seq<Seq<char>>) -> (Option<Seq<char>>, Option<Seq<char>>)
    decreases lines.len(),
{
    if lines.len() == 0 {
        (None, None)
    } else {
        let st = scan_fields(lines.drop_last());
        let l = trim(lines.last());
        if has_prefix(l, name_key()) {
            (Some(unquoted(field_value(l, name_key()))), st.1)
        } else if has_prefix(l, description_key()) {
            (st.0, Some(unquoted(field_value(l, description_key()))))
        } else {
            st
        }
    }
}

/// What is wrong with a frontmatter.
pub enum FrontmatterFault {
    MissingOpening,
    MissingClosing,
    MissingName,
    MissingDescription,
}

/// The name and description of a `SKILL.md`, or what is wrong with its frontmatter.
pub open spec fn frontmatter_outcome(content: Seq<char>) -> Result<(Seq<char>, Seq<char>), FrontmatterFault> {
    match after_opening(content) {
        None => Err(FrontmatterFault::MissingOpening),
        Some(a) => match frontmatter_block(content) {
            None => Err(FrontmatterFault::MissingClosing),
            Some(b) => {
                let f = scan_fields(text_lines(b));
                match f.0 {
                    None => Err(FrontmatterFault::MissingName),
                    Some(n) => match f.1 {
                        None => Err(FrontmatterFault::MissingDescription),
                        Some(d) => if n.len() == 0 {
                            Err(FrontmatterFault::MissingName)
                        } else if d.len() == 0 {
                            Err(FrontmatterFault::MissingDescription)
                        } else {
                            Ok((n, d))
                        },
                    },
                }
            },
        },
    }
}

/// `e` is the error that the parser reports for `fault` in the file at `path`.
pub open spec fn fault_error(e: SkillError, fault: FrontmatterFault, path: Seq<char>) -> bool {
    match fault {
        FrontmatterFault::MissingOpening => e matches SkillError::InvalidFrontmatter { path: p, detail }
            && p@ == path && detail@ == "missing opening ---"@,
        FrontmatterFault::MissingClosing => e matches SkillError::InvalidFrontmatter { path: p, detail }
            && p@ == path && detail@ == "missing closing ---"@,
        FrontmatterFault::MissingName => e matches SkillError::MissingField { path: p, field }
            && p@ == path && field@ == "name"@,
        FrontmatterFault::MissingDescription => e matches SkillError::MissingField { path: p, field }
            && p@ == path && field@ == "description"@,
    }
}

/// Index of the first occurrence of `p` in `v[from..]`, relative to `from`.
fn find_chars(v: &Vec<char>, from: usize, p: &Vec<char>) -> (r: Option<usize>)
    requires
        from <= v.len(),
        p.len() > 0,
    ensures
        match r {
            Some(e) => from + e <= v.len() && find_from(v@.skip(from as int), p@, 0) == Some(e as nat),
            None => find_from(v@.skip(from as int), p@, 0) is None,
        },
{
    let ghost a = v@.skip(from as int);
    let n = v.len();
    let mut k: usize = 0;
    while p.len() <= n - from - k
        invariant
            from <= n == v.len(),
            a == v@.skip(from as int),
            p.len() > 0,
            k <= n - from,
            find_from(a, p@, 0) == find_from(a, p@, k as nat),
        decreases n - from - k,
    {
        let hit = starts_with_at(v, from + k, n, p);
        proof {
            assert(v@.subrange((from + k) as int, n as int).take(p.len() as int)
                =~= a.subrange(k as int, k + p.len()));
        }
        if hit {
            return Some(k);
        }
        k = k + 1;
    }
    None
}

/// The value of the field line `l[a..b]` (already trimmed) after a key of `klen`
/// characters, unquoted.
fn field_of(l: &Vec<char>, a: usize, b: usize, klen: usize) -> (r: Vec<char>)
    requires
        a + klen <= b <= l.len(),
    ensures
        r@ == unquoted(trim(l@.subrange(a as int, b as int).skip(klen as int))),
{
    let (x, y) = trim_bounds(l, a + klen, b);
    proof {
        assert(l@.subrange(a as int, b as int).skip(klen as int) =~= l@.subrange((a + klen) as int, b as int));
    }
    let raw = sub_chars(l, x, y);
    let s = string_of(&raw);
    let u = unquote(s.as_str());
    chars_of(u.as_str())
}

/// Parses the `---`-delimited frontmatter at the start of `content` and returns
/// its `name` and `description`; `path` names the file in the errors.
pub fn parse_frontmatter(content: &str, path: &str) -> (r: Result<(String, String), SkillError>)
    ensures
        match (r, frontmatter_outcome(content@)) {
            (Ok((n, d)), Ok((sn, sd))) => n@ == sn && d@ == sd,
            (Err(e), Err(fault)) => fault_error(e, fault, path@),
            _ => false,
        },
{
    let v = chars_of(content);
    let n = v.len();
    let i = skip_ws_forward(&v, 0, n);
    proof {
        assert(v@.subrange(0, n as int) =~= v@);
    }
    let open = vec!['-', '-', '-'];
    proof {
        assert(open@ =~= opening_fence());
    }
    if !starts_with_at(&v, i, n, &open) {
        return Err(SkillError::InvalidFrontmatter { path: to_owned_string(path), detail: to_owned_string("missing opening ---") });
    }
    let start = i + 3;
    let ghost a = v@.subrange(i as int, n as int).skip(3);
    proof {
        assert(a =~= v@.skip(start as int));
    }
    let close = vec!['\n', '-', '-', '-'];
    proof {
        assert(close@ =~= closing_fence());
    }
    let end = match find_chars(&v, start, &close) {
        None => {
            return Err(SkillError::InvalidFrontmatter { path: to_owned_string(path), detail: to_owned_string("missing closing ---") });
        },
        Some(e) => e,
    };
    let block = sub_chars(&v, start, start + end);
    proof {
        assert(block@ =~= a.take(end as int));
        assert(after_opening(content@) == Some(a));
        assert(frontmatter_block(content@) == Some(block@));
    }
    let lines = split_lines(&block);
    let name_k = vec!['n', 'a', 'm', 'e', ':'];
    let desc_k = vec!['d', 'e', 's', 'c', 'r', 'i', 'p', 't', 'i', 'o', 'n', ':'];
    proof {
        assert(name_k@ =~= name_key());
        assert(desc_k@ =~= description_key());
    }
    let ghost ls = text_lines(block@);
    let mut name: Option<Vec<char>> = None;
    let mut desc: Option<Vec<char>> = None;
    let mut k: usize = 0;
    while k < lines.len()
        invariant
            0 <= k <= lines.len(),
            lines_view(lines@) == ls,
            name_k@ == name_key(),
            desc_k@ == description_key(),
            scan_fields(ls.take(k as int)).0 == (match name { Some(x) => Some(x@), None => None::<Seq<char>> }),
            scan_fields(ls.take(k as int)).1 == (match desc { Some(x) => Some(x@), None => None::<Seq<char>> }),
        decreases lines.len() - k,
    {
        let l = &lines[k];
        assert(ls[k as int] == l@);
        assert(ls.take(k + 1).drop_last() =~= ls.take(k as int));
        let (a0, b0) = trim_bounds(l, 0, l.len());
        proof {
            assert(l@.subrange(0, l.len() as int) =~= l@);
        }
        if starts_with_at(l, a0, b0, &name_k) {
            name = Some(field_of(l, a0, b0, 5));
        } else if starts_with_at(l, a0, b0, &desc_k) {
            desc = Some(field_of(l, a0, b0, 12));
        }
        k = k + 1;
    }
    proof {
        assert(ls.take(lines.len() as int) =~= ls);
    }
    let nm = match name {
        None => {
            return Err(SkillError::MissingField { path: to_owned_string(path), field: "name" });
        },
        Some(x) => x,
    };
    let ds = match desc {
        None => {
            return Err(SkillError::MissingField { path: to_owned_string(path), field: "description" });
        },
        Some(x) => x,
    };
    if nm.len() == 0 {
        return Err(SkillError::MissingField { path: to_owned_string(path), field: "name" });
    }
    if ds.len() == 0 {
        return Err(SkillError::MissingField { path: to_owned_string(path), field: "description" });
    }
    Ok((string_of(&nm), string_of(&ds)))
}

/// The text between the fences of the frontmatter, if it has both.
fn block_of(content: &str) -> (r: Option<Vec<char>>)
    ensures
        match r {
            Some(b) => frontmatter_block(content@) == Some(b@),
            None => frontmatter_block(content@) is None,
        },
{
    let v = chars_of(content);
    let n = v.len();
    let i = skip_ws_forward(&v, 0, n);
    proof {
        assert(v@.subrange(0, n as int) =~= v@);
    }
    let open = vec!['-', '-', '-'];
    proof {
        assert(open@ =~= opening_fence());
    }
    if !starts_with_at(&v, i, n, &open) {
        return None;
    }
    let start = i + 3;
    let ghost a = v@.subrange(i as int, n as int).skip(3);
    proof {
        assert(a =~= v@.skip(start as int));
    }
    let close = vec!['\n', '-', '-', '-'];
    proof {
        assert(close@ =~= closing_fence());
    }
    match find_chars(&v, start, &close) {
        None => None,
        Some(end) => {
            let block = sub_chars(&v, start, start + end);
            proof {
                assert(block@ =~= a.take(end as int));
            }
            Some(block)
        },
    }
}


} // verus!
