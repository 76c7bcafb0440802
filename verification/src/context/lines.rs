//! Line splitting and joining with the semantics of `str::lines` and `join("\n")`,
//! and head-plus-tail truncation of long texts.
use vstd::prelude::*;
use crate::strs::{chars_of, decimal, push_char, push_chars, push_decimal, push_str};

verus! {

broadcast use vstd::string::group_string_axioms;

/// Removes one trailing carriage return.
pub open spec fn strip_cr(l: Seq<char>) -> Seq<char> {
    if l.len() > 0 && l.last() == '\r' {
        l.drop_last()
    } else {
        l
    }
}

/// Scanning `s` left to right: the lines completed by a `'\n'` (each without its
/// line ending) and the characters of the line still open.
pub open spec fn split_state(s: Seq<char>) -> (Seq<Seq<char>>, Seq<char>)
    decreases s.len(),
{
    if s.len() == 0 {
        (seq![], seq![])
    } else {
        let st = split_state(s.drop_last());
        if s.last() == '\n' {
            (st.0.push(strip_cr(st.1)), seq![])
        } else {
            (st.0, st.1.push(s.last()))
        }
    }
}

/// The lines of `s` as `str::lines` yields them: split at `'\n'` (a `"\r\n"` ending
/// also loses its `'\r'`); the final line ending is optional, so a trailing empty
/// line is not yielded.
pub open spec fn text_lines(s: Seq<char>) -> Seq<Seq<char>> {
    let st = split_state(s);
    if st.1.len() == 0 {
        st.0
    } else {
        st.0.push(st.1)
    }
}

/// The lines joined with `'\n'` between consecutive lines.
pub open spec fn join_lines(ls: Seq<Seq<char>>) -> Seq<char>
    decreases ls.len(),
{
    if ls.len() == 0 {
        seq![]
    } else if ls.len() == 1 {
        ls[0]
    } else {
        join_lines(ls.drop_last()) + seq!['\n'] + ls.last()
    }
}

/// The values of a list of character vectors.
pub open spec fn lines_view(v: Seq<Vec<char>>) -> Seq<Seq<char>> {
    v.map_values(|x: Vec<char>| x@)
}

/// The marker put in place of omitted lines.
pub open spec fn truncation_marker(omitted: nat) -> Seq<char> {
    "\n\n[... "@ + decimal(omitted) + " lines truncated ...]\n\n"@
}

/// `text` cut to its first `max_lines / 2` and last `max_lines - max_lines / 2`
/// lines, with a marker counting the omitted lines in between; `text` itself
/// when it has at most `max_lines` lines.
pub open spec fn truncated_text(text: Seq<char>, max_lines: nat) -> Seq<char> {
    let ls = text_lines(text);
    if ls.len() <= max_lines {
        text
    } else {
        let head = max_lines / 2;
        let tail = max_lines - head;
        join_lines(ls.take(head as int)) + truncation_marker((ls.len() - head - tail) as nat)
            + join_lines(ls.skip(ls.len() - tail))
    }
}

/// The lines of `chars`, as `str::lines` yields them.
pub fn split_lines(chars: &Vec<char>) -> (ls: Vec<Vec<char>>)
    ensures
        lines_view(ls@) == text_lines(chars@),
{
    let mut done: Vec<Vec<char>> = Vec::new();
    let mut cur: Vec<char> = Vec::new();
    let mut i: usize = 0;
    while i < chars.len()
        invariant
            0 <= i <= chars.len(),
            lines_view(done@) == split_state(chars@.take(i as int)).0,
            cur@ == split_state(chars@.take(i as int)).1,
        decreases chars.len() - i,
    {
        let c = chars[i];
        assert(chars@.take(i + 1).drop_last() =~= chars@.take(i as int));
        if c == '\n' {
            let n = cur.len();
            if n > 0 && cur[n - 1] == '\r' {
                cur.pop();
                assert(cur@ =~= split_state(chars@.take(i as int)).1.drop_last());
            }
            let finished = cur;
            cur = Vec::new();
            done.push(finished);
            assert(lines_view(done@) =~= split_state(chars@.take(i + 1)).0);
            assert(cur@ =~= split_state(chars@.take(i + 1)).1);
        } else {
            cur.push(c);
        }
        i = i + 1;
    }
    assert(chars@.take(chars.len() as int) =~= chars@);
    if cur.len() > 0 {
        done.push(cur);
        assert(lines_view(done@) =~= text_lines(chars@));
    }
    done
}

/// Appends `ls[from..to]` joined with `'\n'` to `s`.
pub fn push_joined(s: &mut String, ls: &Vec<Vec<char>>, from: usize, to: usize)
    requires
        from <= to <= ls.len(),
    ensures
        final(s)@ == old(s)@ + join_lines(lines_view(ls@).subrange(from as int, to as int)),
{
    let ghost start = s@;
    let mut i: usize = from;
    while i < to
        invariant
            from <= i <= to <= ls.len(),
            s@ == start + join_lines(lines_view(ls@).subrange(from as int, i as int)),
        decreases to - i,
    {
        let ghost before = s@;
        if i > from {
            push_char(s, '\n');
        }
        push_chars(s, &ls[i]);
        let ghost sub = lines_view(ls@).subrange(from as int, i + 1);
        assert(sub.drop_last() =~= lines_view(ls@).subrange(from as int, i as int));
        if i == from {
            assert(sub.len() == 1);
            assert(s@ =~= start + join_lines(sub));
        } else {
            assert(s@ =~= start + join_lines(sub));
        }
        i = i + 1;
    }
}

/// Truncate `text` to its first `max_lines / 2` and last `max_lines - max_lines / 2`
/// lines, putting `"[... N lines truncated ...]"` (with blank lines around it) in
/// place of the `N` omitted lines. A text of at most `max_lines` lines is returned unchanged.
pub fn truncate_text_head_tail(text: &str, max_lines: usize) -> (r: String)
    ensures
        r@ == truncated_text(text@, max_lines as nat),
{
    let chars = chars_of(text);
    let lines = split_lines(&chars);
    let n = lines.len();
    if n <= max_lines {
        return crate::strs::to_owned_string(text);
    }
    let head = max_lines / 2;
    let tail = max_lines - head;
    let omitted = n - head - tail;
    let mut result = String::new();
    push_joined(&mut result, &lines, 0, head);
    push_str(&mut result, "\n\n[... ");
    push_decimal(&mut result, omitted as u64);
    push_str(&mut result, " lines truncated ...]\n\n");
    push_joined(&mut result, &lines, n - tail, n);
    proof {
        let lv = lines_view(lines@);
        assert(lv.subrange(0, head as int) =~= lv.take(head as int));
        assert(lv.subrange(n - tail, n as int) =~= lv.skip(n - tail));
    }
    assert(result@ =~= truncated_text(text@, max_lines as nat));
    result
}

/// A text with at most `max_lines` lines is left unchanged by truncation.
pub proof fn law_short_text_unchanged(text: Seq<char>, max_lines: nat)
    requires
        text_lines(text).len() <= max_lines,
    ensures
        truncated_text(text, max_lines) == text,
{
}

} // verus!
