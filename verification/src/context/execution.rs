//! The turn and token limits of an agent run.
use vstd::prelude::*;
use crate::strs::{decimal, push_decimal, to_owned_string};

verus! {

broadcast use vstd::string::group_string_axioms;

/// Why a run that has taken `turns` turns and used `tokens` tokens must stop,
/// if it must: the turn limit first, then the token limit.
pub open spec fn count_limit_text(turns: nat, max_turns: nat, tokens: nat, max_tokens: nat) -> Option<Seq<char>> {
    if turns >= max_turns {
        Some("Max turns reached ("@ + decimal(turns) + seq!['/'] + decimal(max_turns) + seq![')'])
    } else if tokens >= max_tokens {
        Some("Max tokens reached ("@ + decimal(tokens) + seq!['/'] + decimal(max_tokens) + seq![')'])
    } else {
        None
    }
}

/// The reason a run must stop on its turn or token count: `Max turns reached
/// (n/max)` when the turns reach their limit, else `Max tokens reached
/// (n/max)` when the tokens do; `None` while both are below their limits.
pub fn count_limit_reason(turns: usize, max_turns: usize, tokens_used: usize, max_total_tokens: usize) -> (r: Option<String>)
    ensures
        match r {
            Some(t) => count_limit_text(turns as nat, max_turns as nat, tokens_used as nat, max_total_tokens as nat) == Some(t@),
            None => count_limit_text(turns as nat, max_turns as nat, tokens_used as nat, max_total_tokens as nat) is None,
        },
{
    if turns >= max_turns {
        let mut m = to_owned_string("Max turns reached (");
        push_decimal(&mut m, turns as u64);
        crate::strs::push_char(&mut m, '/');
        push_decimal(&mut m, max_turns as u64);
        crate::strs::push_char(&mut m, ')');
        return Some(m);
    }
    if tokens_used >= max_total_tokens {
        let mut m = to_owned_string("Max tokens reached (");
        push_decimal(&mut m, tokens_used as u64);
        crate::strs::push_char(&mut m, '/');
        push_decimal(&mut m, max_total_tokens as u64);
        crate::strs::push_char(&mut m, ')');
        return Some(m);
    }
    None
}

} // verus!
