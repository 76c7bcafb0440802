//! The prun tools: the model asks to drop the tail of its in-run context,
//! optionally leaving a memo in its place; the request is checked here and
//! applied by the agent loop between turns.
use vstd::prelude::*;
use crate::strs::{decimal, push_decimal, push_str, to_owned_string};
use crate::tools::{ToolError, ToolErrorV, ToolResult, text_result, text_tool_result};

verus! {

broadcast use vstd::string::group_string_axioms;

/// What the model is told `prun` does.
pub const PRUN_DESCRIPTION: &'static str = "Surgically remove the last N tokens of model-generated (in-run) context. Use when exploration or tool results waste context length. Pruned content is preserved in session log.";

/// What the model is told `prun_with_memo` does.
pub const PRUN_WITH_MEMO_DESCRIPTION: &'static str = "Surgically remove the last N tokens of in-run context and replace with a summary memo. Use when exploration had findings worth remembering but full content is too verbose.";

/// The JSON schema of `prun`'s arguments.
pub const PRUN_SCHEMA: &'static str = "{\"properties\":{\"tokens\":{\"description\":\"Tokens to remove from tail of in-run context\",\"type\":\"integer\"}},\"required\":[\"tokens\"],\"type\":\"object\"}";

/// The JSON schema of `prun_with_memo`'s arguments.
pub const PRUN_WITH_MEMO_SCHEMA: &'static str = "{\"properties\":{\"memo\":{\"description\":\"Summary to insert in place of pruned content\",\"type\":\"string\"},\"tokens\":{\"description\":\"Tokens to remove from tail of in-run context\",\"type\":\"integer\"}},\"required\":[\"tokens\",\"memo\"],\"type\":\"object\"}";

/// A pruning the model asked for.
#[derive(Debug)]
pub struct PrunRequest {
    pub tokens_to_remove: usize,
    pub memo: Option<String>,
}

/// A pruning that was applied: the timestamps of the messages it removed.
#[derive(Debug)]
pub struct PrunRecord {
    pub pruned_timestamps: Vec<u64>,
    pub tokens_removed: usize,
    pub memo: Option<String>,
}

/// Which of the two prun tools.
#[derive(PartialEq, Eq, Structural, Clone, Copy, Debug)]
pub enum PrunVariant {
    Prun,
    PrunWithMemo,
}

/// A prun tool. The queue its requests go to is held by the caller.
pub struct PrunTool {
    pub variant: PrunVariant,
}

/// The value of an optional string.
pub open spec fn opt_memo(s: Option<String>) -> Option<Seq<char>> {
    match s {
        Some(x) => Some(x@),
        None => None,
    }
}

/// The acknowledgement the model sees for a recorded request.
pub open spec fn prun_ack(tokens: nat) -> Seq<char> {
    "Prun request recorded: "@ + decimal(tokens) + " tokens will be removed before next turn."@
}

impl PrunTool {
    /// The prun tool of the given variant.
    pub fn new(variant: PrunVariant) -> (r: PrunTool)
        ensures
            r.variant == variant,
    {
        PrunTool { variant }
    }

    /// The tool's name: `prun` or `prun_with_memo`.
    pub fn name(&self) -> (r: &'static str)
        ensures
            r@ == (match self.variant { PrunVariant::Prun => "prun"@, PrunVariant::PrunWithMemo => "prun_with_memo"@ }),
    {
        match self.variant {
            PrunVariant::Prun => "prun",
            PrunVariant::PrunWithMemo => "prun_with_memo",
        }
    }

    /// The tool's label.
    pub fn label(&self) -> (r: &'static str)
        ensures
            r@ == (match self.variant { PrunVariant::Prun => "Prun"@, PrunVariant::PrunWithMemo => "Prun with Memo"@ }),
    {
        match self.variant {
            PrunVariant::Prun => "Prun",
            PrunVariant::PrunWithMemo => "Prun with Memo",
        }
    }

    /// What the model is told the tool does.
    pub fn description(&self) -> (r: &'static str)
        ensures
            r@ == (match self.variant {
                PrunVariant::Prun => PRUN_DESCRIPTION@,
                PrunVariant::PrunWithMemo => PRUN_WITH_MEMO_DESCRIPTION@,
            }),
    {
        match self.variant {
            PrunVariant::Prun => PRUN_DESCRIPTION,
            PrunVariant::PrunWithMemo => PRUN_WITH_MEMO_DESCRIPTION,
        }
    }

    /// The JSON schema of the tool's arguments, as JSON text.
    pub fn parameters_schema(&self) -> (r: &'static str)
        ensures
            r@ == (match self.variant {
                PrunVariant::Prun => PRUN_SCHEMA@,
                PrunVariant::PrunWithMemo => PRUN_WITH_MEMO_SCHEMA@,
            }),
    {
        match self.variant {
            PrunVariant::Prun => PRUN_SCHEMA,
            PrunVariant::PrunWithMemo => PRUN_WITH_MEMO_SCHEMA,
        }
    }

    /// Checks a call's arguments: `tokens` (absent counts as 0) must be
    /// positive, and the memo variant needs a memo, which it keeps; the plain
    /// variant drops any memo. On success, the request to queue and the
    /// acknowledgement for the model.
    pub fn accept(&self, tokens: Option<u64>, memo: Option<String>) -> (r: Result<(PrunRequest, ToolResult), ToolError>)
        ensures
            ({
                let n = match tokens { Some(t) => t as usize, None => 0usize };
                &&& n == 0 ==> (r matches Err(e) && e@ == ToolErrorV::InvalidArgs("tokens must be > 0"@))
                &&& n > 0 && self.variant == PrunVariant::PrunWithMemo && memo is None ==> (r matches Err(e)
                    && e@ == ToolErrorV::InvalidArgs("memo is required for prun_with_memo"@))
                &&& n > 0 && !(self.variant == PrunVariant::PrunWithMemo && memo is None) ==> (r matches Ok((req, res)) && req.tokens_to_remove == n
                    && opt_memo(req.memo) == (match self.variant {
                        PrunVariant::PrunWithMemo => opt_memo(memo),
                        PrunVariant::Prun => None,
                    })
                    && text_result(res, prun_ack(n as nat), "null"@))
            }),
    {
        let n: usize = match tokens {
            Some(t) => t as usize,
            None => 0,
        };
        if n == 0 {
            return Err(ToolError::InvalidArgs(to_owned_string("tokens must be > 0")));
        }
        let kept = match self.variant {
            PrunVariant::PrunWithMemo => match memo {
                Some(m) => Some(m),
                None => {
                    return Err(ToolError::InvalidArgs(to_owned_string("memo is required for prun_with_memo")));
                },
            },
            PrunVariant::Prun => None,
        };
        let mut ack = to_owned_string("Prun request recorded: ");
        push_decimal(&mut ack, n as u64);
        push_str(&mut ack, " tokens will be removed before next turn.");
        Ok((PrunRequest { tokens_to_remove: n, memo: kept }, text_tool_result(ack, to_owned_string("null"))))
    }
}

} // verus!
