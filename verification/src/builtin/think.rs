//! The `think` tool: it echoes the model's thought, within a budget of calls
//! and estimated tokens per run.
use vstd::prelude::*;
use vstd::string::StringExecFns;
use crate::text::{chars_of, is_whitespace, is_whitespace_exec};
use crate::tools::error::ToolError;
use crate::tools::tool::Tool;

verus! {

/// Arguments of a `think` call.
#[derive(Debug, Clone)]
pub struct ThinkArgs {
    /// Brief human-readable description of what this step does.
    pub label: String,
    pub thought: String,
}

/// Budget of `think` calls per run.
#[derive(Debug, Clone, Copy, Default)]
pub struct ThinkLimits {
    pub max_calls: usize,
    pub max_tokens: usize,
}

/// Number of whitespace-separated words in `s` (as `split_whitespace().count()`).
pub open spec fn word_count(s: Seq<char>) -> nat
    decreases s.len(),
{
    if s.len() == 0 {
        0
    } else {
        let starts_word = !is_whitespace(s.last()) && (s.len() == 1 || is_whitespace(s[s.len() - 2]));
        word_count(s.drop_last()) + if starts_word { 1nat } else { 0nat }
    }
}

proof fn lemma_word_count_bound(s: Seq<char>)
    ensures
        word_count(s) <= s.len(),
    decreases s.len(),
{
    if s.len() > 0 {
        lemma_word_count_bound(s.drop_last());
    }
}

/// Counts the whitespace-separated words of `text`; the token estimate of
/// a thought is computed from this count.
pub fn count_words(text: &str) -> (n: usize)
    ensures
        n == word_count(text@),
{
    let cs = chars_of(text);
    let mut n: usize = 0;
    let mut i: usize = 0;
    while i < cs.len()
        invariant
            i <= cs@.len(),
            cs@ == text@,
            n == word_count(cs@.subrange(0, i as int)),
        decreases cs@.len() - i,
    {
        proof {
            lemma_word_count_bound(cs@.subrange(0, i as int));
            assert(cs@.subrange(0, i + 1).drop_last() =~= cs@.subrange(0, i as int));
        }
        if !is_whitespace_exec(cs[i]) && (i == 0 || is_whitespace_exec(cs[i - 1])) {
            n = n + 1;
        }
        i = i + 1;
    }
    assert(cs@.subrange(0, cs@.len() as int) =~= cs@);
    n
}

/// Echoes thoughts while counting calls and estimated tokens against its
/// limits; the counts start at zero and are reset before each run.
#[derive(Debug, Clone)]
pub struct ThinkTool {
    call_count: usize,
    token_count: usize,
    limits: ThinkLimits,
}

/// The outcome of a `think` call: the thought is echoed when one more call
/// fits the call budget and its tokens fit the token budget; a refused call
/// names the budget it would exceed.
pub open spec fn think_outcome(calls: nat, tokens: nat, limits: ThinkLimits, est: nat, thought: Seq<char>)
    -> Result<Seq<char>, Seq<char>>
{
    if calls >= limits.max_calls {
        Err("think call limit reached"@)
    } else if tokens + est > limits.max_tokens {
        Err("think token limit reached"@)
    } else {
        Ok(thought)
    }
}

impl ThinkTool {
    /// Calls counted in this run.
    pub closed spec fn calls(self) -> nat {
        self.call_count as nat
    }

    /// Estimated tokens counted in this run.
    pub closed spec fn tokens(self) -> nat {
        self.token_count as nat
    }

    /// The limits the tool enforces.
    pub closed spec fn limits_spec(self) -> ThinkLimits {
        self.limits
    }

    pub fn new(limits: ThinkLimits) -> (r: Self)
        ensures
            r.calls() == 0,
            r.tokens() == 0,
            r.limits_spec() == limits,
    {
        ThinkTool { call_count: 0, token_count: 0, limits }
    }

    /// Run a `think` call whose thought is estimated at `est` tokens:
    /// echo the thought and count the call, or refuse it and count nothing.
    pub fn execute(&mut self, args: ThinkArgs, est: usize) -> (r: Result<String, ToolError>)
        ensures
            final(self).limits_spec() == old(self).limits_spec(),
            match think_outcome(old(self).calls(), old(self).tokens(), old(self).limits_spec(), est as nat, args.thought@) {
                Ok(t) => (r matches Ok(out) && out@ == t)
                    && final(self).calls() == old(self).calls() + 1
                    && final(self).tokens() == old(self).tokens() + est,
                Err(m) => (r matches Err(ToolError::Denied(msg)) && msg@ == m)
                    && final(self).calls() == old(self).calls()
                    && final(self).tokens() == old(self).tokens(),
            },
    {
        if self.call_count >= self.limits.max_calls {
            return Err(ToolError::Denied(String::from_str("think call limit reached")));
        }
        if self.token_count > self.limits.max_tokens || est > self.limits.max_tokens - self.token_count {
            return Err(ToolError::Denied(String::from_str("think token limit reached")));
        }
        self.call_count = self.call_count + 1;
        self.token_count = self.token_count + est;
        Ok(args.thought)
    }

    /// Reset the per-run counts, restoring the whole budget.
    pub fn reset(&mut self)
        ensures
            final(self).calls() == 0,
            final(self).tokens() == 0,
            final(self).limits_spec() == old(self).limits_spec(),
    {
        self.call_count = 0;
        self.token_count = 0;
    }
}

impl Default for ThinkTool {
    /// Eight calls and 4096 estimated tokens per run.
    fn default() -> (r: Self)
        ensures
            r.calls() == 0,
            r.tokens() == 0,
            r.limits_spec() == (ThinkLimits { max_calls: 8, max_tokens: 4096 }),
    {
        ThinkTool::new(ThinkLimits { max_calls: 8, max_tokens: 4096 })
    }
}

impl Tool for ThinkTool {
    fn name(&self) -> (r: &str)
        ensures
            r@ == "think"@,
    {
        "think"
    }

    fn description(&self) -> (r: &str)
        ensures
            r@ == "Think through a problem step by step"@,
    {
        "Think through a problem step by step"
    }

    fn retryable(&self) -> (r: bool)
        ensures
            !r,
    {
        false
    }

    fn reset_limits(&mut self)
        ensures
            final(self).calls() == 0,
            final(self).tokens() == 0,
            final(self).limits_spec() == old(self).limits_spec(),
    {
        self.reset();
    }
}

/// After a reset, a `think` call is refused only for a budget that cannot
/// hold it at all: no calls allowed, or a thought estimated above the token
/// limit.
pub proof fn lemma_think_reset_restores_budget(limits: ThinkLimits, est: nat, thought: Seq<char>)
    ensures
        think_outcome(0, 0, limits, est, thought) is Ok <==> (limits.max_calls > 0 && est <= limits.max_tokens),
{
}

/// The counts after a run of `think` calls estimated at `ests`, in order,
/// from the counts `calls` and `tokens`: each accepted call (see
/// `think_outcome`) is counted, each refused one is not.
pub open spec fn think_run(calls: nat, tokens: nat, limits: ThinkLimits, ests: Seq<nat>) -> (nat, nat)
    decreases ests.len(),
{
    if ests.len() == 0 {
        (calls, tokens)
    } else {
        let (c, t) = think_run(calls, tokens, limits, ests.drop_last());
        if think_outcome(c, t, limits, ests.last(), Seq::empty()) is Ok {
            (c + 1, t + ests.last())
        } else {
            (c, t)
        }
    }
}

/// However many `think` calls a run makes, from a reset budget, the calls
/// accepted stay within the call limit and their estimated tokens within
/// the token limit.
pub proof fn lemma_think_run_stays_in_budget(limits: ThinkLimits, ests: Seq<nat>)
    ensures
        think_run(0, 0, limits, ests).0 <= limits.max_calls,
        think_run(0, 0, limits, ests).1 <= limits.max_tokens,
    decreases ests.len(),
{
    if ests.len() > 0 {
        lemma_think_run_stays_in_budget(limits, ests.drop_last());
    }
}

} // verus!
