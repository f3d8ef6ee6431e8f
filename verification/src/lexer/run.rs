//! What a whole run of the lexer yields: the grammar's steps repeated from
//! the start of the input until the end-of-input token or an error.

use vstd::prelude::*;
use crate::types::TokenV;
use super::model::{Fail, spec_next_token, token_start};
use super::progress::lemma_next_token_moves_on;
use super::{error_matches, pos_of, LexerError, LexerState, Span, SpannedToken};

verus! {

/// A token of a run: what it is, and the indices where it starts and ends.
pub type RunToken = (TokenV, int, int);

/// The tokens of a run from index `i` in state `st`, up to and including
/// `EOF`, or the first error. Steps that yield nothing are skipped.
pub open spec fn lex_run(s: Seq<char>, i: int, st: LexerState) -> Result<Seq<RunToken>, Fail>
    decreases s.len() - i,
{
    let step = spec_next_token(s, i, st);
    let k = token_start(s, i, st);
    if !(0 <= i <= s.len() && step.next <= s.len()) {
        Ok(Seq::empty())
    } else {
        proof {
            lemma_next_token_moves_on(s, i, st);
        }
        match step.out {
            Err(f) => Err(f),
            Ok(None) => lex_run(s, step.next, step.state),
            Ok(Some(t)) => {
                if t == TokenV::EOF {
                    Ok(seq![(t, k, step.next)])
                } else {
                    match lex_run(s, step.next, step.state) {
                        Ok(rest) => Ok(seq![(t, k, step.next)] + rest),
                        Err(f) => Err(f),
                    }
                }
            },
        }
    }
}

/// Where a run goes on after an error at `next`: one character further,
/// unless the input is exhausted.
pub open spec fn after_error(s: Seq<char>, next: int) -> int {
    if next < s.len() {
        next + 1
    } else {
        s.len() as int
    }
}

/// A run that collects errors instead of stopping: after an error the
/// lexer skips one character and goes on; an error at the end of the input
/// (something left unterminated) ends the run with `EOF`. Yields the tokens
/// (up to and including `EOF`) and the errors, in order.
pub open spec fn lex_run_recovering(s: Seq<char>, i: int, st: LexerState) -> (Seq<RunToken>, Seq<Fail>)
    decreases s.len() - i,
{
    let step = spec_next_token(s, i, st);
    let k = token_start(s, i, st);
    if !(0 <= i <= s.len() && step.next <= s.len()) {
        (Seq::empty(), Seq::empty())
    } else {
        proof {
            lemma_next_token_moves_on(s, i, st);
        }
        match step.out {
            Err(f) => {
                if i < s.len() {
                    let r = lex_run_recovering(s, after_error(s, step.next), step.state);
                    (r.0, seq![f] + r.1)
                } else {
                    (seq![(TokenV::EOF, s.len() as int, s.len() as int)], seq![f])
                }
            },
            Ok(None) => lex_run_recovering(s, step.next, step.state),
            Ok(Some(t)) => {
                if t == TokenV::EOF {
                    (seq![(t, k, step.next)], Seq::empty())
                } else {
                    let r = lex_run_recovering(s, step.next, step.state);
                    (seq![(t, k, step.next)] + r.0, r.1)
                }
            },
        }
    }
}

/// The next step of a run that yields something (a token or an error),
/// from index `i` in state `st`, with the index where its token starts.
pub open spec fn next_item(s: Seq<char>, i: int, st: LexerState) -> (int, super::model::Step)
    decreases s.len() - i,
{
    let step = spec_next_token(s, i, st);
    if 0 <= i <= s.len() && step.next <= s.len() && step.out == Ok::<Option<TokenV>, Fail>(None) {
        proof {
            lemma_next_token_moves_on(s, i, st);
        }
        next_item(s, step.next, step.state)
    } else {
        (token_start(s, i, st), step)
    }
}

/// The run `r` with the tokens `acc` in front of its own.
pub open spec fn prepend(acc: Seq<RunToken>, r: Result<Seq<RunToken>, Fail>) -> Result<Seq<RunToken>, Fail> {
    match r {
        Ok(ts) => Ok(acc + ts),
        Err(f) => Err(f),
    }
}

/// Whether the exec tokens are the run's tokens, with spans at the run's indices.
pub open spec fn tokens_match(v: Seq<SpannedToken>, s: Seq<char>, ts: Seq<RunToken>) -> bool {
    &&& v.len() == ts.len()
    &&& forall|m: int| 0 <= m < v.len() ==> {
        &&& (#[trigger] v[m]).token@ == ts[m].0
        &&& v[m].span == (Span { start: pos_of(s, ts[m].1), end: pos_of(s, ts[m].2) })
    }
}

/// Whether the exec errors are the run's errors.
pub open spec fn errors_match(v: Seq<LexerError>, s: Seq<char>, fs: Seq<Fail>) -> bool {
    &&& v.len() == fs.len()
    &&& forall|m: int| 0 <= m < v.len() ==> error_matches(#[trigger] v[m], s, fs[m])
}


/// One step of a recovering run, unfolded.
pub proof fn lemma_recovering_step(s: Seq<char>, i: int, st: LexerState)
    requires
        0 <= i <= s.len(),
        spec_next_token(s, i, st).next <= s.len(),
    ensures
        ({
            let step = spec_next_token(s, i, st);
            let k = token_start(s, i, st);
            match step.out {
                Err(f) => lex_run_recovering(s, i, st) == if i < s.len() {
                    let r = lex_run_recovering(s, after_error(s, step.next), step.state);
                    (r.0, seq![f] + r.1)
                } else {
                    (seq![(TokenV::EOF, s.len() as int, s.len() as int)], seq![f])
                },
                Ok(None) => lex_run_recovering(s, i, st) == lex_run_recovering(s, step.next, step.state),
                Ok(Some(t)) => lex_run_recovering(s, i, st) == if t == TokenV::EOF {
                    (seq![(t, k, step.next)], Seq::<Fail>::empty())
                } else {
                    let r = lex_run_recovering(s, step.next, step.state);
                    (seq![(t, k, step.next)] + r.0, r.1)
                },
            }
        }),
{
}


/// Whether the tokens lie within `[i, n]`, each ends before the next
/// begins, and none but the last is `EOF`.
pub open spec fn in_order(ts: Seq<RunToken>, i: int, n: int) -> bool {
    &&& forall|m: int| 0 <= m < ts.len() ==> i <= (#[trigger] ts[m]).1 <= ts[m].2 <= n
    &&& forall|m: int| 0 <= m < ts.len() - 1 ==> (#[trigger] ts[m]).2 <= ts[m + 1].1
    &&& forall|m: int| 0 <= m < ts.len() - 1 ==> (#[trigger] ts[m]).0 != TokenV::EOF
}

proof fn lemma_in_order_prepend(t: TokenV, k: int, next: int, rest: Seq<RunToken>, i: int, n: int)
    requires
        i <= k <= next <= n,
        t != TokenV::EOF,
        in_order(rest, next, n),
    ensures
        in_order(seq![(t, k, next)] + rest, i, n),
{
    let ts = seq![(t, k, next)] + rest;
    assert forall|m: int| 0 <= m < ts.len() implies i <= (#[trigger] ts[m]).1 <= ts[m].2 <= n by {
        if m > 0 {
            assert(ts[m] == rest[m - 1]);
        }
    }
    assert forall|m: int| 0 <= m < ts.len() - 1 implies (#[trigger] ts[m]).2 <= ts[m + 1].1 by {
        assert(ts[m + 1] == rest[m]);
        if m > 0 {
            assert(ts[m] == rest[m - 1]);
        }
    }
    assert forall|m: int| 0 <= m < ts.len() - 1 implies (#[trigger] ts[m]).0 != TokenV::EOF by {
        if m > 0 {
            assert(ts[m] == rest[m - 1]);
        }
    }
}

proof fn lemma_in_order_weaken(ts: Seq<RunToken>, i: int, j: int, n: int)
    requires
        i <= j,
        in_order(ts, j, n),
    ensures
        in_order(ts, i, n),
{
}

/// A successful run keeps its tokens in order (see [`in_order`]): each
/// token's span lies within the text from where the run starts, each token
/// ends no later than the next begins, and no token but the last is `EOF`.
#[verifier::rlimit(40)]
pub proof fn lemma_run_in_order(s: Seq<char>, i: int, st: LexerState)
    requires
        0 <= i <= s.len(),
    ensures
        lex_run(s, i, st) matches Ok(ts) ==> in_order(ts, i, s.len() as int),
    decreases s.len() - i,
{
    let step = spec_next_token(s, i, st);
    let k = token_start(s, i, st);
    if step.next <= s.len() {
        lemma_next_token_moves_on(s, i, st);
        match step.out {
            Err(f) => {},
            Ok(None) => {
                lemma_run_in_order(s, step.next, step.state);
                if let Ok(ts) = lex_run(s, step.next, step.state) {
                    lemma_in_order_weaken(ts, i, step.next, s.len() as int);
                }
            },
            Ok(Some(t)) => {
                if t != TokenV::EOF {
                    lemma_run_in_order(s, step.next, step.state);
                    if let Ok(rest) = lex_run(s, step.next, step.state) {
                        lemma_in_order_prepend(t, k, step.next, rest, i, s.len() as int);
                    }
                }
            },
        }
    }
}

} // verus!
