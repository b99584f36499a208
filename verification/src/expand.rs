//! The mathematical model of pattern compilation: a specification-level
//! expander whose result the executable `Grok::compile` is proved to return.
//!
//! A state carries the working string, the definition registry, the alias map
//! under construction, the next capture index, and the remaining iteration
//! budget. Each pass finds the first placeholder, inserts any inline
//! definition, and rewrites every occurrence of the placeholder's literal
//! text into a capture group or a non-capturing group.

use vstd::prelude::*;

use crate::parser::{find_ph_from, ph_at};
use crate::text::{count_from, dec_rep, replace_first_s};

verus! {

/// The iteration budget of one compilation: the bound on recursion through
/// definitions that reference further definitions.
pub open spec fn max_recursion() -> nat {
    1024
}

/// The largest capture index the expander can hold.
pub open spec fn max_index() -> nat {
    usize::MAX as nat
}

/// A compilation error, at the model level.
pub enum GErr {
    /// The iteration budget was exhausted (a definition cycle, or nesting
    /// beyond the bound).
    Recursion,
    /// Expansion of the carried pattern produced an empty regex.
    Empty(Seq<char>),
    /// The carried definition name was referenced but is not registered.
    NotFound(Seq<char>),
    /// The engine rejected the carried flat regex.
    RegexFailed(Seq<char>),
    /// An internal bound broke; the carried text describes which.
    Generic(Seq<char>),
}

/// The description carried when the capture index cannot grow further.
pub open spec fn index_exhausted_msg() -> Seq<char> {
    "capture index exhausted"@
}

/// An expander state between passes.
pub struct EState {
    pub w: Seq<char>,
    pub defs: Map<Seq<char>, Seq<char>>,
    pub alias: Map<Seq<char>, Seq<char>>,
    pub idx: nat,
    pub left: nat,
}

/// The outcome of the pass loop.
pub enum Expansion {
    Done {
        w: Seq<char>,
        defs: Map<Seq<char>, Seq<char>>,
        alias: Map<Seq<char>, Seq<char>>,
        idx: nat,
    },
    Failed { err: GErr, defs: Map<Seq<char>, Seq<char>> },
}

/// The outcome of the substitutions of one pass.
pub enum Substs {
    Made { w: Seq<char>, alias: Map<Seq<char>, Seq<char>>, idx: nat },
    Overflow,
}

/// The internal capture-group name assigned to index `i`.
pub open spec fn nameof(i: nat) -> Seq<char> {
    "name"@ + dec_rep(i)
}

/// The text a placeholder occurrence is rewritten to: a named capture group
/// when `capture` holds, a non-capturing group otherwise.
pub open spec fn frag_of(body: Seq<char>, idx: nat, capture: bool) -> Seq<char> {
    if capture {
        "(?P<"@ + nameof(idx) + ">"@ + body + ")"@
    } else {
        "(?:"@ + body + ")"@
    }
}

/// Rewrites `n` occurrences of the literal `lit`, one at a time from the
/// left, claiming one capture index per occurrence and recording `key` in the
/// alias map each time.
pub open spec fn do_substs(
    w: Seq<char>,
    alias: Map<Seq<char>, Seq<char>>,
    idx: nat,
    n: nat,
    lit: Seq<char>,
    body: Seq<char>,
    key: Seq<char>,
    capture: bool,
) -> Substs
    decreases n,
{
    if n == 0 {
        Substs::Made { w, alias, idx }
    } else if idx >= max_index() {
        Substs::Overflow
    } else {
        do_substs(
            replace_first_s(w, lit, frag_of(body, idx, capture)),
            alias.insert(key, nameof(idx)),
            idx + 1,
            (n - 1) as nat,
            lit,
            body,
            key,
            capture,
        )
    }
}

/// One pass of the expander applied to the first placeholder of `st.w`, then
/// the following passes; or the final state once no placeholder remains.
pub open spec fn expand_loop(st: EState, with_alias_only: bool) -> Expansion
    decreases st.left,
{
    if st.left == 0 {
        Expansion::Failed { err: GErr::Recursion, defs: st.defs }
    } else {
        match find_ph_from(st.w, 0) {
            None => Expansion::Done { w: st.w, defs: st.defs, alias: st.alias, idx: st.idx },
            Some(i) => {
                let p = ph_at(st.w, i)->Some_0;
                let raw = st.w.subrange(i + 2, p.name_end);
                let defs2 = match p.def {
                    Some((ds, de)) => st.defs.insert(raw, st.w.subrange(ds, de)),
                    None => st.defs,
                };
                if !defs2.contains_key(raw) {
                    Expansion::Failed { err: GErr::NotFound(raw), defs: defs2 }
                } else {
                    let body = defs2[raw];
                    let lit = st.w.subrange(i, p.end);
                    let key = match p.alias {
                        Some((a, b)) => st.w.subrange(a, b),
                        None => st.w.subrange(i + 2, p.end - 1),
                    };
                    let capture = !(with_alias_only && p.alias is None);
                    let n = count_from(st.w, lit, 0);
                    match do_substs(st.w, st.alias, st.idx, n, lit, body, key, capture) {
                        Substs::Overflow => Expansion::Failed {
                            err: GErr::Generic(index_exhausted_msg()),
                            defs: defs2,
                        },
                        Substs::Made { w, alias, idx } => expand_loop(
                            EState { w, defs: defs2, alias, idx, left: (st.left - 1) as nat },
                            with_alias_only,
                        ),
                    }
                }
            },
        }
    }
}

/// The model of one compilation: the pass loop from a fresh state, then the
/// emptiness check. `RegexFailed` is not produced here; whether the engine
/// accepts the flat regex of an `Ok` outcome is the engine's decision.
pub enum CompileModel {
    Compiled {
        flat: Seq<char>,
        defs: Map<Seq<char>, Seq<char>>,
        alias: Map<Seq<char>, Seq<char>>,
    },
    Refused { err: GErr, defs: Map<Seq<char>, Seq<char>> },
}

pub open spec fn compile_model(
    pattern: Seq<char>,
    defs: Map<Seq<char>, Seq<char>>,
    with_alias_only: bool,
) -> CompileModel {
    let st = EState {
        w: pattern,
        defs,
        alias: Map::empty(),
        idx: 0,
        left: max_recursion(),
    };
    match expand_loop(st, with_alias_only) {
        Expansion::Failed { err, defs } => CompileModel::Refused { err, defs },
        Expansion::Done { w, defs, alias, idx } => {
            if w.len() == 0 {
                CompileModel::Refused { err: GErr::Empty(pattern), defs }
            } else {
                CompileModel::Compiled { flat: w, defs, alias }
            }
        },
    }
}

} // verus!
