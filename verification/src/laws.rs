//! Laws of the expander, proved against the compilation model that
//! `Grok::compile` is proved to return.

use vstd::prelude::*;

use crate::expand::{
    compile_model, do_substs, expand_loop, nameof, CompileModel, EState, Expansion, GErr, Substs,
};
use crate::parser::find_ph_from;
use crate::text::lemma_dec_rep_injective;

verus! {

/// Distinct capture indices carry distinct internal names.
pub proof fn lemma_nameof_injective(a: nat, b: nat)
    requires
        nameof(a) == nameof(b),
    ensures
        a == b,
{
    reveal_strlit("name");
    assert(crate::text::dec_rep(a) =~= nameof(a).skip(4));
    assert(crate::text::dec_rep(b) =~= nameof(b).skip(4));
    lemma_dec_rep_injective(a, b);
}

/// Every alias-map value is an internal capture name `name<N>` with `N`
/// below the next free index.
pub open spec fn alias_values_indexed(alias: Map<Seq<char>, Seq<char>>, idx: nat) -> bool {
    forall|k: Seq<char>|
        alias.contains_key(k) ==> exists|n: nat| n < idx && alias[k] == #[trigger] nameof(n)
}

/// No two alias-map keys share a value.
pub open spec fn alias_values_distinct(alias: Map<Seq<char>, Seq<char>>) -> bool {
    forall|k1: Seq<char>, k2: Seq<char>|
        alias.contains_key(k1) && alias.contains_key(k2) && k1 != k2 ==> alias[k1] != alias[k2]
}

proof fn lemma_do_substs_distinct(
    w: Seq<char>,
    alias: Map<Seq<char>, Seq<char>>,
    idx: nat,
    n: nat,
    lit: Seq<char>,
    body: Seq<char>,
    key: Seq<char>,
    capture: bool,
)
    requires
        alias_values_indexed(alias, idx),
        alias_values_distinct(alias),
    ensures
        do_substs(w, alias, idx, n, lit, body, key, capture) matches Substs::Made {
            alias: a2,
            idx: i2,
            ..
        } ==> alias_values_indexed(a2, i2) && alias_values_distinct(a2),
    decreases n,
{
    if n == 0 || idx >= crate::expand::max_index() {
    } else {
        let a1 = alias.insert(key, nameof(idx));
        assert forall|k: Seq<char>| a1.contains_key(k) implies exists|m: nat|
            m < idx + 1 && a1[k] == #[trigger] nameof(m) by {
            if k == key {
                assert(a1[k] == nameof(idx));
            } else {
                assert(alias.contains_key(k));
                let m = choose|m: nat| m < idx && alias[k] == #[trigger] nameof(m);
                assert(a1[k] == nameof(m));
            }
        }
        assert forall|k1: Seq<char>, k2: Seq<char>|
            a1.contains_key(k1) && a1.contains_key(k2) && k1 != k2 implies a1[k1] != a1[k2] by {
            if k1 == key || k2 == key {
                let other = if k1 == key {
                    k2
                } else {
                    k1
                };
                assert(alias.contains_key(other));
                let m = choose|m: nat| m < idx && alias[other] == #[trigger] nameof(m);
                if a1[other] == nameof(idx) {
                    lemma_nameof_injective(m, idx);
                }
            }
        }
        lemma_do_substs_distinct(
            crate::text::replace_first_s(w, lit, crate::expand::frag_of(body, idx, capture)),
            a1,
            idx + 1,
            (n - 1) as nat,
            lit,
            body,
            key,
            capture,
        );
    }
}

proof fn lemma_expand_loop_distinct(st: EState, with_alias_only: bool)
    requires
        alias_values_indexed(st.alias, st.idx),
        alias_values_distinct(st.alias),
    ensures
        expand_loop(st, with_alias_only) matches Expansion::Done { alias, idx, .. }
            ==> alias_values_indexed(alias, idx) && alias_values_distinct(alias),
    decreases st.left,
{
    if st.left == 0 {
    } else {
        match find_ph_from(st.w, 0) {
            None => {},
            Some(i) => {
                let p = crate::parser::ph_at(st.w, i)->Some_0;
                let raw = st.w.subrange(i + 2, p.name_end);
                let defs2 = match p.def {
                    Some((ds, de)) => st.defs.insert(raw, st.w.subrange(ds, de)),
                    None => st.defs,
                };
                if defs2.contains_key(raw) {
                    let body = defs2[raw];
                    let lit = st.w.subrange(i, p.end);
                    let key = match p.alias {
                        Some((a, b)) => st.w.subrange(a, b),
                        None => st.w.subrange(i + 2, p.end - 1),
                    };
                    let capture = !(with_alias_only && p.alias is None);
                    let n = crate::text::count_from(st.w, lit, 0);
                    lemma_do_substs_distinct(st.w, st.alias, st.idx, n, lit, body, key, capture);
                    match do_substs(st.w, st.alias, st.idx, n, lit, body, key, capture) {
                        Substs::Overflow => {},
                        Substs::Made { w, alias, idx } => {
                            lemma_expand_loop_distinct(
                                EState { w, defs: defs2, alias, idx, left: (st.left - 1) as nat },
                                with_alias_only,
                            );
                        },
                    }
                }
            },
        }
    }
}

/// Capture distinctness: after a successful compile, every value of the
/// alias map is an internal capture name `name<N>`, and no two user-visible
/// keys resolve to the same internal name. (The flat regex can still hold a
/// `name<N>` group that no key resolves to: a later binding under the same
/// user-visible key shadows an earlier one, and in suppression mode an
/// unaliased placeholder claims an index and a map entry while its rewritten
/// text captures nothing.)
pub proof fn lemma_capture_distinctness(
    pattern: Seq<char>,
    defs: Map<Seq<char>, Seq<char>>,
    with_alias_only: bool,
)
    ensures
        compile_model(pattern, defs, with_alias_only) matches CompileModel::Compiled {
            alias,
            ..
        } ==> (forall|k: Seq<char>| alias.contains_key(k) ==> exists|n: nat|
            alias[k] == #[trigger] nameof(n)) && alias_values_distinct(alias),
{
    let st0 = EState { w: pattern, defs, alias: Map::empty(), idx: 0, left: 1024 };
    lemma_expand_loop_distinct(st0, with_alias_only);
    match expand_loop(st0, with_alias_only) {
        Expansion::Done { alias, idx, .. } => {
            assert forall|k: Seq<char>| alias.contains_key(k) implies exists|n: nat|
                alias[k] == #[trigger] nameof(n) by {
                if alias_values_indexed(alias, idx) {
                    let n = choose|n: nat| n < idx && alias[k] == #[trigger] nameof(n);
                    assert(alias[k] == nameof(n));
                }
            }
        },
        Expansion::Failed { .. } => {},
    }
}

/// Substitution completeness: the flat regex of a successful compile holds no
/// remaining placeholder.
pub proof fn lemma_substitution_completeness(
    pattern: Seq<char>,
    defs: Map<Seq<char>, Seq<char>>,
    with_alias_only: bool,
)
    ensures
        compile_model(pattern, defs, with_alias_only) matches CompileModel::Compiled {
            flat,
            ..
        } ==> find_ph_from(flat, 0) is None,
{
    let st0 = EState { w: pattern, defs, alias: Map::empty(), idx: 0, left: 1024 };
    lemma_expand_loop_done_no_ph(st0, with_alias_only);
}

proof fn lemma_expand_loop_done_no_ph(st: EState, with_alias_only: bool)
    ensures
        expand_loop(st, with_alias_only) matches Expansion::Done { w, .. } ==> find_ph_from(w, 0)
            is None,
    decreases st.left,
{
    if st.left == 0 {
    } else {
        match find_ph_from(st.w, 0) {
            None => {},
            Some(i) => {
                let p = crate::parser::ph_at(st.w, i)->Some_0;
                let raw = st.w.subrange(i + 2, p.name_end);
                let defs2 = match p.def {
                    Some((ds, de)) => st.defs.insert(raw, st.w.subrange(ds, de)),
                    None => st.defs,
                };
                if defs2.contains_key(raw) {
                    let body = defs2[raw];
                    let lit = st.w.subrange(i, p.end);
                    let key = match p.alias {
                        Some((a, b)) => st.w.subrange(a, b),
                        None => st.w.subrange(i + 2, p.end - 1),
                    };
                    let capture = !(with_alias_only && p.alias is None);
                    let n = crate::text::count_from(st.w, lit, 0);
                    match do_substs(st.w, st.alias, st.idx, n, lit, body, key, capture) {
                        Substs::Overflow => {},
                        Substs::Made { w, alias, idx } => {
                            lemma_expand_loop_done_no_ph(
                                EState { w, defs: defs2, alias, idx, left: (st.left - 1) as nat },
                                with_alias_only,
                            );
                        },
                    }
                }
            },
        }
    }
}

/// Idempotent registry insert: registering the same definition twice leaves
/// the registry exactly as registering it once does, so every later compile
/// behaves the same.
pub proof fn lemma_insert_idempotent(
    defs: Map<Seq<char>, Seq<char>>,
    name: Seq<char>,
    fragment: Seq<char>,
)
    ensures
        defs.insert(name, fragment).insert(name, fragment) == defs.insert(name, fragment),
{
    assert(defs.insert(name, fragment).insert(name, fragment) =~= defs.insert(name, fragment));
}

} // verus!
