//! The guarantees of rule-graph compilation, stated and proved once.
//!
//! Each proof function here is a law of the compiler, stated over the same
//! spec functions that the executable functions' contracts use.

use vstd::prelude::*;

use crate::compiledconfig::{
    all_patterns_ok, contains_id, embedded_pattern, first_invalid, first_invalid_in, key_lookup,
    ref_pattern_ok, sorted_ids, sorted_insert, spec_collect, spec_collect_list, spec_for_parent,
    spec_get_rule, spec_rule_ref, RuleRefV,
};
use crate::order::lemma_lex_lt_irrefl;
use crate::rules::{PiiConfigV, Redaction, RuleTypeV};

verus! {

/// A rule behaviour that compilation inserts as-is: neither a composite
/// wrapper nor an unrecognised tag.
pub open spec fn is_terminal(ty: RuleTypeV) -> bool {
    !(ty is Multiple || ty is Alias || ty is Unknown)
}

/// Dedup-by-id: a compiled set never holds two references with the same
/// identifier, however many paths reached that identifier.
pub proof fn lemma_dedup_by_id(s: Seq<RuleRefV>, i: int, j: int)
    requires
        sorted_ids(s),
        0 <= i < s.len(),
        0 <= j < s.len(),
        i != j,
    ensures
        s[i].id != s[j].id,
{
    if s[i].id == s[j].id {
        lemma_lex_lt_irrefl(s[i].id);
    }
}

/// Precedence: an identifier defined in the policy's own rule table resolves
/// to the policy's specification, never the built-in one. Every recursive
/// step of compilation resolves through `spec_get_rule`, so this holds at
/// every nesting depth, not only at top level.
pub proof fn lemma_precedence(config: PiiConfigV, id: Seq<char>)
    requires
        key_lookup(config.rules, id) is Some,
    ensures
        spec_get_rule(config, id) == Option::Some(
            spec_rule_ref(id, key_lookup(config.rules, id)->0),
        ),
{
}

/// Redaction override at the merge itself: a wrapper with a concrete
/// redaction imposes it on a deferring (`Default`) sub-rule, and a wrapper
/// that itself defers leaves the sub-rule's own redaction unchanged.
pub proof fn lemma_redaction_override(child: RuleRefV, parent: RuleRefV)
    ensures
        !(parent.redaction is Default) && child.redaction is Default ==> spec_for_parent(
            child,
            parent,
        ).redaction == parent.redaction,
        parent.redaction is Default ==> spec_for_parent(child, parent).redaction
            == child.redaction,
{
}

/// Origin override at the merge itself: the wrapper's origin is imposed,
/// while the sub-rule keeps its identifier and behaviour.
pub proof fn lemma_origin_override(child: RuleRefV, parent: RuleRefV)
    ensures
        spec_for_parent(child, parent).origin == parent.origin,
        spec_for_parent(child, parent).id == child.id,
        spec_for_parent(child, parent).ty == child.ty,
{
}

/// Origin and redaction override under a hiding alias: expanding a wrapper
/// `W = Alias { rule: T, hide_inner: true }` over a terminal rule `T` yields
/// exactly one reference, with `id = T`, `origin = W`, the terminal's
/// behaviour, and the wrapper's redaction unless the wrapper defers
/// (`Default`), in which case the terminal keeps its own.
pub proof fn lemma_alias_hidden_override(
    config: PiiConfigV,
    acc: Seq<RuleRefV>,
    wrapper_id: Seq<char>,
    inner_id: Seq<char>,
    wrapper_redaction: Redaction,
    inner: RuleRefV,
    budget: nat,
)
    requires
        budget >= 2,
        spec_get_rule(config, wrapper_id) == Option::Some(
            RuleRefV {
                id: wrapper_id,
                origin: wrapper_id,
                ty: RuleTypeV::Alias { rule: inner_id, hide_inner: true },
                redaction: wrapper_redaction,
            },
        ),
        spec_get_rule(config, inner_id) == Option::Some(inner),
        is_terminal(inner.ty),
        !contains_id(acc, wrapper_id),
        !contains_id(acc, inner_id),
    ensures
        spec_collect(config, acc, wrapper_id, Option::None, budget) == sorted_insert(
            acc,
            RuleRefV {
                id: inner_id,
                origin: wrapper_id,
                ty: inner.ty,
                redaction: if wrapper_redaction is Default {
                    inner.redaction
                } else {
                    wrapper_redaction
                },
            },
        ),
{
    let w = RuleRefV {
        id: wrapper_id,
        origin: wrapper_id,
        ty: RuleTypeV::Alias { rule: inner_id, hide_inner: true },
        redaction: wrapper_redaction,
    };
    assert(spec_collect(config, acc, wrapper_id, Option::None, budget) == spec_collect(
        config,
        acc,
        inner_id,
        Option::Some(w),
        (budget - 1) as nat,
    ));
    assert(spec_collect(config, acc, inner_id, Option::Some(w), (budget - 1) as nat)
        == sorted_insert(acc, spec_for_parent(inner, w)));
}

/// Origin under a non-hiding alias: with `hide_inner = false` the wrapper
/// imposes nothing; the terminal keeps its own identifier as origin and its
/// own redaction.
pub proof fn lemma_alias_visible(
    config: PiiConfigV,
    acc: Seq<RuleRefV>,
    wrapper_id: Seq<char>,
    inner_id: Seq<char>,
    wrapper_redaction: Redaction,
    inner: RuleRefV,
    budget: nat,
)
    requires
        budget >= 2,
        spec_get_rule(config, wrapper_id) == Option::Some(
            RuleRefV {
                id: wrapper_id,
                origin: wrapper_id,
                ty: RuleTypeV::Alias { rule: inner_id, hide_inner: false },
                redaction: wrapper_redaction,
            },
        ),
        spec_get_rule(config, inner_id) == Option::Some(inner),
        is_terminal(inner.ty),
        !contains_id(acc, wrapper_id),
        !contains_id(acc, inner_id),
    ensures
        spec_collect(config, acc, wrapper_id, Option::None, budget) == sorted_insert(acc, inner),
        inner.origin == inner_id,
        inner.redaction == spec_get_rule(config, inner_id)->0.redaction,
{
    assert(spec_collect(config, acc, wrapper_id, Option::None, budget) == spec_collect(
        config,
        acc,
        inner_id,
        Option::None,
        (budget - 1) as nat,
    ));
}

/// Dangling silence: an identifier found in neither the policy's table nor
/// the built-in table contributes nothing, at any recursion depth.
pub proof fn lemma_dangling_silent(
    config: PiiConfigV,
    acc: Seq<RuleRefV>,
    id: Seq<char>,
    parent: Option<RuleRefV>,
    budget: nat,
)
    requires
        spec_get_rule(config, id) is None,
    ensures
        spec_collect(config, acc, id, parent, budget) == acc,
{
}

/// Unknown silence: an identifier whose specification carries an
/// unrecognised tag contributes nothing, under any parent.
pub proof fn lemma_unknown_silent(
    config: PiiConfigV,
    acc: Seq<RuleRefV>,
    id: Seq<char>,
    parent: Option<RuleRefV>,
    budget: nat,
    r: RuleRefV,
)
    requires
        spec_get_rule(config, id) == Option::Some(r),
        r.ty is Unknown,
    ensures
        spec_collect(config, acc, id, parent, budget) == acc,
{
}

/// Silence does not spread: a dangling reference at the head of a list
/// leaves its siblings to be expanded exactly as if it were not there.
pub proof fn lemma_silent_sibling(
    config: PiiConfigV,
    acc: Seq<RuleRefV>,
    ids: Seq<Seq<char>>,
    parent: Option<RuleRefV>,
    budget: nat,
)
    requires
        ids.len() > 0,
        spec_get_rule(config, ids[0]) is None,
    ensures
        spec_collect_list(config, acc, ids, parent, budget) == spec_collect_list(
            config,
            acc,
            ids.skip(1),
            parent,
            budget,
        ),
{
    lemma_dangling_silent(config, acc, ids[0], parent, budget);
}

proof fn lemma_first_invalid_in_none(refs: Seq<RuleRefV>)
    ensures
        first_invalid_in(refs) is None <==> (forall|j: int|
            0 <= j < refs.len() ==> ref_pattern_ok(refs[j])),
    decreases refs.len(),
{
    if refs.len() > 0 {
        lemma_first_invalid_in_none(refs.skip(1));
        if !ref_pattern_ok(refs[0]) {
            assert(embedded_pattern(refs[0].ty) is Some);
        }
        if forall|j: int| 0 <= j < refs.len() ==> ref_pattern_ok(refs[j]) {
            assert forall|j: int| 0 <= j < refs.skip(1).len() implies ref_pattern_ok(
                refs.skip(1)[j],
            ) by {
                assert(refs.skip(1)[j] == refs[j + 1]);
            }
        }
        if first_invalid_in(refs) is None {
            assert forall|j: int| 0 <= j < refs.len() implies ref_pattern_ok(refs[j]) by {
                if j > 0 {
                    assert(refs[j] == refs.skip(1)[j - 1]);
                }
            }
        }
    }
}

/// Validation is exact: the validation pass finds an invalid pattern if and
/// only if one exists; in particular a compiled policy whose references embed
/// no pattern at all always passes.
pub proof fn lemma_validation_exact(apps: Seq<(Seq<char>, Seq<RuleRefV>)>)
    ensures
        first_invalid(apps) is None <==> all_patterns_ok(apps),
    decreases apps.len(),
{
    if apps.len() > 0 {
        lemma_first_invalid_in_none(apps[0].1);
        lemma_validation_exact(apps.skip(1));
        if all_patterns_ok(apps) {
            assert forall|j: int| 0 <= j < apps[0].1.len() implies ref_pattern_ok(
                apps[0].1[j],
            ) by {}
            assert forall|k: int, j: int|
                0 <= k < apps.skip(1).len() && 0 <= j < apps.skip(1)[k].1.len()
                implies ref_pattern_ok(apps.skip(1)[k].1[j]) by {
                assert(apps.skip(1)[k] == apps[k + 1]);
            }
            assert(first_invalid(apps) is None);
        }
        if first_invalid(apps) is None {
            assert(all_patterns_ok(apps.skip(1)));
            assert forall|k: int, j: int|
                0 <= k < apps.len() && 0 <= j < apps[k].1.len() implies ref_pattern_ok(
                apps[k].1[j],
            ) by {
                if k > 0 {
                    assert(apps.skip(1)[k - 1] == apps[k]);
                }
            }
        }
    }
}

/// What `insert` guarantees together with dedup: after inserting a
/// reference, its identifier is present in the set.
pub proof fn lemma_sorted_insert_present(s: Seq<RuleRefV>, r: RuleRefV)
    ensures
        contains_id(sorted_insert(s, r), r.id),
    decreases s.len(),
{
    if s.len() == 0 {
        assert(sorted_insert(s, r)[0] == r);
    } else if crate::order::lex_lt(r.id, s[0].id) {
        assert(sorted_insert(s, r)[0] == r);
    } else if r.id == s[0].id {
        assert(sorted_insert(s, r)[0].id == r.id);
    } else {
        lemma_sorted_insert_present(s.skip(1), r);
        let t = sorted_insert(s.skip(1), r);
        let i = choose|i: int| 0 <= i < t.len() && t[i].id == r.id;
        assert(sorted_insert(s, r)[i + 1] == t[i]);
    }
}

} // verus!
