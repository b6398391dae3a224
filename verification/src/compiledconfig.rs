//! The rule-graph compiler and the compiled policy it produces.
//!
//! `CompiledPiiConfig::new` expands, per selector, every top-level rule
//! identifier of a policy into a flat, deduplicated set of terminal rule
//! references, ordered strictly ascending by identifier. Lookup prefers the
//! policy's own rule table over the built-in table at every nesting depth;
//! composite wrappers with `hide_inner` impose their origin label and, unless
//! they defer, their redaction action on everything they bundle; dangling or
//! unrecognised references contribute nothing. `force_compile` then walks the
//! compiled result and forces every embedded pattern to compile, so an
//! invalid pattern is reported at load time.

use vstd::prelude::*;

use crate::builtin::{builtin_rule, spec_builtin_rule};
use crate::order::{
    lemma_lex_lt_asymm, lemma_lex_lt_connected, lemma_lex_lt_irrefl, lemma_lex_lt_trans, lex_lt,
    str_eq, str_lt,
};
use crate::pattern::{compile_pattern, pattern_valid, PiiConfigError};
use crate::rules::{
    PiiConfig, PiiConfigV, Redaction, RuleSpec, RuleSpecV, RuleType, RuleTypeV, SelectorSpec,
};

verus! {

/// A compiled, terminal reference to a rule: the identifier that produced the
/// terminal behaviour, the outermost visible identifier it was reached
/// through, the resolved terminal behaviour, and the effective redaction
/// action. Identity, for deduplication and ordering, is the `id` alone.
#[derive(Clone, Debug)]
pub struct RuleRef {
    pub id: String,
    pub origin: String,
    pub ty: RuleType,
    pub redaction: Redaction,
}

/// Mathematical model of `RuleRef`.
pub struct RuleRefV {
    pub id: Seq<char>,
    pub origin: Seq<char>,
    pub ty: RuleTypeV,
    pub redaction: Redaction,
}

impl DeepView for RuleRef {
    type V = RuleRefV;

    open spec fn deep_view(&self) -> RuleRefV {
        RuleRefV {
            id: self.id@,
            origin: self.origin@,
            ty: self.ty.deep_view(),
            redaction: self.redaction,
        }
    }
}

/// The reference a freshly resolved specification yields: origin starts out
/// as the identifier itself.
pub open spec fn spec_rule_ref(id: Seq<char>, spec: RuleSpecV) -> RuleRefV {
    RuleRefV { id: id, origin: id, ty: spec.ty, redaction: spec.redaction }
}

/// How a reference changes under a `hide_inner` wrapper: the wrapper's origin
/// is imposed, and the wrapper's redaction wins unless it defers.
pub open spec fn spec_for_parent(child: RuleRefV, parent: RuleRefV) -> RuleRefV {
    RuleRefV {
        id: child.id,
        origin: parent.origin,
        ty: child.ty,
        redaction: if parent.redaction is Default {
            child.redaction
        } else {
            parent.redaction
        },
    }
}

impl RuleRef {
    /// Builds the reference for a named rule specification.
    pub fn new(id: String, spec: &RuleSpec) -> (r: RuleRef)
        ensures
            r.deep_view() == spec_rule_ref(id@, spec.deep_view()),
    {
        RuleRef { origin: id.clone(), id, ty: spec.ty.dup(), redaction: spec.redaction }
    }

    /// Merges this reference into an enclosing `hide_inner` wrapper: the id
    /// and behaviour stay, the origin is the wrapper's, and the wrapper's
    /// redaction wins unless it is `Default`.
    pub fn for_parent(self, parent: Self) -> (r: Self)
        ensures
            r.deep_view() == spec_for_parent(self.deep_view(), parent.deep_view()),
    {
        RuleRef {
            id: self.id,
            origin: parent.origin,
            ty: self.ty,
            redaction: match parent.redaction {
                Redaction::Default => self.redaction,
                _ => parent.redaction,
            },
        }
    }

    /// An explicit copy whose contract says that the copy models the same
    /// reference as the original.
    pub fn dup(&self) -> (r: Self)
        ensures
            r.deep_view() == self.deep_view(),
    {
        RuleRef {
            id: self.id.clone(),
            origin: self.origin.clone(),
            ty: self.ty.dup(),
            redaction: self.redaction,
        }
    }
}

/// First specification stored under a key, if any.
pub open spec fn key_lookup(rules: Seq<(Seq<char>, RuleSpecV)>, id: Seq<char>) -> Option<RuleSpecV>
    decreases rules.len(),
{
    if rules.len() == 0 {
        None
    } else if rules[0].0 == id {
        Some(rules[0].1)
    } else {
        key_lookup(rules.skip(1), id)
    }
}

/// The specification an identifier resolves to: the policy's own table wins
/// over the built-in table; otherwise the identifier is dangling.
pub open spec fn spec_get_rule(config: PiiConfigV, id: Seq<char>) -> Option<RuleRefV> {
    match key_lookup(config.rules, id) {
        Some(s) => Some(spec_rule_ref(id, s)),
        None => match spec_builtin_rule(id) {
            Some(s) => Some(spec_rule_ref(id, s)),
            None => None,
        },
    }
}

proof fn lemma_key_lookup_skip(rules: Seq<(Seq<char>, RuleSpecV)>, id: Seq<char>, i: int)
    requires
        0 <= i <= rules.len(),
        forall|j: int| 0 <= j < i ==> rules[j].0 != id,
    ensures
        key_lookup(rules, id) == key_lookup(rules.skip(i), id),
    decreases i,
{
    if i == 0 {
        assert(rules.skip(0) =~= rules);
    } else {
        assert forall|j: int| 0 <= j < i - 1 implies rules.skip(1)[j].0 != id by {
            assert(rules.skip(1)[j] == rules[j + 1]);
        }
        lemma_key_lookup_skip(rules.skip(1), id, i - 1);
        assert(rules.skip(1).skip(i - 1) =~= rules.skip(i));
    }
}

/// Looks an identifier up in a policy's own rule table.
fn lookup_spec<'a>(rules: &'a Vec<(String, RuleSpec)>, id: &String) -> (r: Option<&'a RuleSpec>)
    ensures
        r.deep_view() == key_lookup(rules.deep_view(), id@),
{
    let n = rules.len();
    let mut i: usize = 0;
    while i < n
        invariant
            n == rules@.len(),
            i <= n,
            forall|j: int| 0 <= j < i ==> rules.deep_view()[j].0 != id@,
        decreases n - i,
    {
        if str_eq(rules[i].0.as_str(), id.as_str()) {
            proof {
                lemma_key_lookup_skip(rules.deep_view(), id@, i as int);
                assert(rules.deep_view().skip(i as int)[0] == rules.deep_view()[i as int]);
            }
            return Some(&rules[i].1);
        }
        i += 1;
    }
    proof {
        lemma_key_lookup_skip(rules.deep_view(), id@, i as int);
    }
    None
}

/// Resolves one identifier: the policy's own rule wins over the built-in rule
/// of the same identifier; an identifier in neither table resolves to nothing.
pub fn get_rule(config: &PiiConfig, id: &String) -> (r: Option<RuleRef>)
    ensures
        r.deep_view() == spec_get_rule(config.deep_view(), id@),
{
    match lookup_spec(&config.rules, id) {
        Some(spec) => Some(RuleRef::new(id.clone(), spec)),
        None => match builtin_rule(id.as_str()) {
            Some(spec) => Some(RuleRef::new(id.clone(), &spec)),
            None => None,
        },
    }
}

/// A compiled set: identifiers strictly ascending, hence free of duplicates.
pub open spec fn sorted_ids(s: Seq<RuleRefV>) -> bool {
    forall|i: int, j: int| 0 <= i < j < s.len() ==> lex_lt(s[i].id, s[j].id)
}

/// Whether some reference in the set carries this identifier.
pub open spec fn contains_id(s: Seq<RuleRefV>, id: Seq<char>) -> bool {
    exists|i: int| 0 <= i < s.len() && s[i].id == id
}

/// Insertion into an id-sorted set: a reference whose identifier is already
/// present is dropped, anything else lands at its ordered position.
pub open spec fn sorted_insert(s: Seq<RuleRefV>, r: RuleRefV) -> Seq<RuleRefV>
    decreases s.len(),
{
    if s.len() == 0 {
        seq![r]
    } else if lex_lt(r.id, s[0].id) {
        seq![r] + s
    } else if r.id == s[0].id {
        s
    } else {
        seq![s[0]] + sorted_insert(s.skip(1), r)
    }
}

proof fn lemma_sorted_insert_at(s: Seq<RuleRefV>, r: RuleRefV, pos: int)
    requires
        sorted_ids(s),
        0 <= pos <= s.len(),
        forall|j: int| 0 <= j < pos ==> lex_lt(s[j].id, r.id),
        pos < s.len() ==> !lex_lt(s[pos].id, r.id),
    ensures
        pos < s.len() && s[pos].id == r.id ==> sorted_insert(s, r) == s,
        !(pos < s.len() && s[pos].id == r.id) ==> sorted_insert(s, r) == s.insert(pos, r),
    decreases pos,
{
    if pos == 0 {
        if s.len() == 0 {
            assert(sorted_insert(s, r) =~= s.insert(0, r));
        } else if s[0].id == r.id {
            lemma_lex_lt_irrefl(r.id);
        } else {
            lemma_lex_lt_connected(r.id, s[0].id);
            assert(lex_lt(r.id, s[0].id));
            assert(seq![r] + s =~= s.insert(0, r));
        }
    } else {
        lemma_lex_lt_asymm(s[0].id, r.id);
        lemma_lex_lt_irrefl(s[0].id);
        assert(s[0].id != r.id);
        let tail = s.skip(1);
        assert forall|j: int| 0 <= j < pos - 1 implies lex_lt(tail[j].id, r.id) by {
            assert(tail[j] == s[j + 1]);
        }
        assert forall|i: int, j: int| 0 <= i < j < tail.len() implies lex_lt(
            tail[i].id,
            tail[j].id,
        ) by {
            assert(tail[i] == s[i + 1]);
            assert(tail[j] == s[j + 1]);
        }
        if pos - 1 < tail.len() {
            assert(tail[pos - 1] == s[pos]);
        }
        lemma_sorted_insert_at(tail, r, pos - 1);
        if pos < s.len() && s[pos].id == r.id {
            assert(seq![s[0]] + tail =~= s);
        } else {
            assert(seq![s[0]] + tail.insert(pos - 1, r) =~= s.insert(pos, r));
        }
    }
}

/// First position whose identifier does not sort strictly below `id`.
fn find_pos(rules: &Vec<RuleRef>, id: &String) -> (pos: usize)
    requires
        sorted_ids(rules.deep_view()),
    ensures
        pos <= rules@.len(),
        forall|j: int| 0 <= j < pos ==> lex_lt(rules.deep_view()[j].id, id@),
        pos < rules@.len() ==> !lex_lt(rules.deep_view()[pos as int].id, id@),
{
    let n = rules.len();
    let mut i: usize = 0;
    while i < n
        invariant
            n == rules@.len(),
            i <= n,
            forall|j: int| 0 <= j < i ==> lex_lt(rules.deep_view()[j].id, id@),
        decreases n - i,
    {
        if !str_lt(rules[i].id.as_str(), id.as_str()) {
            return i;
        }
        i += 1;
    }
    i
}

/// Inserts a reference into an id-sorted set, keeping it sorted and dropping
/// the reference if its identifier is already present.
fn insert_sorted(rules: &mut Vec<RuleRef>, r: RuleRef)
    requires
        sorted_ids(old(rules).deep_view()),
    ensures
        final(rules).deep_view() == sorted_insert(old(rules).deep_view(), r.deep_view()),
        sorted_ids(final(rules).deep_view()),
{
    let ghost s = rules.deep_view();
    let ghost rv = r.deep_view();
    let pos = find_pos(rules, &r.id);
    if pos < rules.len() {
        if str_eq(rules[pos].id.as_str(), r.id.as_str()) {
            proof {
                lemma_sorted_insert_at(s, rv, pos as int);
            }
            return;
        }
    }
    proof {
        lemma_sorted_insert_at(s, rv, pos as int);
        if pos < s.len() {
            lemma_lex_lt_connected(rv.id, s[pos as int].id);
            assert(lex_lt(rv.id, s[pos as int].id));
        }
        let t = s.insert(pos as int, rv);
        assert forall|i: int, j: int| 0 <= i < j < t.len() implies lex_lt(t[i].id, t[j].id) by {
            if i == pos {
                assert(t[j] == s[j - 1]);
                if j - 1 > pos {
                    lemma_lex_lt_trans(rv.id, s[pos as int].id, s[j - 1].id);
                }
            } else if j == pos {
                assert(t[i] == s[i]);
            } else if i < pos && pos < j {
                assert(t[i] == s[i]);
                assert(t[j] == s[j - 1]);
            } else if j < pos {
                assert(t[i] == s[i]);
                assert(t[j] == s[j]);
            } else {
                assert(t[i] == s[i - 1]);
                assert(t[j] == s[j - 1]);
            }
        }
    }
    rules.insert(pos, r);
    proof {
        assert(rules.deep_view() =~= s.insert(pos as int, rv));
    }
}

/// Whether some reference in the set already carries this identifier.
fn contains_ref_id(rules: &Vec<RuleRef>, id: &String) -> (r: bool)
    ensures
        r == contains_id(rules.deep_view(), id@),
{
    let n = rules.len();
    let mut i: usize = 0;
    while i < n
        invariant
            n == rules@.len(),
            i <= n,
            forall|j: int| 0 <= j < i ==> rules.deep_view()[j].id != id@,
        decreases n - i,
    {
        if str_eq(rules[i].id.as_str(), id.as_str()) {
            proof {
                assert(rules.deep_view()[i as int].id == id@);
            }
            return true;
        }
        i += 1;
    }
    false
}

/// One step of graph expansion: what the accumulated set becomes when one
/// identifier is expanded under an optional `hide_inner` parent. A dangling
/// identifier, an `Unknown` specification, an identifier already present,
/// and an exhausted recursion budget all leave the set unchanged; composite
/// wrappers recurse and are never inserted themselves; a terminal rule is
/// inserted at its ordered position.
pub open spec fn spec_collect(
    config: PiiConfigV,
    acc: Seq<RuleRefV>,
    rule_id: Seq<char>,
    parent: Option<RuleRefV>,
    budget: nat,
) -> Seq<RuleRefV>
    decreases budget, 0nat, 0nat,
{
    if budget == 0 {
        acc
    } else {
        match spec_get_rule(config, rule_id) {
            Option::None => acc,
            Option::Some(r) => {
                if contains_id(acc, r.id) {
                    acc
                } else {
                    let merged = match parent {
                        Option::Some(p) => spec_for_parent(r, p),
                        Option::None => r,
                    };
                    match merged.ty {
                        RuleTypeV::Multiple { rules, hide_inner } => spec_collect_list(
                            config,
                            acc,
                            rules,
                            if hide_inner {
                                Option::Some(merged)
                            } else {
                                Option::None
                            },
                            (budget - 1) as nat,
                        ),
                        RuleTypeV::Alias { rule, hide_inner } => spec_collect(
                            config,
                            acc,
                            rule,
                            if hide_inner {
                                Option::Some(merged)
                            } else {
                                Option::None
                            },
                            (budget - 1) as nat,
                        ),
                        RuleTypeV::Unknown { tag } => acc,
                        _ => sorted_insert(acc, merged),
                    }
                }
            },
        }
    }
}

/// Expansion of a list of identifiers, left to right, threading the
/// accumulated set through.
pub open spec fn spec_collect_list(
    config: PiiConfigV,
    acc: Seq<RuleRefV>,
    ids: Seq<Seq<char>>,
    parent: Option<RuleRefV>,
    budget: nat,
) -> Seq<RuleRefV>
    decreases budget, 1nat, ids.len(),
{
    if ids.len() == 0 {
        acc
    } else {
        spec_collect_list(
            config,
            spec_collect(config, acc, ids[0], parent, budget),
            ids.skip(1),
            parent,
            budget,
        )
    }
}

proof fn lemma_collect_list_snoc(
    config: PiiConfigV,
    acc: Seq<RuleRefV>,
    ids: Seq<Seq<char>>,
    x: Seq<char>,
    parent: Option<RuleRefV>,
    budget: nat,
)
    ensures
        spec_collect_list(config, acc, ids.push(x), parent, budget) == spec_collect(
            config,
            spec_collect_list(config, acc, ids, parent, budget),
            x,
            parent,
            budget,
        ),
    decreases ids.len(),
{
    if ids.len() == 0 {
        reveal_with_fuel(spec_collect_list, 3);
        assert(ids.push(x)[0] == x);
        assert(ids.push(x).skip(1) =~= Seq::<Seq<char>>::empty());
    } else {
        assert(ids.push(x)[0] == ids[0]);
        assert(ids.push(x).skip(1) =~= ids.skip(1).push(x));
        lemma_collect_list_snoc(
            config,
            spec_collect(config, acc, ids[0], parent, budget),
            ids.skip(1),
            x,
            parent,
            budget,
        );
    }
}

/// Recursively expands one rule identifier into the accumulated set.
///
/// The identifier is resolved with policy-over-builtin precedence; a
/// `hide_inner` wrapper passes itself down as the parent of everything it
/// bundles; terminal rules land in the set at their id-ordered position; a
/// dangling or unrecognised identifier, an identifier already collected, or
/// an exhausted recursion budget contributes nothing.
#[verifier::loop_isolation(false)]
pub fn collect_rules(
    config: &PiiConfig,
    rules: &mut Vec<RuleRef>,
    rule_id: &String,
    parent: Option<&RuleRef>,
    budget: usize,
)
    requires
        sorted_ids(old(rules).deep_view()),
    ensures
        final(rules).deep_view() == spec_collect(
            config.deep_view(),
            old(rules).deep_view(),
            rule_id@,
            parent.deep_view(),
            budget as nat,
        ),
        sorted_ids(final(rules).deep_view()),
    decreases budget,
{
    if budget == 0 {
        return;
    }
    let resolved = get_rule(config, rule_id);
    let r = match resolved {
        Option::Some(r) => r,
        Option::None => {
            return;
        },
    };
    if contains_ref_id(rules, &r.id) {
        return;
    }
    let merged = match parent {
        Option::Some(p) => r.for_parent(p.dup()),
        Option::None => r,
    };
    match merged.ty {
        RuleType::Multiple(ref m) => {
            let ghost cfg = config.deep_view();
            let ghost accv = rules.deep_view();
            let ghost pv = if m.hide_inner {
                Option::Some(merged.deep_view())
            } else {
                Option::<RuleRefV>::None
            };
            let n = m.rules.len();
            let mut i: usize = 0;
            while i < n
                invariant
                    budget >= 1,
                    n == m.rules@.len(),
                    i <= n,
                    sorted_ids(rules.deep_view()),
                    rules.deep_view() == spec_collect_list(
                        cfg,
                        accv,
                        m.rules.deep_view().take(i as int),
                        pv,
                        (budget - 1) as nat,
                    ),
                decreases n - i,
            {
                if m.hide_inner {
                    collect_rules(config, rules, &m.rules[i], Option::Some(&merged), budget - 1);
                } else {
                    collect_rules(config, rules, &m.rules[i], Option::None, budget - 1);
                }
                proof {
                    let dv = m.rules.deep_view();
                    assert(dv.take(i + 1) =~= dv.take(i as int).push(dv[i as int]));
                    lemma_collect_list_snoc(
                        cfg,
                        accv,
                        dv.take(i as int),
                        dv[i as int],
                        pv,
                        (budget - 1) as nat,
                    );
                }
                i += 1;
            }
            proof {
                assert(m.rules.deep_view().take(n as int) =~= m.rules.deep_view());
            }
        },
        RuleType::Alias(ref a) => {
            if a.hide_inner {
                collect_rules(config, rules, &a.rule, Option::Some(&merged), budget - 1);
            } else {
                collect_rules(config, rules, &a.rule, Option::None, budget - 1);
            }
        },
        RuleType::Unknown(_) => {},
        _ => {
            insert_sorted(rules, merged);
        },
    }
}

/// The recursion budget handed to `collect_rules`: deep enough that on any
/// policy free of wrapper cycles every branch reaches its terminal rules
/// (no path can revisit an identifier without cycling, and each level of
/// nesting resolves one identifier from the policy's table or the built-in
/// table), while a pure wrapper cycle merely exhausts it and contributes
/// nothing.
pub open spec fn spec_budget(config: PiiConfigV) -> nat {
    if config.rules.len() + 16 <= usize::MAX as int {
        (config.rules.len() + 16) as nat
    } else {
        usize::MAX as nat
    }
}

fn rule_budget(config: &PiiConfig) -> (b: usize)
    ensures
        b as nat == spec_budget(config.deep_view()),
{
    let n = config.rules.len();
    if n <= usize::MAX - 16 {
        n + 16
    } else {
        usize::MAX
    }
}

/// What compilation produces: per selector, in source order, the expansion
/// of that selector's top-level identifiers into a fresh set.
pub open spec fn spec_compile(config: PiiConfigV) -> Seq<(Seq<char>, Seq<RuleRefV>)> {
    config.applications.map_values(
        |app: (Seq<char>, Seq<Seq<char>>)|
            (
                app.0,
                spec_collect_list(
                    config,
                    Seq::<RuleRefV>::empty(),
                    app.1,
                    Option::None,
                    spec_budget(config),
                ),
            ),
    )
}

/// A compiled policy: per selector, in source order, the flat, deduplicated
/// set of terminal rule references, ordered ascending by identifier. Built
/// once from a policy and immutable afterwards.
#[derive(Clone, Debug)]
pub struct CompiledPiiConfig {
    pub applications: Vec<(SelectorSpec, Vec<RuleRef>)>,
}

impl DeepView for CompiledPiiConfig {
    type V = Seq<(Seq<char>, Seq<RuleRefV>)>;

    open spec fn deep_view(&self) -> Seq<(Seq<char>, Seq<RuleRefV>)> {
        self.applications.deep_view()
    }
}

impl CompiledPiiConfig {
    /// Compiles a policy. Selectors keep their source order; within each
    /// selector the expanded references are strictly ascending by identifier,
    /// so every identifier appears at most once.
    #[verifier::loop_isolation(false)]
    pub fn new(config: &PiiConfig) -> (r: CompiledPiiConfig)
        ensures
            r.deep_view() == spec_compile(config.deep_view()),
            r.deep_view().len() == config.deep_view().applications.len(),
            forall|k: int|
                0 <= k < r.deep_view().len() ==> r.deep_view()[k].0 == config.deep_view(
                ).applications[k].0,
            forall|k: int| 0 <= k < r.deep_view().len() ==> sorted_ids(r.deep_view()[k].1),
    {
        let budget = rule_budget(config);
        let napps = config.applications.len();
        let mut applications: Vec<(SelectorSpec, Vec<RuleRef>)> = Vec::new();
        let mut s: usize = 0;
        while s < napps
            invariant
                s <= napps,
                applications@.len() == s,
                forall|k: int|
                    0 <= k < s ==> applications.deep_view()[k] == spec_compile(
                        config.deep_view(),
                    )[k],
                forall|k: int| 0 <= k < s ==> sorted_ids(applications.deep_view()[k].1),
            decreases napps - s,
        {
            let app = &config.applications[s];
            let nids = app.1.len();
            let mut rule_set: Vec<RuleRef> = Vec::new();
            let mut t: usize = 0;
            while t < nids
                invariant
                    t <= nids,
                    sorted_ids(rule_set.deep_view()),
                    rule_set.deep_view() == spec_collect_list(
                        config.deep_view(),
                        Seq::<RuleRefV>::empty(),
                        app.1.deep_view().take(t as int),
                        Option::None,
                        budget as nat,
                    ),
                decreases nids - t,
            {
                collect_rules(config, &mut rule_set, &app.1[t], Option::None, budget);
                proof {
                    let dv = app.1.deep_view();
                    assert(dv.take(t + 1) =~= dv.take(t as int).push(dv[t as int]));
                    lemma_collect_list_snoc(
                        config.deep_view(),
                        Seq::<RuleRefV>::empty(),
                        dv.take(t as int),
                        dv[t as int],
                        Option::None,
                        budget as nat,
                    );
                }
                t += 1;
            }
            proof {
                assert(app.1.deep_view().take(nids as int) =~= app.1.deep_view());
            }
            let ghost prev = applications.deep_view();
            applications.push((app.0.dup(), rule_set));
            proof {
                let cv = config.deep_view();
                let newdv = applications.deep_view();
                assert forall|k: int| 0 <= k < s implies newdv[k] == prev[k] by {
                    assert(applications@[k] == applications@.take(s as int)[k]);
                }
                assert(newdv[s as int].0 == cv.applications[s as int].0);
                assert(cv.applications[s as int].1 == app.1.deep_view());
                assert(spec_compile(cv)[s as int] == (
                    cv.applications[s as int].0,
                    spec_collect_list(
                        cv,
                        Seq::<RuleRefV>::empty(),
                        cv.applications[s as int].1,
                        Option::None,
                        spec_budget(cv),
                    ),
                ));
                assert(newdv[s as int] == spec_compile(cv)[s as int]);
            }
            s += 1;
        }
        proof {
            assert(applications.deep_view() =~= spec_compile(config.deep_view()));
        }
        CompiledPiiConfig { applications }
    }

    /// Forces every embedded pattern across the compiled policy to compile.
    /// Succeeds exactly when every pattern is accepted by the engine; fails
    /// with an error naming the first rejected pattern, in selector order and
    /// set order. A policy whose references embed no pattern always passes.
    #[verifier::loop_isolation(false)]
    pub fn force_compile(&self) -> (r: Result<(), PiiConfigError>)
        ensures
            r is Ok <==> first_invalid(self.deep_view()) is None,
            r is Ok <==> all_patterns_ok(self.deep_view()),
            r is Err ==> Option::Some(r->Err_0.pattern@) == first_invalid(self.deep_view())
                && !pattern_valid(r->Err_0.pattern@),
    {
        let napps = self.applications.len();
        let mut s: usize = 0;
        while s < napps
            invariant
                s <= napps,
                forall|k: int| 0 <= k < s ==> first_invalid_in(self.deep_view()[k].1) is None,
                forall|k: int, j: int|
                    0 <= k < s && 0 <= j < self.deep_view()[k].1.len() ==> ref_pattern_ok(
                        self.deep_view()[k].1[j],
                    ),
            decreases napps - s,
        {
            let refs = &self.applications[s].1;
            let n = refs.len();
            let mut t: usize = 0;
            while t < n
                invariant
                    t <= n,
                    forall|j: int| 0 <= j < t ==> ref_pattern_ok(refs.deep_view()[j]),
                decreases n - t,
            {
                let rr = &refs[t];
                let failed: Option<(String, String)> = match &rr.ty {
                    RuleType::Pattern(p) => match compile_pattern(p.pattern.as_str()) {
                        Result::Ok(()) => Option::None,
                        Result::Err(msg) => Option::Some((p.pattern.clone(), msg)),
                    },
                    RuleType::RedactPair(p) => match compile_pattern(p.key_pattern.as_str()) {
                        Result::Ok(()) => Option::None,
                        Result::Err(msg) => Option::Some((p.key_pattern.clone(), msg)),
                    },
                    _ => Option::None,
                };
                match failed {
                    Option::Some((pattern, message)) => {
                        proof {
                            lemma_first_invalid_in_skip(refs.deep_view(), t as int);
                            assert(refs.deep_view().skip(t as int)[0] == refs.deep_view()[
                                t as int
                            ]);
                            lemma_first_invalid_skip(self.deep_view(), s as int);
                            assert(self.deep_view().skip(s as int)[0] == self.deep_view()[
                                s as int
                            ]);
                            assert(self.deep_view()[s as int].1 == refs.deep_view());
                        }
                        return Result::Err(PiiConfigError { pattern, message });
                    },
                    Option::None => {},
                }
                t += 1;
            }
            proof {
                lemma_first_invalid_in_skip(refs.deep_view(), n as int);
                assert(refs.deep_view().skip(n as int) =~= Seq::<RuleRefV>::empty());
                assert(self.deep_view()[s as int].1 == refs.deep_view());
            }
            s += 1;
        }
        proof {
            lemma_first_invalid_skip(self.deep_view(), napps as int);
            assert(self.deep_view().skip(napps as int) =~= Seq::<(Seq<char>, Seq<RuleRefV>)>::empty());
        }
        Result::Ok(())
    }
}

/// The pattern a terminal reference embeds, if any: the pattern of a pattern
/// rule, or the key pattern of a key/value rule.
pub open spec fn embedded_pattern(ty: RuleTypeV) -> Option<Seq<char>> {
    match ty {
        RuleTypeV::Pattern { pattern } => Option::Some(pattern),
        RuleTypeV::RedactPair { key_pattern } => Option::Some(key_pattern),
        _ => Option::None,
    }
}

/// Whether a reference's embedded pattern, if it has one, is accepted by the
/// regular-expression engine.
pub open spec fn ref_pattern_ok(r: RuleRefV) -> bool {
    match embedded_pattern(r.ty) {
        Option::Some(p) => pattern_valid(p),
        Option::None => true,
    }
}

/// Every reference of every selector has a valid embedded pattern, if any.
pub open spec fn all_patterns_ok(apps: Seq<(Seq<char>, Seq<RuleRefV>)>) -> bool {
    forall|k: int, j: int|
        0 <= k < apps.len() && 0 <= j < apps[k].1.len() ==> ref_pattern_ok(apps[k].1[j])
}

/// The first invalid pattern within one compiled set, if any.
pub open spec fn first_invalid_in(refs: Seq<RuleRefV>) -> Option<Seq<char>>
    decreases refs.len(),
{
    if refs.len() == 0 {
        Option::None
    } else if !ref_pattern_ok(refs[0]) {
        embedded_pattern(refs[0].ty)
    } else {
        first_invalid_in(refs.skip(1))
    }
}

/// The first invalid pattern across a compiled policy, selectors in order.
pub open spec fn first_invalid(apps: Seq<(Seq<char>, Seq<RuleRefV>)>) -> Option<Seq<char>>
    decreases apps.len(),
{
    if apps.len() == 0 {
        Option::None
    } else {
        match first_invalid_in(apps[0].1) {
            Option::Some(p) => Option::Some(p),
            Option::None => first_invalid(apps.skip(1)),
        }
    }
}

proof fn lemma_first_invalid_in_skip(refs: Seq<RuleRefV>, i: int)
    requires
        0 <= i <= refs.len(),
        forall|j: int| 0 <= j < i ==> ref_pattern_ok(refs[j]),
    ensures
        first_invalid_in(refs) == first_invalid_in(refs.skip(i)),
    decreases i,
{
    if i == 0 {
        assert(refs.skip(0) =~= refs);
    } else {
        assert forall|j: int| 0 <= j < i - 1 implies ref_pattern_ok(refs.skip(1)[j]) by {
            assert(refs.skip(1)[j] == refs[j + 1]);
        }
        lemma_first_invalid_in_skip(refs.skip(1), i - 1);
        assert(refs.skip(1).skip(i - 1) =~= refs.skip(i));
    }
}

proof fn lemma_first_invalid_skip(apps: Seq<(Seq<char>, Seq<RuleRefV>)>, i: int)
    requires
        0 <= i <= apps.len(),
        forall|k: int| 0 <= k < i ==> first_invalid_in(apps[k].1) is None,
    ensures
        first_invalid(apps) == first_invalid(apps.skip(i)),
    decreases i,
{
    if i == 0 {
        assert(apps.skip(0) =~= apps);
    } else {
        assert forall|k: int| 0 <= k < i - 1 implies first_invalid_in(
            apps.skip(1)[k].1,
        ) is None by {
            assert(apps.skip(1)[k] == apps[k + 1]);
        }
        lemma_first_invalid_skip(apps.skip(1), i - 1);
        assert(apps.skip(1).skip(i - 1) =~= apps.skip(i));
    }
}

} // verus!
