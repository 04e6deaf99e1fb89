//! Policy schema: version checks and load-time rejection of every construct
//! the evaluator gives no exact semantics to, and the bundled policy.
use vstd::prelude::*;
use crate::ast::{
    ActionKind, Condition, Modality, Overlay, OverlayEffect, Policy, PolicyVersion, Resource, Rule,
    Subject, policy_version_text,
};
use crate::finding::Severity;
use crate::text::{debug_str, str_debug_text, str_eq};

verus! {

/// Policy document formats.
#[derive(Debug, Clone, Copy, PartialEq, Eq, Structural)]
pub enum PolicyFormat {
    Toml,
    Json,
}

/// Errors produced while loading or validating a policy document. Reading
/// and decoding happen outside this crate; their messages are carried as
/// text.
#[derive(Debug, Clone)]
pub enum SchemaError {
    Io(String),
    Toml(String),
    Json(String),
    UnsupportedSchemaVersion { found: PolicyVersion, supported: PolicyVersion },
    ReservedConstruct { rule_id: String, construct: String },
    ReservedOverlayEffect { overlay_id: String, construct: String },
    DuplicateRuleId(String),
    UnknownExtension(String),
}

/// Mathematical model of a [`SchemaError`].
pub enum SchemaErrorView {
    Io(Seq<char>),
    Toml(Seq<char>),
    Json(Seq<char>),
    UnsupportedSchemaVersion { found: PolicyVersion, supported: PolicyVersion },
    ReservedConstruct { rule_id: Seq<char>, construct: Seq<char> },
    ReservedOverlayEffect { overlay_id: Seq<char>, construct: Seq<char> },
    DuplicateRuleId(Seq<char>),
    UnknownExtension(Seq<char>),
}

impl View for SchemaError {
    type V = SchemaErrorView;

    open spec fn view(&self) -> SchemaErrorView {
        match self {
            SchemaError::Io(m) => SchemaErrorView::Io(m@),
            SchemaError::Toml(m) => SchemaErrorView::Toml(m@),
            SchemaError::Json(m) => SchemaErrorView::Json(m@),
            SchemaError::UnsupportedSchemaVersion { found, supported } =>
                SchemaErrorView::UnsupportedSchemaVersion { found: *found, supported: *supported },
            SchemaError::ReservedConstruct { rule_id, construct } =>
                SchemaErrorView::ReservedConstruct { rule_id: rule_id@, construct: construct@ },
            SchemaError::ReservedOverlayEffect { overlay_id, construct } =>
                SchemaErrorView::ReservedOverlayEffect {
                overlay_id: overlay_id@,
                construct: construct@,
            },
            SchemaError::DuplicateRuleId(id) => SchemaErrorView::DuplicateRuleId(id@),
            SchemaError::UnknownExtension(e) => SchemaErrorView::UnknownExtension(e@),
        }
    }
}

/// The message of a schema error.
pub open spec fn schema_error_text(e: SchemaErrorView) -> Seq<char> {
    match e {
        SchemaErrorView::Io(m) => "cannot read policy file: "@ + m,
        SchemaErrorView::Toml(m) => "cannot parse policy TOML: "@ + m,
        SchemaErrorView::Json(m) => "cannot parse policy JSON: "@ + m,
        SchemaErrorView::UnsupportedSchemaVersion { found, supported } =>
            "unsupported schema version "@ + policy_version_text(found)
            + " (this engine implements "@ + policy_version_text(supported)
            + "); migrate the policy or upgrade the engine"@,
        SchemaErrorView::ReservedConstruct { rule_id, construct } => "rule "@ + rule_id + ": "@
            + construct + " is schema-reserved and not evaluable in v0"@,
        SchemaErrorView::ReservedOverlayEffect { overlay_id, construct } => "overlay "@
            + overlay_id + ": "@ + construct + " is schema-reserved and not evaluable in v0"@,
        SchemaErrorView::DuplicateRuleId(id) => "duplicate rule id: "@ + id,
        SchemaErrorView::UnknownExtension(e) => "unknown policy file extension "@
            + str_debug_text(e) + ": use .toml or .json"@,
    }
}

impl SchemaError {
    /// The human-readable message of the error.
    pub fn to_string(&self) -> (s: String)
        ensures
            s@ == schema_error_text(self@),
    {
        match self {
            SchemaError::Io(m) => {
                let mut s = String::from_str("cannot read policy file: ");
                s.append(m.as_str());
                s
            },
            SchemaError::Toml(m) => {
                let mut s = String::from_str("cannot parse policy TOML: ");
                s.append(m.as_str());
                s
            },
            SchemaError::Json(m) => {
                let mut s = String::from_str("cannot parse policy JSON: ");
                s.append(m.as_str());
                s
            },
            SchemaError::UnsupportedSchemaVersion { found, supported } => {
                let mut s = String::from_str("unsupported schema version ");
                let f = found.to_string();
                s.append(f.as_str());
                s.append(" (this engine implements ");
                let v = supported.to_string();
                s.append(v.as_str());
                s.append("); migrate the policy or upgrade the engine");
                s
            },
            SchemaError::ReservedConstruct { rule_id, construct } => {
                let mut s = String::from_str("rule ");
                s.append(rule_id.as_str());
                s.append(": ");
                s.append(construct.as_str());
                s.append(" is schema-reserved and not evaluable in v0");
                s
            },
            SchemaError::ReservedOverlayEffect { overlay_id, construct } => {
                let mut s = String::from_str("overlay ");
                s.append(overlay_id.as_str());
                s.append(": ");
                s.append(construct.as_str());
                s.append(" is schema-reserved and not evaluable in v0");
                s
            },
            SchemaError::DuplicateRuleId(id) => {
                let mut s = String::from_str("duplicate rule id: ");
                s.append(id.as_str());
                s
            },
            SchemaError::UnknownExtension(e) => {
                let mut s = String::from_str("unknown policy file extension ");
                let d = debug_str(e.as_str());
                s.append(d.as_str());
                s.append(": use .toml or .json");
                s
            },
        }
    }
}

/// The schema version this engine implements: 0.1.
pub open spec fn schema_version_spec() -> PolicyVersion {
    PolicyVersion { major: 0, minor: 1 }
}

/// The schema version this engine implements.
pub fn supported_schema_version() -> (v: PolicyVersion)
    ensures
        v == schema_version_spec(),
{
    PolicyVersion { major: 0, minor: 1 }
}

/// The document format for a file extension: `toml` or `json`; anything
/// else (`<none>` standing for no extension) is refused.
pub fn format_for_extension(ext: Option<&str>) -> (r: Result<PolicyFormat, SchemaError>)
    ensures
        match ext {
            Some(e) => if e@ == "toml"@ {
                r == Ok::<PolicyFormat, SchemaError>(PolicyFormat::Toml)
            } else if e@ == "json"@ {
                r == Ok::<PolicyFormat, SchemaError>(PolicyFormat::Json)
            } else {
                r matches Err(x) && x@ == SchemaErrorView::UnknownExtension(e@)
            },
            None => r matches Err(x) && x@ == SchemaErrorView::UnknownExtension("<none>"@),
        },
{
    match ext {
        Some(e) => if str_eq(e, "toml") {
            Ok(PolicyFormat::Toml)
        } else if str_eq(e, "json") {
            Ok(PolicyFormat::Json)
        } else {
            Err(SchemaError::UnknownExtension(String::from_str(e)))
        },
        None => Err(SchemaError::UnknownExtension(String::from_str("<none>"))),
    }
}

/// The error a condition raises: the reserved content predicate, anywhere
/// inside `Not`, `All` and `Any` (first in order).
pub open spec fn cond_error(c: Condition, rule_id: Seq<char>) -> Option<SchemaErrorView>
    decreases c,
{
    match c {
        Condition::FileMatchesPattern { .. } => Some(
            SchemaErrorView::ReservedConstruct {
                rule_id,
                construct: "condition file-matches-pattern (v0 facts carry no file contents)"@,
            },
        ),
        Condition::Not { of } => cond_error(*of, rule_id),
        Condition::All { of } => conds_error(of@, rule_id),
        Condition::Any { of } => conds_error(of@, rule_id),
        _ => None,
    }
}

/// The first error among a sequence of conditions.
pub open spec fn conds_error(cs: Seq<Condition>, rule_id: Seq<char>) -> Option<SchemaErrorView>
    decreases cs,
{
    if cs.len() == 0 {
        None
    } else {
        match cond_error(cs[0], rule_id) {
            Some(e) => Some(e),
            None => conds_error(cs.drop_first(), rule_id),
        }
    }
}

/// The error a rule raises: a reserved subject, resource, action, or
/// condition, checked in that order.
pub open spec fn rule_error(r: Rule) -> Option<SchemaErrorView> {
    if r.subject is Release {
        Some(SchemaErrorView::ReservedConstruct { rule_id: r.id@, construct: "subject release"@ })
    } else if r.resource is Release {
        Some(SchemaErrorView::ReservedConstruct { rule_id: r.id@, construct: "resource release"@ })
    } else if r.action is ConsistentWith {
        Some(
            SchemaErrorView::ReservedConstruct {
                rule_id: r.id@,
                construct: "action consistent-with"@,
            },
        )
    } else {
        cond_error(r.condition, r.id@)
    }
}

/// The rules overlays add, in order.
pub open spec fn added_rules(os: Seq<Overlay>) -> Seq<Rule>
    decreases os.len(),
{
    if os.len() == 0 {
        seq![]
    } else {
        added_rules(os.drop_last()) + effect_rules(os.last().effects@)
    }
}

/// The rules added by a sequence of effects.
pub open spec fn effect_rules(es: Seq<OverlayEffect>) -> Seq<Rule>
    decreases es.len(),
{
    if es.len() == 0 {
        seq![]
    } else {
        effect_rules(es.drop_last()) + add_rules_of(es.last())
    }
}

/// The rules an effect adds.
pub open spec fn add_rules_of(e: OverlayEffect) -> Seq<Rule> {
    match e {
        OverlayEffect::AddRules { rules } => rules@,
        _ => seq![],
    }
}

proof fn lemma_added_rules_concat(a: Seq<Overlay>, b: Seq<Overlay>)
    ensures
        added_rules(a + b) == added_rules(a) + added_rules(b),
    decreases b.len(),
{
    if b.len() == 0 {
        assert(a + b =~= a);
    } else {
        lemma_added_rules_concat(a, b.drop_last());
        assert((a + b).drop_last() =~= a + b.drop_last());
        assert((a + b).last() == b.last());
    }
}

proof fn lemma_effect_rules_concat(a: Seq<OverlayEffect>, b: Seq<OverlayEffect>)
    ensures
        effect_rules(a + b) == effect_rules(a) + effect_rules(b),
    decreases b.len(),
{
    if b.len() == 0 {
        assert(a + b =~= a);
    } else {
        lemma_effect_rules_concat(a, b.drop_last());
        assert((a + b).drop_last() =~= a + b.drop_last());
        assert((a + b).last() == b.last());
    }
}

proof fn lemma_added_rule_at(rules: Seq<Rule>, os: Seq<Overlay>, o: int, e: int, k: int)
    requires
        0 <= o < os.len(),
        0 <= e < os[o].effects@.len(),
        0 <= k < add_rules_of(os[o].effects@[e]).len(),
    ensures
        (rules + added_rules(os))[rules.len() + added_rules(os.subrange(0, o)).len() + effect_rules(
            os[o].effects@.subrange(0, e),
        ).len() + k] == add_rules_of(os[o].effects@[e])[k],
        rules.len() + added_rules(os.subrange(0, o)).len() + effect_rules(
            os[o].effects@.subrange(0, e),
        ).len() + k < (rules + added_rules(os)).len(),
        added_rules(os.subrange(0, o + 1)) == added_rules(os.subrange(0, o)) + effect_rules(
            os[o].effects@,
        ),
{
    let es = os[o].effects@;
    assert(os =~= os.subrange(0, o) + (seq![os[o]] + os.subrange(o + 1, os.len() as int)));
    lemma_added_rules_concat(os.subrange(0, o), seq![os[o]] + os.subrange(o + 1, os.len() as int));
    lemma_added_rules_concat(seq![os[o]], os.subrange(o + 1, os.len() as int));
    assert(seq![os[o]].drop_last() =~= Seq::<Overlay>::empty());
    assert(seq![os[o]].last() == os[o]);
    assert(added_rules(seq![os[o]].drop_last()) == Seq::<Rule>::empty());
    assert(added_rules(seq![os[o]]) =~= effect_rules(es));
    assert(es =~= es.subrange(0, e) + (seq![es[e]] + es.subrange(e + 1, es.len() as int)));
    lemma_effect_rules_concat(es.subrange(0, e), seq![es[e]] + es.subrange(e + 1, es.len() as int));
    lemma_effect_rules_concat(seq![es[e]], es.subrange(e + 1, es.len() as int));
    assert(seq![es[e]].drop_last() =~= Seq::<OverlayEffect>::empty());
    assert(seq![es[e]].last() == es[e]);
    assert(effect_rules(seq![es[e]].drop_last()) == Seq::<Rule>::empty());
    assert(effect_rules(seq![es[e]]) =~= add_rules_of(es[e]));
    assert(os.subrange(0, o + 1) =~= os.subrange(0, o) + seq![os[o]]);
    lemma_added_rules_concat(os.subrange(0, o), seq![os[o]]);
}

/// The first error among rules, given the ids already seen: a repeated id,
/// else the rule's own error.
pub open spec fn rules_error(rs: Seq<Rule>, seen: Set<Seq<char>>) -> Option<SchemaErrorView>
    decreases rs.len(),
{
    if rs.len() == 0 {
        None
    } else if seen.contains(rs[0].id@) {
        Some(SchemaErrorView::DuplicateRuleId(rs[0].id@))
    } else {
        match rule_error(rs[0]) {
            Some(e) => Some(e),
            None => rules_error(rs.drop_first(), seen.insert(rs[0].id@)),
        }
    }
}

/// The first effect of the overlays that is not `add-rules`.
pub open spec fn overlays_error(os: Seq<Overlay>) -> Option<SchemaErrorView>
    decreases os.len(),
{
    if os.len() == 0 {
        None
    } else {
        match effects_error(os[0].effects@, os[0].id@) {
            Some(e) => Some(e),
            None => overlays_error(os.drop_first()),
        }
    }
}

pub open spec fn effects_error(es: Seq<OverlayEffect>, oid: Seq<char>) -> Option<SchemaErrorView>
    decreases es.len(),
{
    if es.len() == 0 {
        None
    } else {
        match es[0] {
            OverlayEffect::AddRules { .. } => effects_error(es.drop_first(), oid),
            OverlayEffect::ModifyRules { .. } => Some(
                SchemaErrorView::ReservedOverlayEffect { overlay_id: oid, construct: "modify-rules"@ },
            ),
            OverlayEffect::OverrideRules { .. } => Some(
                SchemaErrorView::ReservedOverlayEffect {
                    overlay_id: oid,
                    construct: "override-rules"@,
                },
            ),
        }
    }
}

/// What validation decides: the schema version, then the rules (base rules
/// then overlay-added rules; duplicate ids and reserved constructs), then
/// the overlay effects.
pub open spec fn validate_spec(policy: Policy) -> Option<SchemaErrorView> {
    if policy.schema_version != schema_version_spec() {
        Some(
            SchemaErrorView::UnsupportedSchemaVersion {
                found: policy.schema_version,
                supported: schema_version_spec(),
            },
        )
    } else {
        match rules_error(policy.rules@ + added_rules(policy.overlays@), Set::empty()) {
            Some(e) => Some(e),
            None => overlays_error(policy.overlays@),
        }
    }
}

fn validate_condition(condition: &Condition, rule_id: &str) -> (r: Result<(), SchemaError>)
    ensures
        match r {
            Ok(_) => cond_error(*condition, rule_id@) is None,
            Err(e) => cond_error(*condition, rule_id@) == Some(e@),
        },
    decreases condition,
{
    match condition {
        Condition::FileMatchesPattern { .. } => Err(
            SchemaError::ReservedConstruct {
                rule_id: String::from_str(rule_id),
                construct: String::from_str(
                    "condition file-matches-pattern (v0 facts carry no file contents)",
                ),
            },
        ),
        Condition::Not { of } => validate_condition(of, rule_id),
        Condition::All { of } => validate_conditions(of, rule_id),
        Condition::Any { of } => validate_conditions(of, rule_id),
        _ => Ok(()),
    }
}

fn validate_conditions(of: &Vec<Condition>, rule_id: &str) -> (r: Result<(), SchemaError>)
    ensures
        match r {
            Ok(_) => conds_error(of@, rule_id@) is None,
            Err(e) => conds_error(of@, rule_id@) == Some(e@),
        },
    decreases of@,
{
    let mut i: usize = 0;
    assert(of@.subrange(0, of@.len() as int) =~= of@);
    while i < of.len()
        invariant
            i <= of@.len(),
            conds_error(of@, rule_id@) == conds_error(of@.subrange(i as int, of@.len() as int), rule_id@),
        decreases of@.len() - i,
    {
        let ghost rest = of@.subrange(i as int, of@.len() as int);
        assert(rest[0] == of@[i as int]);
        assert(rest.drop_first() =~= of@.subrange(i + 1, of@.len() as int));
        match validate_condition(&of[i], rule_id) {
            Ok(_) => {},
            Err(e) => return Err(e),
        }
        i = i + 1;
    }
    Ok(())
}

/// Reject rules using schema-reserved constructs.
fn validate_rule(rule: &Rule) -> (r: Result<(), SchemaError>)
    ensures
        match r {
            Ok(_) => rule_error(*rule) is None,
            Err(e) => rule_error(*rule) == Some(e@),
        },
{
    if let Subject::Release { .. } = rule.subject {
        return Err(
            SchemaError::ReservedConstruct {
                rule_id: rule.id.clone(),
                construct: String::from_str("subject release"),
            },
        );
    }
    if let Resource::Release = rule.resource {
        return Err(
            SchemaError::ReservedConstruct {
                rule_id: rule.id.clone(),
                construct: String::from_str("resource release"),
            },
        );
    }
    if let ActionKind::ConsistentWith { .. } = rule.action {
        return Err(
            SchemaError::ReservedConstruct {
                rule_id: rule.id.clone(),
                construct: String::from_str("action consistent-with"),
            },
        );
    }
    validate_condition(&rule.condition, rule.id.as_str())
}

fn seen_contains(seen: &Vec<&str>, id: &str) -> (r: bool)
    ensures
        r == seen@.map_values(|s: &str| s@).contains(id@),
{
    let mut i: usize = 0;
    while i < seen.len()
        invariant
            i <= seen@.len(),
            forall|k: int| 0 <= k < i ==> (#[trigger] seen@[k])@ != id@,
        decreases seen@.len() - i,
    {
        if str_eq(seen[i], id) {
            assert(seen@.map_values(|s: &str| s@)[i as int] == id@);
            return true;
        }
        i = i + 1;
    }
    false
}

/// Check one rule against the ids seen so far.
#[verifier::loop_isolation(false)]
fn check_rule_entry<'a>(rule: &'a Rule, seen: &mut Vec<&'a str>) -> (r: Result<(), SchemaError>)
    ensures
        ({
            let s = old(seen)@.map_values(|x: &str| x@).to_set();
            match r {
                Ok(_) => !s.contains(rule.id@) && rule_error(*rule) is None
                    && final(seen)@.map_values(|x: &str| x@).to_set() == s.insert(rule.id@),
                Err(e) => if s.contains(rule.id@) {
                    e@ == SchemaErrorView::DuplicateRuleId(rule.id@)
                } else {
                    rule_error(*rule) == Some(e@)
                },
            }
        }),
{
    if seen_contains(seen, rule.id.as_str()) {
        return Err(SchemaError::DuplicateRuleId(rule.id.clone()));
    }
    let ghost before = seen@;
    seen.push(rule.id.as_str());
    assert(seen@.map_values(|x: &str| x@) =~= before.map_values(|x: &str| x@).push(rule.id@));
    proof {
        crate::facts::lemma_to_set_insert(
            before.map_values(|x: &str| x@),
            before.len() as int,
            rule.id@,
        );
        assert(before.map_values(|x: &str| x@).insert(before.len() as int, rule.id@)
            =~= before.map_values(|x: &str| x@).push(rule.id@));
    }
    validate_rule(rule)
}

/// Validate a parsed policy: schema version, rule ids, and reserved
/// constructs.
#[verifier::loop_isolation(false)]
pub fn validate(policy: &Policy) -> (r: Result<(), SchemaError>)
    ensures
        match r {
            Ok(_) => validate_spec(*policy) is None,
            Err(e) => validate_spec(*policy) == Some(e@),
        },
{
    let supported = supported_schema_version();
    if policy.schema_version != supported {
        return Err(
            SchemaError::UnsupportedSchemaVersion { found: policy.schema_version, supported },
        );
    }
    let ghost all = policy.rules@ + added_rules(policy.overlays@);
    let mut seen: Vec<&str> = Vec::new();
    // Base rules.
    let mut i: usize = 0;
    assert(all.subrange(0, all.len() as int) =~= all);
    assert(seen@.map_values(|x: &str| x@).to_set() =~= Set::<Seq<char>>::empty());
    while i < policy.rules.len()
        invariant
            i <= policy.rules@.len(),
            rules_error(all, Set::empty()) is None ==> rules_error(
                all.subrange(i as int, all.len() as int),
                seen@.map_values(|x: &str| x@).to_set(),
            ) is None,
            rules_error(all, Set::empty()) matches Some(e) ==> rules_error(
                all.subrange(i as int, all.len() as int),
                seen@.map_values(|x: &str| x@).to_set(),
            ) == Some(e),
        decreases policy.rules@.len() - i,
    {
        let ghost rest = all.subrange(i as int, all.len() as int);
        assert(rest[0] == policy.rules@[i as int]);
        assert(rest.drop_first() =~= all.subrange(i + 1, all.len() as int));
        match check_rule_entry(&policy.rules[i], &mut seen) {
            Ok(_) => {},
            Err(e) => return Err(e),
        }
        i = i + 1;
    }
    // Rules added by overlays.
    let ghost base_len = policy.rules@.len();
    let ghost mut pos: int = policy.rules@.len() as int;
    let mut o: usize = 0;
    while o < policy.overlays.len()
        invariant
            o <= policy.overlays@.len(),
            pos == base_len + added_rules(policy.overlays@.subrange(0, o as int)).len(),
            all == policy.rules@ + added_rules(policy.overlays@),
            rules_error(all, Set::empty()) is None ==> rules_error(
                all.subrange(pos as int, all.len() as int),
                seen@.map_values(|x: &str| x@).to_set(),
            ) is None,
            rules_error(all, Set::empty()) matches Some(e) ==> rules_error(
                all.subrange(pos as int, all.len() as int),
                seen@.map_values(|x: &str| x@).to_set(),
            ) == Some(e),
        decreases policy.overlays@.len() - o,
    {
        let overlay = &policy.overlays[o];
        let mut e: usize = 0;
        let ghost pos0 = pos;
        while e < overlay.effects.len()
            invariant
                e <= overlay.effects@.len(),
                pos == pos0 + effect_rules(overlay.effects@.subrange(0, e as int)).len(),
                rules_error(all, Set::empty()) is None ==> rules_error(
                    all.subrange(pos as int, all.len() as int),
                    seen@.map_values(|x: &str| x@).to_set(),
                ) is None,
                rules_error(all, Set::empty()) matches Some(err) ==> rules_error(
                    all.subrange(pos as int, all.len() as int),
                    seen@.map_values(|x: &str| x@).to_set(),
                ) == Some(err),
            decreases overlay.effects@.len() - e,
        {
            let ghost pre_e = overlay.effects@.subrange(0, e + 1);
            assert(pre_e.drop_last() =~= overlay.effects@.subrange(0, e as int));
            assert(effect_rules(pre_e) =~= effect_rules(overlay.effects@.subrange(0, e as int)) + add_rules_of(overlay.effects@[e as int]));
            if let OverlayEffect::AddRules { rules } = &overlay.effects[e] {
                let mut k: usize = 0;
                let ghost pos1 = pos;
                while k < rules.len()
                    invariant
                        k <= rules@.len(),
                        pos == pos1 + k,
                        rules_error(all, Set::empty()) is None ==> rules_error(
                            all.subrange(pos as int, all.len() as int),
                            seen@.map_values(|x: &str| x@).to_set(),
                        ) is None,
                        rules_error(all, Set::empty()) matches Some(err) ==> rules_error(
                            all.subrange(pos as int, all.len() as int),
                            seen@.map_values(|x: &str| x@).to_set(),
                        ) == Some(err),
                    decreases rules@.len() - k,
                {
                    proof {
                        lemma_added_rule_at(policy.rules@, policy.overlays@, o as int, e as int, k as int);
                    }
                    let ghost rest = all.subrange(pos as int, all.len() as int);
                    assert(rest[0] == rules@[k as int]);
                    assert(rest.drop_first() =~= all.subrange(pos + 1, all.len() as int));
                    match check_rule_entry(&rules[k], &mut seen) {
                        Ok(_) => {},
                        Err(err) => return Err(err),
                    }
                    k = k + 1;
                    proof {
                        pos = pos + 1;
                    }
                }
            }
            e = e + 1;
        }
        proof {
            assert(overlay.effects@.subrange(0, overlay.effects@.len() as int) =~= overlay.effects@);
            let ghost pre_o = policy.overlays@.subrange(0, o + 1);
            assert(pre_o.drop_last() =~= policy.overlays@.subrange(0, o as int));
        }
        o = o + 1;
    }
    assert(policy.overlays@.subrange(0, policy.overlays@.len() as int) =~= policy.overlays@);
    assert(all.subrange(pos as int, all.len() as int).len() == 0);
    // Every effect must be `add-rules`.
    let mut o2: usize = 0;
    assert(policy.overlays@.subrange(0, policy.overlays@.len() as int) =~= policy.overlays@);
    while o2 < policy.overlays.len()
        invariant
            o2 <= policy.overlays@.len(),
            overlays_error(policy.overlays@) == overlays_error(
                policy.overlays@.subrange(o2 as int, policy.overlays@.len() as int),
            ),
        decreases policy.overlays@.len() - o2,
    {
        let overlay = &policy.overlays[o2];
        let mut e: usize = 0;
        assert(overlay.effects@.subrange(0, overlay.effects@.len() as int) =~= overlay.effects@);
        while e < overlay.effects.len()
            invariant
                e <= overlay.effects@.len(),
                effects_error(overlay.effects@, overlay.id@) == effects_error(
                    overlay.effects@.subrange(e as int, overlay.effects@.len() as int),
                    overlay.id@,
                ),
            decreases overlay.effects@.len() - e,
        {
            let ghost rest = overlay.effects@.subrange(e as int, overlay.effects@.len() as int);
            assert(rest[0] == overlay.effects@[e as int]);
            assert(rest.drop_first() =~= overlay.effects@.subrange(e + 1, overlay.effects@.len() as int));
            match &overlay.effects[e] {
                OverlayEffect::AddRules { .. } => {},
                OverlayEffect::ModifyRules { .. } => {
                    return Err(
                        SchemaError::ReservedOverlayEffect {
                            overlay_id: overlay.id.clone(),
                            construct: String::from_str("modify-rules"),
                        },
                    );
                },
                OverlayEffect::OverrideRules { .. } => {
                    return Err(
                        SchemaError::ReservedOverlayEffect {
                            overlay_id: overlay.id.clone(),
                            construct: String::from_str("override-rules"),
                        },
                    );
                },
            }
            e = e + 1;
        }
        let ghost rest_o = policy.overlays@.subrange(o2 as int, policy.overlays@.len() as int);
        assert(rest_o[0] == policy.overlays@[o2 as int]);
        assert(rest_o.drop_first() =~= policy.overlays@.subrange(o2 + 1, policy.overlays@.len() as int));
        o2 = o2 + 1;
    }
    Ok(())
}

fn hygiene_rule(
    id: &str,
    severity: Severity,
    subject: Subject,
    resource: Resource,
    condition: Condition,
    action: ActionKind,
    rationale: &str,
) -> (r: Rule)
    ensures
        r.id@ == id@,
        r.modality == Modality::Obligation,
        r.severity == severity,
        r.subject == subject,
        r.resource == resource,
        r.condition == condition,
        r.action == action,
        r.rationale matches Some(t) && t@ == rationale@,
        r.source is None,
{
    Rule {
        id: String::from_str(id),
        modality: Modality::Obligation,
        severity,
        subject,
        resource,
        condition,
        action,
        rationale: Some(String::from_str(rationale)),
        source: None,
    }
}

/// `r` is an obligation with these id, severity, action and rationale,
/// and no source.
pub open spec fn rule_has(
    r: Rule,
    id: Seq<char>,
    severity: Severity,
    action: ActionKind,
    rationale: Seq<char>,
) -> bool {
    &&& r.id@ == id
    &&& r.modality == Modality::Obligation
    &&& r.severity == severity
    &&& r.action == action
    &&& r.rationale matches Some(t) && t@ == rationale
    &&& r.source is None
}

/// The subject is the files matching exactly one pattern.
pub open spec fn single_pattern(s: Subject, pattern: Seq<char>) -> bool {
    s matches Subject::FilePattern { patterns } && patterns@.len() == 1 && patterns@[0]@ == pattern
}

/// The repo-hygiene policy bundled with the engine: a license file and a
/// README must be present (errors); Rust sources carry an SPDX header, and
/// a header that is present must parse (warnings). It passes validation.
pub fn builtin_repo_hygiene() -> (p: Policy)
    ensures
        p.id@ == "repo-hygiene"@,
        p.schema_version == schema_version_spec(),
        p.version == (PolicyVersion { major: 1, minor: 0 }),
        p.rules@.len() == 4,
        p.overlays@.len() == 0,
        rule_has(
            p.rules@[0],
            "license-file-present"@,
            Severity::Error,
            ActionKind::Present,
            "Every repository must carry its license text."@,
        ),
        p.rules@[0].subject is Repo,
        p.rules@[0].resource matches Resource::File { path } && path@ == "LICENSE*"@,
        p.rules@[0].condition is True,
        rule_has(
            p.rules@[1],
            "readme-present"@,
            Severity::Error,
            ActionKind::Present,
            "Every repository needs a README that says what it is."@,
        ),
        p.rules@[1].subject is Repo,
        p.rules@[1].resource matches Resource::File { path } && path@ == "README*"@,
        p.rules@[1].condition is True,
        rule_has(
            p.rules@[2],
            "spdx-header-present"@,
            Severity::Warning,
            ActionKind::Present,
            "Every source file declares its license with an SPDX-License-Identifier header."@,
        ),
        single_pattern(p.rules@[2].subject, "**/*.rs"@),
        p.rules@[2].resource is Header,
        p.rules@[2].condition is True,
        rule_has(
            p.rules@[3],
            "spdx-header-valid"@,
            Severity::Warning,
            ActionKind::Valid,
            "An SPDX header must be a well-formed SPDX license expression."@,
        ),
        single_pattern(p.rules@[3].subject, "**/*.rs"@),
        p.rules@[3].resource is Header,
        p.rules@[3].condition is HasSpdxHeader,
        validate_spec(p) is None,
{
    let license = hygiene_rule(
        "license-file-present",
        Severity::Error,
        Subject::Repo,
        Resource::File { path: String::from_str("LICENSE*") },
        Condition::True,
        ActionKind::Present,
        "Every repository must carry its license text.",
    );
    let readme = hygiene_rule(
        "readme-present",
        Severity::Error,
        Subject::Repo,
        Resource::File { path: String::from_str("README*") },
        Condition::True,
        ActionKind::Present,
        "Every repository needs a README that says what it is.",
    );
    let header = hygiene_rule(
        "spdx-header-present",
        Severity::Warning,
        Subject::FilePattern { patterns: vec![String::from_str("**/*.rs")] },
        Resource::Header,
        Condition::True,
        ActionKind::Present,
        "Every source file declares its license with an SPDX-License-Identifier header.",
    );
    let valid = hygiene_rule(
        "spdx-header-valid",
        Severity::Warning,
        Subject::FilePattern { patterns: vec![String::from_str("**/*.rs")] },
        Resource::Header,
        Condition::HasSpdxHeader,
        ActionKind::Valid,
        "An SPDX header must be a well-formed SPDX license expression.",
    );
    let p = Policy {
        schema_version: supported_schema_version(),
        id: String::from_str("repo-hygiene"),
        version: PolicyVersion { major: 1, minor: 0 },
        rules: vec![license, readme, header, valid],
        overlays: Vec::new(),
    };
    proof {
        reveal_strlit("license-file-present");
        reveal_strlit("readme-present");
        reveal_strlit("spdx-header-present");
        reveal_strlit("spdx-header-valid");
        let rs = p.rules@;
        assert(added_rules(p.overlays@) =~= Seq::<Rule>::empty());
        assert(rs + added_rules(p.overlays@) =~= rs);
        let s0 = Set::<Seq<char>>::empty();
        let s1 = s0.insert(rs[0].id@);
        let s2 = s1.insert(rs[1].id@);
        let s3 = s2.insert(rs[2].id@);
        let s4 = s3.insert(rs[3].id@);
        assert(rs.drop_first().drop_first().drop_first().drop_first() =~= Seq::<Rule>::empty());
        assert(rules_error(rs.drop_first().drop_first().drop_first().drop_first(), s4) is None);
        assert(rs[0].id@.len() == 20);
        assert(rs[1].id@.len() == 14);
        assert(rs[2].id@.len() == 19);
        assert(rs[3].id@.len() == 17);
        assert(rs[3].id@ != rs[0].id@ && rs[3].id@ != rs[1].id@ && rs[3].id@ != rs[2].id@);
        assert(cond_error(rs[3].condition, rs[3].id@) is None);
        assert(rules_error(rs.drop_first().drop_first().drop_first(), s3) is None);
        assert(rs[2].id@ != rs[0].id@ && rs[2].id@ != rs[1].id@);
        assert(rules_error(rs.drop_first().drop_first(), s2) is None);
        assert(rs[1].id@ != rs[0].id@);
        assert(rules_error(rs.drop_first(), s1) is None);
        assert(rules_error(rs, s0) is None);
    }
    p
}

} // verus!
