//! Cross-concept rules: when an assertion of one concept matches a version
//! range or value, every assertion of another concept must meet a
//! requirement; the assertions that do not become findings.
use vstd::prelude::*;
use vstd::string::*;
use crate::config::{concept_matches_selector, selects_s, ConceptRuleConfig};
use crate::model::semantic_type::{
    exact_text_s, node_range_parse, node_semver_range_text, opt_view, semver_parse, semver_version_parse, VersionView,
};
use crate::model::finding::{parse_severity, parse_severity_s};
use crate::model::{
    Authority, ConceptResult, ConfigAssertion, Finding, SemanticType, Severity, SourceLocation,
    VersionSpec,
};
use crate::pathing::{path_eq, path_same};
use crate::text::{
    decimal_s, from_chars, parse_uint, parse_uint_s, push_decimal, push_str, split_chars, split_s, str_eq, to_chars,
    trim_chars, trim_s, vv,
};

verus! {

/// What `node_semver` says of a version text against a range text: whether
/// the range (`Range::parse`) is satisfied by the version
/// (`Version::parse`), or nothing when either does not parse.
pub uninterp spec fn node_range_satisfies(range: Seq<char>, version: Seq<char>) -> Option<bool>;

/// `node_semver::Range::parse` of the range and `node_semver::Version::parse`
/// of the version, then `Range::satisfies`; nothing when either text does
/// not parse.
#[verifier::external_body]
fn range_satisfies(range: &str, version: &str) -> (r: Option<bool>)
    ensures
        r == node_range_satisfies(range@, version@),
{
    match (node_semver::Range::parse(range), node_semver::Version::parse(version)) {
        (Ok(r), Ok(v)) => Some(r.satisfies(&v)),
        _ => None,
    }
}

/// `major.minor.0`.
pub open spec fn three_part_s(major: nat, minor: nat) -> Seq<char> {
    decimal_s(major) + "."@ + decimal_s(minor) + ".0"@
}

/// The version a raw value can be tested as: the SemVer version it parses
/// as (as it displays), else `major` or `major.minor` with the missing
/// parts 0; nothing for anything else.
pub open spec fn raw_version_text_s(raw: Seq<char>) -> Option<Seq<char>> {
    let t = trim_s(raw);
    match semver_version_parse(t) {
        Some(v) => Some(exact_text_s(v)),
        None => {
            let ps = split_s(t, '.');
            if ps.len() == 1 {
                match parse_uint_s(ps[0], u64::MAX as nat) {
                    Some(m) => Some(three_part_s(m, 0)),
                    None => None,
                }
            } else if ps.len() == 2 {
                match (parse_uint_s(ps[0], u64::MAX as nat), parse_uint_s(ps[1], u64::MAX as nat)) {
                    (Some(m), Some(n)) => Some(three_part_s(m, n)),
                    _ => None,
                }
            } else {
                None
            }
        },
    }
}

/// The version an assertion is tested as: an exact version as it is, a
/// partial one with its missing parts 0, a Docker tag by its version
/// text, anything else by its raw value.
pub open spec fn node_version_text_s(raw: Seq<char>, typed: SemanticType) -> Option<Seq<char>> {
    match typed {
        SemanticType::Version(v) => match v@ {
            VersionView::Exact(p) => Some(exact_text_s(p)),
            VersionView::Partial(m, n) => Some(
                three_part_s(
                    m as nat,
                    match n {
                        Some(x) => x as nat,
                        None => 0,
                    },
                ),
            ),
            VersionView::DockerTag(ver, _) => raw_version_text_s(ver),
            _ => raw_version_text_s(raw),
        },
        _ => raw_version_text_s(raw),
    }
}

/// A rule's condition or requirement: whether its trimmed text is a
/// version range, and the trimmed text.
pub open spec fn rule_text_s(text: Seq<char>) -> (bool, Seq<char>) {
    let t = trim_s(text);
    (node_semver_range_text(t) is Some, t)
}

/// An assertion matches a condition: a range that its version satisfies,
/// or a value equal to its trimmed raw value.
pub open spec fn trigger_matches_s(k: (bool, Seq<char>), a: ConfigAssertion) -> bool {
    if k.0 {
        match node_version_text_s(a.raw_value@, a.value) {
            Some(v) => node_range_satisfies(k.1, v) == Some(true),
            None => false,
        }
    } else {
        trim_s(a.raw_value@) == k.1
    }
}

/// An assertion meets a requirement: a range that its version satisfies
/// (an assertion that cannot be tested as a version meets it), or a value
/// equal to its trimmed raw value.
pub open spec fn satisfied_s(k: (bool, Seq<char>), a: ConfigAssertion) -> bool {
    if k.0 {
        match node_version_text_s(a.raw_value@, a.value) {
            Some(v) => node_range_satisfies(k.1, v) != Some(false),
            None => true,
        }
    } else {
        trim_s(a.raw_value@) == k.1
    }
}

/// Some assertion of a concept that the rule's condition names matches
/// the condition.
pub open spec fn triggered_s(crs: Seq<ConceptResult>, rule: ConceptRuleConfig) -> bool {
    exists|i: int, j: int|
        0 <= i < crs.len() && 0 <= j < crs[i].assertions@.len() && selects_s(crs[i].concept.id@, rule.when.concept@)
            && #[trigger] trigger_matches_s(rule_text_s(rule.when.matches@), crs[i].assertions@[j])
}

/// The first concept result, from `i` on, that the selector picks.
pub open spec fn first_from_s(crs: Seq<ConceptResult>, sel: Seq<char>, i: int) -> Option<int>
    decreases crs.len() - i,
{
    if i < 0 || i >= crs.len() {
        None
    } else if selects_s(crs[i].concept.id@, sel) {
        Some(i)
    } else {
        first_from_s(crs, sel, i + 1)
    }
}

/// Two violations of the same file (by path) and raw value.
pub open spec fn same_violation(a: ConfigAssertion, b: ConfigAssertion) -> bool {
    path_eq(a.source.file@, b.source.file@) && a.raw_value@ == b.raw_value@
}

/// The assertions that do not meet the requirement, in order, each file
/// and value once.
pub open spec fn violations_s(xs: Seq<ConfigAssertion>, k: (bool, Seq<char>)) -> Seq<ConfigAssertion>
    decreases xs.len(),
{
    if xs.len() == 0 {
        seq![]
    } else {
        let prev = violations_s(xs.drop_last(), k);
        let a = xs.last();
        if !satisfied_s(k, a) && !(exists|q: int| 0 <= q < prev.len() && #[trigger] same_violation(prev[q], a)) {
            prev.push(a)
        } else {
            prev
        }
    }
}

/// What a rule finds: when it is triggered and a concept result matches its
/// requirement's concept, the first such result and its violations, if
/// there are any.
pub open spec fn rule_outcome_s(crs: Seq<ConceptResult>, rule: ConceptRuleConfig) -> Option<(int, Seq<ConfigAssertion>)> {
    if !triggered_s(crs, rule) {
        None
    } else {
        match first_from_s(crs, rule.requirement.concept@, 0) {
            None => None,
            Some(c) => {
                let v = violations_s(crs[c].assertions@, rule_text_s(rule.requirement.requires@));
                if v.len() == 0 {
                    None
                } else {
                    Some((c, v))
                }
            },
        }
    }
}

/// A violating assertion and the position of the rule it violates.
pub type RuleHit = (ConfigAssertion, int);

/// For each concept result, the violations the rules add to it, in rule
/// order.
pub open spec fn rule_hits_s(crs: Seq<ConceptResult>, rules: Seq<ConceptRuleConfig>) -> Seq<Seq<RuleHit>>
    decreases rules.len(),
{
    if rules.len() == 0 {
        Seq::new(crs.len(), |i: int| Seq::<RuleHit>::empty())
    } else {
        let prev = rule_hits_s(crs, rules.drop_last());
        match rule_outcome_s(crs, rules.last()) {
            Some((c, v)) => prev.update(c, prev[c] + v.map_values(|a: ConfigAssertion| (a, rules.len() - 1))),
            None => prev,
        }
    }
}

/// `"<value>" violates cross-concept constraint "<requirement>"`, then
/// `: <message>` when the rule has one.
pub open spec fn explanation_s(a: ConfigAssertion, rule: ConceptRuleConfig) -> Seq<char> {
    let base = "\""@ + a.raw_value@ + "\" violates cross-concept constraint \""@ + rule.requirement.requires@ + "\""@;
    match rule.message {
        Some(m) => base + ": "@ + m@,
        None => base,
    }
}

/// The finding of a violation: the violating assertion against an
/// enforced assertion of the requirement, located at the rule in the
/// configuration file.
pub open spec fn rule_finding_ok(f: Finding, a: ConfigAssertion, rule: ConceptRuleConfig, config_path: Seq<char>) -> bool {
    &&& f.severity == parse_severity_s(rule.severity@)
    &&& f.left == a
    &&& f.right.concept == a.concept
    &&& f.right.value matches SemanticType::StringValue(s) && s@ == rule.requirement.requires@
    &&& f.right.raw_value@ == rule.requirement.requires@
    &&& f.right.source.file@ == config_path
    &&& f.right.source.line == 0
    &&& f.right.source.column == 0
    &&& f.right.source.key_path@ == "concept_rule."@ + rule.id@
    &&& f.right.span is None
    &&& f.right.authority == Authority::Enforced
    &&& f.right.extractor_id@ == "concept-rule"@
    &&& !f.right.is_matrix
    &&& f.explanation@ == explanation_s(a, rule)
    &&& f.rule_id@ == rule.id@
}

/// A concept result after the rules: the same concept and assertions, its
/// findings kept and followed by the findings of its hits, in order.
pub open spec fn rule_findings_added(
    before: ConceptResult,
    after: ConceptResult,
    hits: Seq<RuleHit>,
    rules: Seq<ConceptRuleConfig>,
    config_path: Seq<char>,
) -> bool {
    &&& after.concept == before.concept
    &&& after.assertions == before.assertions
    &&& after.findings@.len() == before.findings@.len() + hits.len()
    &&& after.findings@.take(before.findings@.len() as int) == before.findings@
    &&& forall|k: int|
        0 <= k < hits.len() ==> rule_finding_ok(
            #[trigger] after.findings@[before.findings@.len() + k],
            hits[k].0,
            rules[hits[k].1],
            config_path,
        )
}

fn three_part(major: u64, minor: u64) -> (r: String)
    ensures
        r@ == three_part_s(major as nat, minor as nat),
{
    let mut out = String::new();
    push_decimal(&mut out, major);
    push_str(&mut out, ".");
    push_decimal(&mut out, minor);
    push_str(&mut out, ".0");
    out
}

fn rule_text(text: &str) -> (r: (bool, String))
    ensures
        r.0 == rule_text_s(text@).0,
        r.1@ == rule_text_s(text@).1,
{
    let tc = trim_chars(to_chars(text).as_slice());
    let t = from_chars(tc.as_slice());
    let is_range = node_range_parse(t.as_str()).is_some();
    (is_range, t)
}

fn raw_version_text(raw: &str) -> (r: Option<String>)
    ensures
        opt_view(r) == raw_version_text_s(raw@),
{
    let tc = trim_chars(to_chars(raw).as_slice());
    let t = from_chars(tc.as_slice());
    match semver_parse(t.as_str()) {
        Some(v) => Some(v.to_text()),
        None => {
            let ps = split_chars(tc.as_slice(), '.');
            proof {
                assert(vv(ps@) == split_s(trim_s(raw@), '.'));
                if ps@.len() >= 1 {
                    assert(vv(ps@)[0] == ps@[0]@);
                }
                if ps@.len() >= 2 {
                    assert(vv(ps@)[1] == ps@[1]@);
                }
            }
            if ps.len() == 1 {
                match parse_uint(ps[0].as_slice(), u64::MAX) {
                    Some(m) => Some(three_part(m, 0)),
                    None => None,
                }
            } else if ps.len() == 2 {
                match (parse_uint(ps[0].as_slice(), u64::MAX), parse_uint(ps[1].as_slice(), u64::MAX)) {
                    (Some(m), Some(n)) => Some(three_part(m, n)),
                    _ => None,
                }
            } else {
                None
            }
        },
    }
}

fn node_version_text(a: &ConfigAssertion) -> (r: Option<String>)
    ensures
        opt_view(r) == node_version_text_s(a.raw_value@, a.value),
{
    match &a.value {
        SemanticType::Version(v) => match v {
            VersionSpec::Exact(e) => Some(e.to_text()),
            VersionSpec::Partial { major, minor } => {
                let n: u64 = match minor {
                    Some(x) => *x,
                    None => 0,
                };
                Some(three_part(*major, n))
            },
            VersionSpec::DockerTag { version, .. } => raw_version_text(version.as_str()),
            _ => raw_version_text(a.raw_value.as_str()),
        },
        _ => raw_version_text(a.raw_value.as_str()),
    }
}

fn trimmed_is(raw: &str, t: &str) -> (r: bool)
    ensures
        r == (trim_s(raw@) == t@),
{
    let tc = trim_chars(to_chars(raw).as_slice());
    crate::text::chars_eq_str(tc.as_slice(), t)
}

fn trigger_matches(k: &(bool, String), a: &ConfigAssertion) -> (r: bool)
    ensures
        r == trigger_matches_s((k.0, k.1@), *a),
{
    if k.0 {
        match node_version_text(a) {
            Some(v) => match range_satisfies(k.1.as_str(), v.as_str()) {
                Some(b) => b,
                None => false,
            },
            None => false,
        }
    } else {
        trimmed_is(a.raw_value.as_str(), k.1.as_str())
    }
}

fn satisfied(k: &(bool, String), a: &ConfigAssertion) -> (r: bool)
    ensures
        r == satisfied_s((k.0, k.1@), *a),
{
    if k.0 {
        match node_version_text(a) {
            Some(v) => match range_satisfies(k.1.as_str(), v.as_str()) {
                Some(b) => b,
                None => true,
            },
            None => true,
        }
    } else {
        trimmed_is(a.raw_value.as_str(), k.1.as_str())
    }
}

/// The same concepts and assertions, position by position.
pub open spec fn same_shape(a: Seq<ConceptResult>, b: Seq<ConceptResult>) -> bool {
    &&& a.len() == b.len()
    &&& forall|i: int| 0 <= i < a.len() ==> (#[trigger] a[i]).concept == b[i].concept && a[i].assertions == b[i].assertions
}

fn triggered(
    crs: &Vec<ConceptResult>,
    rule: &ConceptRuleConfig,
    k: &(bool, String),
    base: Ghost<Seq<ConceptResult>>,
) -> (r: bool)
    requires
        same_shape(crs@, base@),
        (k.0, k.1@) == rule_text_s(rule.when.matches@),
    ensures
        r == triggered_s(base@, *rule),
{
    let mut i: usize = 0;
    while i < crs.len()
        invariant
            i <= crs@.len(),
            same_shape(crs@, base@),
            (k.0, k.1@) == rule_text_s(rule.when.matches@),
            forall|p: int, q: int|
                0 <= p < i && 0 <= q < base@[p].assertions@.len() ==> !(selects_s(base@[p].concept.id@, rule.when.concept@)
                    && #[trigger] trigger_matches_s(rule_text_s(rule.when.matches@), base@[p].assertions@[q])),
        decreases crs@.len() - i,
    {
        let cr = &crs[i];
        assert(cr.concept == base@[i as int].concept && cr.assertions == base@[i as int].assertions);
        if concept_matches_selector(cr.concept.id.as_str(), rule.when.concept.as_str()) {
            let mut j: usize = 0;
            while j < cr.assertions.len()
                invariant
                    i < crs@.len(),
                    j <= cr.assertions@.len(),
                    *cr == crs@[i as int],
                    same_shape(crs@, base@),
                    (k.0, k.1@) == rule_text_s(rule.when.matches@),
                    selects_s(base@[i as int].concept.id@, rule.when.concept@),
                    forall|q: int|
                        0 <= q < j ==> !#[trigger] trigger_matches_s(
                            rule_text_s(rule.when.matches@),
                            base@[i as int].assertions@[q],
                        ),
                decreases cr.assertions@.len() - j,
            {
                assert(cr.assertions@[j as int] == base@[i as int].assertions@[j as int]);
                if trigger_matches(k, &cr.assertions[j]) {
                    assert(trigger_matches_s(rule_text_s(rule.when.matches@), base@[i as int].assertions@[j as int]));
                    return true;
                }
                j = j + 1;
            }
        }
        i = i + 1;
    }
    false
}

fn first_match(crs: &Vec<ConceptResult>, sel: &str, base: Ghost<Seq<ConceptResult>>) -> (r: Option<usize>)
    requires
        same_shape(crs@, base@),
    ensures
        match r {
            Some(c) => first_from_s(base@, sel@, 0) == Some(c as int) && c < crs@.len(),
            None => first_from_s(base@, sel@, 0) is None,
        },
{
    let mut i: usize = 0;
    while i < crs.len()
        invariant
            i <= crs@.len(),
            same_shape(crs@, base@),
            first_from_s(base@, sel@, 0) == first_from_s(base@, sel@, i as int),
        decreases crs@.len() - i,
    {
        assert(crs@[i as int].concept == base@[i as int].concept);
        if concept_matches_selector(crs[i].concept.id.as_str(), sel) {
            return Some(i);
        }
        i = i + 1;
    }
    None
}

fn make_rule_finding(a: &ConfigAssertion, rule: &ConceptRuleConfig, severity: Severity, config_path: &str) -> (r: Finding)
    requires
        severity == parse_severity_s(rule.severity@),
    ensures
        rule_finding_ok(r, *a, *rule, config_path@),
{
    let mut explanation = String::from_str("\"");
    proof {
        reveal_strlit("\"");
    }
    push_str(&mut explanation, a.raw_value.as_str());
    push_str(&mut explanation, "\" violates cross-concept constraint \"");
    push_str(&mut explanation, rule.requirement.requires.as_str());
    push_str(&mut explanation, "\"");
    match &rule.message {
        Some(m) => {
            push_str(&mut explanation, ": ");
            push_str(&mut explanation, m.as_str());
        },
        None => {},
    }
    let mut key_path = String::from_str("concept_rule.");
    proof {
        reveal_strlit("concept_rule.");
    }
    push_str(&mut key_path, rule.id.as_str());
    let right = ConfigAssertion {
        concept: a.concept.duplicate(),
        value: SemanticType::StringValue(rule.requirement.requires.clone()),
        raw_value: rule.requirement.requires.clone(),
        source: SourceLocation { file: String::from_str(config_path), line: 0, column: 0, key_path },
        span: None,
        authority: Authority::Enforced,
        extractor_id: String::from_str("concept-rule"),
        is_matrix: false,
    };
    proof {
        reveal_strlit("concept-rule");
    }
    Finding { severity, left: a.duplicate(), right, explanation, rule_id: rule.id.clone() }
}

fn has_violation(out: &Vec<Finding>, a: &ConfigAssertion) -> (r: bool)
    ensures
        r == exists|q: int| 0 <= q < out@.len() && #[trigger] same_violation(out@[q].left, *a),
{
    let mut q: usize = 0;
    while q < out.len()
        invariant
            q <= out@.len(),
            forall|p: int| 0 <= p < q ==> !#[trigger] same_violation(out@[p].left, *a),
        decreases out@.len() - q,
    {
        if path_same(out[q].left.source.file.as_str(), a.source.file.as_str()) && str_eq(
            out[q].left.raw_value.as_str(),
            a.raw_value.as_str(),
        ) {
            assert(same_violation(out@[q as int].left, *a));
            return true;
        }
        q = q + 1;
    }
    false
}

fn collect_violations(
    xs: &Vec<ConfigAssertion>,
    rule: &ConceptRuleConfig,
    k: &(bool, String),
    severity: Severity,
    config_path: &str,
) -> (r: Vec<Finding>)
    requires
        (k.0, k.1@) == rule_text_s(rule.requirement.requires@),
        severity == parse_severity_s(rule.severity@),
    ensures
        r@.len() == violations_s(xs@, rule_text_s(rule.requirement.requires@)).len(),
        forall|q: int|
            0 <= q < r@.len() ==> rule_finding_ok(
                #[trigger] r@[q],
                violations_s(xs@, rule_text_s(rule.requirement.requires@))[q],
                *rule,
                config_path@,
            ),
{
    let ghost kv = rule_text_s(rule.requirement.requires@);
    let mut out: Vec<Finding> = Vec::new();
    let mut i: usize = 0;
    while i < xs.len()
        invariant
            i <= xs@.len(),
            kv == rule_text_s(rule.requirement.requires@),
            (k.0, k.1@) == kv,
            severity == parse_severity_s(rule.severity@),
            out@.len() == violations_s(xs@.take(i as int), kv).len(),
            forall|q: int|
                0 <= q < out@.len() ==> rule_finding_ok(
                    #[trigger] out@[q],
                    violations_s(xs@.take(i as int), kv)[q],
                    *rule,
                    config_path@,
                ),
        decreases xs@.len() - i,
    {
        let ghost prev = violations_s(xs@.take(i as int), kv);
        proof {
            assert(xs@.take(i + 1).drop_last() == xs@.take(i as int));
            assert(xs@.take(i + 1).last() == xs@[i as int]);
        }
        let a = &xs[i];
        if !satisfied(k, a) {
            let seen = has_violation(&out, a);
            proof {
                assert((exists|q: int| 0 <= q < prev.len() && #[trigger] same_violation(prev[q], *a)) == seen) by {
                    if seen {
                        let q = choose|q: int| 0 <= q < out@.len() && #[trigger] same_violation(out@[q].left, *a);
                        assert(out@[q].left == prev[q]);
                        assert(same_violation(prev[q], *a));
                    }
                    if exists|q: int| 0 <= q < prev.len() && #[trigger] same_violation(prev[q], *a) {
                        let q = choose|q: int| 0 <= q < prev.len() && #[trigger] same_violation(prev[q], *a);
                        assert(out@[q].left == prev[q]);
                        assert(same_violation(out@[q].left, *a));
                    }
                }
            }
            if !seen {
                let f = make_rule_finding(a, rule, severity, config_path);
                let ghost before = out@;
                out.push(f);
                proof {
                    let now = violations_s(xs@.take(i + 1), kv);
                    assert(now == prev.push(*a));
                    assert forall|q: int| 0 <= q < out@.len() implies rule_finding_ok(
                        #[trigger] out@[q],
                        now[q],
                        *rule,
                        config_path@,
                    ) by {
                        if q < before.len() {
                            assert(out@[q] == before[q]);
                            assert(now[q] == prev[q]);
                        }
                    }
                }
            }
        }
        i = i + 1;
    }
    assert(xs@.take(xs@.len() as int) == xs@);
    out
}

proof fn lemma_hits_shape(crs: Seq<ConceptResult>, rules: Seq<ConceptRuleConfig>)
    ensures
        rule_hits_s(crs, rules).len() == crs.len(),
        forall|i: int, k: int|
            0 <= i < crs.len() && 0 <= k < rule_hits_s(crs, rules)[i].len() ==> 0 <= (
            #[trigger] rule_hits_s(crs, rules)[i][k]).1 < rules.len(),
    decreases rules.len(),
{
    if rules.len() > 0 {
        lemma_hits_shape(crs, rules.drop_last());
        lemma_first_in_range(crs, rules.last().requirement.concept@, 0);
        let prev = rule_hits_s(crs, rules.drop_last());
        match rule_outcome_s(crs, rules.last()) {
            Some((c, v)) => {
                assert(0 <= c < crs.len());
                let now = rule_hits_s(crs, rules);
                let add = v.map_values(|a: ConfigAssertion| (a, rules.len() - 1));
                assert forall|i: int, k: int|
                    0 <= i < crs.len() && 0 <= k < now[i].len() implies 0 <= (#[trigger] now[i][k]).1 < rules.len() by {
                    if i == c {
                        if k < prev[c].len() {
                            assert(now[i][k] == prev[c][k]);
                        } else {
                            assert(now[i][k] == add[k - prev[c].len()]);
                        }
                    } else {
                        assert(now[i] == prev[i]);
                    }
                }
            },
            None => {},
        }
    }
}

proof fn lemma_first_in_range(crs: Seq<ConceptResult>, sel: Seq<char>, i: int)
    requires
        0 <= i,
    ensures
        first_from_s(crs, sel, i) matches Some(c) ==> i <= c < crs.len(),
    decreases crs.len() - i,
{
    if i < crs.len() && !selects_s(crs[i].concept.id@, sel) {
        lemma_first_in_range(crs, sel, i + 1);
    }
}

/// Evaluate the cross-concept rules in order: each rule whose condition
/// some assertion of its `when` concept matches adds, to the first concept
/// result that its requirement's concept picks, a finding for each of that
/// result's assertions that does not meet the requirement (each file and
/// value once), located at the rule in the configuration file.
pub fn evaluate_concept_rules(
    concept_results: &mut Vec<ConceptResult>,
    rules: &[ConceptRuleConfig],
    config_path: &str,
)
    ensures
        final(concept_results)@.len() == old(concept_results)@.len(),
        forall|i: int|
            0 <= i < old(concept_results)@.len() ==> rule_findings_added(
                old(concept_results)@[i],
                #[trigger] final(concept_results)@[i],
                rule_hits_s(old(concept_results)@, rules@)[i],
                rules@,
                config_path@,
            ),
{
    let ghost base = concept_results@;
    proof {
        assert(rules@.take(0) =~= Seq::<ConceptRuleConfig>::empty());
        assert forall|i: int| 0 <= i < base.len() implies rule_findings_added(
            base[i],
            #[trigger] concept_results@[i],
            rule_hits_s(base, rules@.take(0))[i],
            rules@,
            config_path@,
        ) by {
            assert(base[i].findings@.take(base[i].findings@.len() as int) =~= base[i].findings@);
        }
    }
    let mut ri: usize = 0;
    while ri < rules.len()
        invariant
            ri <= rules@.len(),
            base == old(concept_results)@,
            concept_results@.len() == base.len(),
            forall|i: int|
                0 <= i < base.len() ==> rule_findings_added(
                    base[i],
                    #[trigger] concept_results@[i],
                    rule_hits_s(base, rules@.take(ri as int))[i],
                    rules@,
                    config_path@,
                ),
        decreases rules@.len() - ri,
    {
        let rule = &rules[ri];
        let ghost prevh = rule_hits_s(base, rules@.take(ri as int));
        proof {
            assert(rules@.take(ri + 1).drop_last() =~= rules@.take(ri as int));
            assert(rules@.take(ri + 1).last() == rules@[ri as int]);
            lemma_hits_shape(base, rules@.take(ri as int));
            lemma_hits_shape(base, rules@.take(ri + 1));
            assert forall|i: int| 0 <= i < concept_results@.len() implies (#[trigger] concept_results@[i]).concept
                == base[i].concept && concept_results@[i].assertions == base[i].assertions by {
                assert(rule_findings_added(base[i], concept_results@[i], prevh[i], rules@, config_path@));
            }
            assert(same_shape(concept_results@, base));
        }
        let severity = parse_severity(rule.severity.as_str());
        let tk = rule_text(rule.when.matches.as_str());
        let ck = rule_text(rule.requirement.requires.as_str());
        let mut changed = false;
        if triggered(concept_results, rule, &tk, Ghost(base)) {
            match first_match(concept_results, rule.requirement.concept.as_str(), Ghost(base)) {
                Some(c) => {
                    let mut fs = collect_violations(&concept_results[c].assertions, rule, &ck, severity, config_path);
                    assert(concept_results@[c as int].assertions == base[c as int].assertions);
                    if fs.len() > 0 {
                        let ghost v = violations_s(base[c as int].assertions@, rule_text_s(rule.requirement.requires@));
                        let ghost fsv = fs@;
                        let ghost olds = concept_results@;
                        let mut cr = concept_results.remove(c);
                        let ghost crb = cr;
                        cr.findings.append(&mut fs);
                        concept_results.insert(c, cr);
                        proof {
                            assert(rule_outcome_s(base, *rule) == Some((c as int, v)));
                            let now = rule_hits_s(base, rules@.take(ri + 1));
                            let add = v.map_values(|a: ConfigAssertion| (a, (ri + 1) - 1));
                            assert(now == prevh.update(c as int, prevh[c as int] + add));
                            assert(concept_results@ =~= olds.update(c as int, cr));
                            assert forall|i: int| 0 <= i < base.len() implies rule_findings_added(
                                base[i],
                                #[trigger] concept_results@[i],
                                now[i],
                                rules@,
                                config_path@,
                            ) by {
                                if i == c {
                                    assert(rule_findings_added(base[i], crb, prevh[i], rules@, config_path@));
                                    let n0 = base[i].findings@.len();
                                    assert(cr.findings@ == crb.findings@ + fsv);
                                    assert(cr.findings@.take(n0 as int) =~= base[i].findings@) by {
                                        assert(crb.findings@.take(n0 as int) == base[i].findings@);
                                    }
                                    assert forall|k: int| 0 <= k < now[i].len() implies rule_finding_ok(
                                        #[trigger] cr.findings@[n0 + k],
                                        now[i][k].0,
                                        rules@[now[i][k].1],
                                        config_path@,
                                    ) by {
                                        if k < prevh[i].len() {
                                            assert(cr.findings@[n0 + k] == crb.findings@[n0 + k]);
                                            assert(now[i][k] == prevh[i][k]);
                                        } else {
                                            let q = k - prevh[i].len();
                                            assert(now[i][k] == add[q]);
                                            assert(cr.findings@[n0 + k] == fsv[q]);
                                            assert(rule_finding_ok(fsv[q], v[q], *rule, config_path@));
                                        }
                                    }
                                } else {
                                    assert(concept_results@[i] == olds[i]);
                                    assert(now[i] == prevh[i]);
                                }
                            }
                        }
                        changed = true;
                    }
                },
                None => {},
            }
        }
        proof {
            if !changed {
                let now = rule_hits_s(base, rules@.take(ri + 1));
                assert(rule_outcome_s(base, *rule) is None) by {
                    lemma_first_in_range(base, rule.requirement.concept@, 0);
                }
                assert(now == prevh);
            }
        }
        ri = ri + 1;
    }
    assert(rules@.take(rules@.len() as int) =~= rules@);
}

} // verus!

verus! {

proof fn lemma_no_violations(xs: Seq<ConfigAssertion>, k: (bool, Seq<char>))
    requires
        forall|j: int| 0 <= j < xs.len() ==> satisfied_s(k, #[trigger] xs[j]),
    ensures
        violations_s(xs, k).len() == 0,
    decreases xs.len(),
{
    if xs.len() > 0 {
        assert forall|j: int| 0 <= j < xs.drop_last().len() implies satisfied_s(k, #[trigger] xs.drop_last()[j]) by {
            assert(xs.drop_last()[j] == xs[j]);
        }
        lemma_no_violations(xs.drop_last(), k);
        assert(satisfied_s(k, xs[xs.len() - 1]));
    }
}

/// A rule adds no finding when every assertion of the concept result its
/// requirement picks meets the requirement, whatever its condition.
pub proof fn law_met_requirement_adds_nothing(crs: Seq<ConceptResult>, rule: ConceptRuleConfig)
    requires
        forall|c: int|
            first_from_s(crs, rule.requirement.concept@, 0) == Some(c) ==> forall|j: int|
                0 <= j < crs[c].assertions@.len() ==> satisfied_s(
                    rule_text_s(rule.requirement.requires@),
                    #[trigger] crs[c].assertions@[j],
                ),
    ensures
        rule_outcome_s(crs, rule) is None,
{
    match first_from_s(crs, rule.requirement.concept@, 0) {
        Some(c) => {
            lemma_no_violations(crs[c].assertions@, rule_text_s(rule.requirement.requires@));
        },
        None => {},
    }
}

/// A rule adds no finding when no assertion of a concept its condition
/// names matches the condition.
pub proof fn law_untriggered_rule_adds_nothing(crs: Seq<ConceptResult>, rule: ConceptRuleConfig)
    requires
        !triggered_s(crs, rule),
    ensures
        rule_outcome_s(crs, rule) is None,
{
}

} // verus!
