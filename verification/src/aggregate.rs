//! The fold of all findings into one assessment.
//!
//! Four components, each from 0 to 100, are combined by weight into one score,
//! and the score is cut into a level. A single critical finding lifts the level
//! to `High` at least, whatever the weighted score says.

use crate::level::RiskLevel;
use crate::package::{TyposquattingModel, TyposquattingRisk};
use crate::risk::{
    malicious_code_name, pattern_models, supply_chain_name, typosquatting_name, vulnerability_models,
    vulnerability_name, MaliciousPattern, PatternModel, PatternSeverity, RiskScore, RiskScoreModel,
    Vulnerability, VulnerabilityModel,
};
use crate::score::Score;
use crate::vulnerability::{highest_severity, worst_severity};
use vstd::prelude::*;

verus! {

/// Share, in hundredths, of the supply-chain component in the overall score.
pub const SUPPLY_CHAIN_WEIGHT: u64 = 15;

/// Share, in hundredths, of the vulnerability component in the overall score.
pub const VULNERABILITY_WEIGHT: u64 = 35;

/// Share, in hundredths, of the malicious-code component in the overall score.
pub const MALICIOUS_CODE_WEIGHT: u64 = 35;

/// Share, in hundredths, of the typosquatting component in the overall score.
pub const TYPOSQUATTING_WEIGHT: u64 = 15;

/// Severity, in tenths of a point, from which a vulnerability is critical.
pub const CRITICAL_SEVERITY: u32 = 90;

/// The number of binary digits of `n`; 0 for 0.
pub open spec fn bit_length(n: nat) -> nat
    decreases n,
{
    if n == 0 {
        0
    } else {
        1 + bit_length(n / 2)
    }
}

/// `points`, or 100 where `points` is more.
pub open spec fn capped(points: nat) -> nat {
    if points <= 100 {
        points
    } else {
        100
    }
}

/// The supply-chain component for `breadth` distinct dependencies: ten points
/// for every doubling, 100 at most.
pub open spec fn supply_chain_points(breadth: nat) -> nat {
    capped(10 * bit_length(breadth))
}

/// The sum of the weights of `found`.
pub open spec fn total_weight(found: Seq<PatternModel>) -> nat
    decreases found.len(),
{
    if found.len() == 0 {
        0
    } else {
        total_weight(found.drop_last()) + found.last().severity.weight()
    }
}

/// The malicious-code component: the summed weights of the findings, 100 at most.
pub open spec fn malicious_code_points(found: Seq<PatternModel>) -> nat {
    capped(total_weight(found))
}

/// The vulnerability component: the highest severity found, which in tenths of
/// a point is already on the scale of 100.
pub open spec fn vulnerability_points(found: Seq<VulnerabilityModel>) -> nat {
    worst_severity(found)
}

/// The typosquatting component: the confidence of a verdict that flags the
/// name, and 0 otherwise.
pub open spec fn typosquatting_points(verdict: Option<TyposquattingModel>) -> nat {
    match verdict {
        Some(v) => if v.flagged {
            v.confidence
        } else {
            0
        },
        None => 0,
    }
}

/// The overall score: the components combined by weight, rounded down.
pub open spec fn weighted_score(
    supply_chain: nat,
    vulnerability: nat,
    malicious_code: nat,
    typosquatting: nat,
) -> nat {
    (15 * supply_chain + 35 * vulnerability + 35 * malicious_code + 15 * typosquatting) / 100
}

/// The level of an overall score: below 20 `Safe`, below 40 `Low`, below 60
/// `Medium`, below 80 `High`, and `Critical` from 80.
pub open spec fn level_for(score: nat) -> RiskLevel {
    if score < 20 {
        RiskLevel::Safe
    } else if score < 40 {
        RiskLevel::Low
    } else if score < 60 {
        RiskLevel::Medium
    } else if score < 80 {
        RiskLevel::High
    } else {
        RiskLevel::Critical
    }
}

/// Whether a vulnerability of `found` is critical.
pub open spec fn has_critical_vulnerability(found: Seq<VulnerabilityModel>) -> bool {
    exists|i: int| 0 <= i < found.len() && (#[trigger] found[i]).severity >= CRITICAL_SEVERITY
}

/// Whether a pattern of `found` is critical.
pub open spec fn has_critical_pattern(found: Seq<PatternModel>) -> bool {
    exists|i: int| 0 <= i < found.len() && (#[trigger] found[i]).severity == PatternSeverity::Critical
}

/// The level of an assessment: the level of its score, lifted to `High` where
/// a critical finding asks for it.
pub open spec fn assessed_level(score: nat, critical_finding: bool) -> RiskLevel {
    if critical_finding {
        level_for(score).max_of(RiskLevel::High)
    } else {
        level_for(score)
    }
}

/// What a [`RiskAssessment`] says, as plain values.
pub struct AssessmentModel {
    /// The components and the level.
    pub risk_score: RiskScoreModel,
    /// The weighted combination of the components.
    pub overall_score: nat,
    /// Whether a critical finding was met, so that the level is `High` at least.
    pub escalated: bool,
}

/// The four components and what is derived from them.
#[derive(Debug)]
pub struct RiskAssessment {
    pub risk_score: RiskScore,
    /// The weighted combination of the components.
    pub overall_score: Score,
    /// Whether a critical finding was met, so that the level is `High` at least.
    pub escalated: bool,
}

impl View for RiskAssessment {
    type V = AssessmentModel;

    open spec fn view(&self) -> AssessmentModel {
        AssessmentModel {
            risk_score: self.risk_score@,
            overall_score: self.overall_score@,
            escalated: self.escalated,
        }
    }
}

impl Clone for RiskAssessment {
    fn clone(&self) -> (r: RiskAssessment)
        ensures
            r@ == self@,
    {
        RiskAssessment {
            risk_score: self.risk_score.clone(),
            overall_score: self.overall_score,
            escalated: self.escalated,
        }
    }
}

/// The components of an assessment, by name.
pub open spec fn component_map(
    supply_chain: nat,
    vulnerability: nat,
    malicious_code: nat,
    typosquatting: nat,
) -> Map<Seq<char>, nat> {
    Map::empty().insert(supply_chain_name(), supply_chain).insert(
        vulnerability_name(),
        vulnerability,
    ).insert(malicious_code_name(), malicious_code).insert(typosquatting_name(), typosquatting)
}

/// The assessment of a package with `breadth` distinct dependencies, the
/// vulnerabilities and patterns found, and the verdict on its name.
pub open spec fn assessment_of(
    breadth: nat,
    vulnerabilities: Seq<VulnerabilityModel>,
    patterns: Seq<PatternModel>,
    verdict: Option<TyposquattingModel>,
) -> AssessmentModel {
    let s = supply_chain_points(breadth);
    let v = vulnerability_points(vulnerabilities);
    let m = malicious_code_points(patterns);
    let t = typosquatting_points(verdict);
    let critical = has_critical_vulnerability(vulnerabilities) || has_critical_pattern(patterns);
    let overall = weighted_score(s, v, m, t);
    AssessmentModel {
        risk_score: RiskScoreModel {
            components: component_map(s, v, m, t),
            risk_level: assessed_level(overall, critical),
        },
        overall_score: overall,
        escalated: critical,
    }
}

/// The model of an optional verdict.
pub open spec fn verdict_model(verdict: Option<TyposquattingRisk>) -> Option<TyposquattingModel> {
    match verdict {
        Some(v) => Some(v@),
        None => None,
    }
}

/// A wider number has at least as many binary digits.
pub proof fn lemma_bit_length_is_monotone(a: nat, b: nat)
    requires
        a <= b,
    ensures
        bit_length(a) <= bit_length(b),
    decreases b,
{
    if a > 0 {
        lemma_bit_length_is_monotone(a / 2, b / 2);
    }
}

/// More distinct dependencies never give a lower supply-chain component, and
/// the component stays on the scale.
pub proof fn lemma_supply_chain_is_monotone(fewer: nat, more: nat)
    requires
        fewer <= more,
    ensures
        supply_chain_points(fewer) <= supply_chain_points(more) <= 100,
{
    lemma_bit_length_is_monotone(fewer, more);
}

/// The weighted score of components on the scale is on the scale, and grows
/// with each component.
pub proof fn lemma_weighted_score_is_monotone(
    s1: nat,
    v1: nat,
    m1: nat,
    t1: nat,
    s2: nat,
    v2: nat,
    m2: nat,
    t2: nat,
)
    requires
        s1 <= s2 <= 100,
        v1 <= v2 <= 100,
        m1 <= m2 <= 100,
        t1 <= t2 <= 100,
    ensures
        weighted_score(s1, v1, m1, t1) <= weighted_score(s2, v2, m2, t2) <= 100,
        level_for(weighted_score(s1, v1, m1, t1)).at_most(level_for(weighted_score(s2, v2, m2, t2))),
{
}

/// A critical finding puts the level at `High` or above, whatever the score.
pub proof fn lemma_critical_finding_escalates(score: nat)
    ensures
        RiskLevel::High.at_most(assessed_level(score, true)),
        level_for(score).at_most(assessed_level(score, true)),
        assessed_level(score, false) == level_for(score),
{
}

/// Without vulnerabilities, hostile patterns and resemblance, the level is
/// `Low` at most, however many dependencies there are.
pub proof fn lemma_exposure_alone_stays_low(supply_chain: nat)
    requires
        supply_chain <= 100,
    ensures
        assessed_level(weighted_score(supply_chain, 0, 0, 0), false).at_most(RiskLevel::Low),
{
}

/// The severity of every vulnerability is at most the worst severity.
pub proof fn lemma_worst_severity_bounds(found: Seq<VulnerabilityModel>)
    ensures
        forall|i: int| 0 <= i < found.len() ==> (#[trigger] found[i]).severity <= worst_severity(found),
        found.len() == 0 ==> worst_severity(found) == 0,
        found.len() > 0 ==> exists|i: int|
            0 <= i < found.len() && (#[trigger] found[i]).severity == worst_severity(found),
    decreases found.len(),
{
    if found.len() > 0 {
        let rest = found.drop_last();
        lemma_worst_severity_bounds(rest);
        assert forall|i: int| 0 <= i < found.len() implies (#[trigger] found[i]).severity
            <= worst_severity(found) by {
            if i < rest.len() {
                assert(rest[i] == found[i]);
            }
        }
        if found.last().severity > worst_severity(rest) || rest.len() == 0 {
            assert(found[found.len() - 1].severity == worst_severity(found));
        } else {
            let i = choose|i: int|
                0 <= i < rest.len() && (#[trigger] rest[i]).severity == worst_severity(rest);
            assert(found[i] == rest[i]);
        }
    }
}

/// The supply-chain component for `breadth` distinct dependencies.
pub fn supply_chain_score(breadth: usize) -> (r: Score)
    ensures
        r@ == supply_chain_points(breadth as nat),
{
    let mut rest: usize = breadth;
    let mut digits: u64 = 0;
    while rest > 0 && digits < 10
        invariant
            digits <= 10,
            digits + bit_length(rest as nat) == bit_length(breadth as nat),
        decreases rest,
    {
        rest = rest / 2;
        digits += 1;
    }
    Score::capped(10 * digits)
}

/// The malicious-code component of `found`.
pub fn malicious_code_score(found: &Vec<MaliciousPattern>) -> (r: Score)
    ensures
        r@ == malicious_code_points(pattern_models(found@)),
{
    let ghost all = pattern_models(found@);
    let mut total: u64 = 0;
    let mut i: usize = 0;
    assert(all.take(0) =~= Seq::empty());
    while i < found.len()
        invariant
            i <= found.len(),
            all == pattern_models(found@),
            total == capped(total_weight(all.take(i as int))),
        decreases found.len() - i,
    {
        assert(all.take(i + 1).drop_last() =~= all.take(i as int));
        assert(all.take(i + 1).last() == found[i as int]@);
        let sum: u64 = total + found[i].severity.points();
        total = if sum > 100 {
            100
        } else {
            sum
        };
        i += 1;
    }
    assert(all.take(found.len() as int) =~= all);
    Score::capped(total)
}

/// The typosquatting component of `verdict`.
pub fn typosquatting_score(verdict: &Option<TyposquattingRisk>) -> (r: Score)
    ensures
        r@ == typosquatting_points(verdict_model(*verdict)),
{
    match verdict {
        Some(v) => if v.is_potential_typosquatting() {
            v.confidence_score()
        } else {
            Score::zero()
        },
        None => Score::zero(),
    }
}

/// Whether a vulnerability of `found` is critical.
pub fn any_critical_vulnerability(found: &Vec<Vulnerability>) -> (r: bool)
    ensures
        r == has_critical_vulnerability(vulnerability_models(found@)),
{
    let mut i: usize = 0;
    while i < found.len()
        invariant
            i <= found.len(),
            forall|k: int| 0 <= k < i ==> found[k]@.severity < CRITICAL_SEVERITY,
        decreases found.len() - i,
    {
        if found[i].severity_score().value() >= CRITICAL_SEVERITY {
            assert(vulnerability_models(found@)[i as int] == found[i as int]@);
            return true;
        }
        i += 1;
    }
    false
}

/// Whether a pattern of `found` is critical.
pub fn any_critical_pattern(found: &Vec<MaliciousPattern>) -> (r: bool)
    ensures
        r == has_critical_pattern(pattern_models(found@)),
{
    let mut i: usize = 0;
    while i < found.len()
        invariant
            i <= found.len(),
            forall|k: int| 0 <= k < i ==> found[k].severity != PatternSeverity::Critical,
        decreases found.len() - i,
    {
        if found[i].severity.is_critical() {
            assert(pattern_models(found@)[i as int] == found[i as int]@);
            return true;
        }
        i += 1;
    }
    false
}

/// The level of the overall score `score`.
pub fn level_of(score: Score) -> (r: RiskLevel)
    ensures
        r == level_for(score@),
{
    let points = score.value();
    if points < 20 {
        RiskLevel::Safe
    } else if points < 40 {
        RiskLevel::Low
    } else if points < 60 {
        RiskLevel::Medium
    } else if points < 80 {
        RiskLevel::High
    } else {
        RiskLevel::Critical
    }
}

/// Combines four components into the overall score.
pub fn combine(supply_chain: Score, vulnerability: Score, malicious_code: Score, typosquatting: Score) -> (r:
    Score)
    ensures
        r@ == weighted_score(supply_chain@, vulnerability@, malicious_code@, typosquatting@),
{
    let s: u64 = supply_chain.value() as u64;
    let v: u64 = vulnerability.value() as u64;
    let m: u64 = malicious_code.value() as u64;
    let t: u64 = typosquatting.value() as u64;
    let total: u64 = SUPPLY_CHAIN_WEIGHT * s + VULNERABILITY_WEIGHT * v + MALICIOUS_CODE_WEIGHT * m
        + TYPOSQUATTING_WEIGHT * t;
    Score::capped(total / 100)
}

/// Folds the findings into one assessment.
pub fn assess(
    breadth: usize,
    vulnerabilities: &Vec<Vulnerability>,
    patterns: &Vec<MaliciousPattern>,
    verdict: &Option<TyposquattingRisk>,
) -> (r: RiskAssessment)
    ensures
        r@ == assessment_of(
            breadth as nat,
            vulnerability_models(vulnerabilities@),
            pattern_models(patterns@),
            verdict_model(*verdict),
        ),
{
    let s = supply_chain_score(breadth);
    let v = highest_severity(vulnerabilities);
    let m = malicious_code_score(patterns);
    let t = typosquatting_score(verdict);
    let critical = any_critical_vulnerability(vulnerabilities) || any_critical_pattern(patterns);
    let overall = combine(s, v, m, t);
    let base = level_of(overall);
    let level = if critical {
        base.raised_to(RiskLevel::High)
    } else {
        base
    };
    let risk_score = RiskScore::new(level).with_component("supply_chain", s).with_component(
        "vulnerability",
        v,
    ).with_component("malicious_code", m).with_component("typosquatting", t);
    RiskAssessment { risk_score, overall_score: overall, escalated: critical }
}

} // verus!
