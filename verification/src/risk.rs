//! The vocabulary of an assessment: findings, component scores and the overall score.

use crate::level::RiskLevel;
use crate::score::Score;
use crate::text::{copy_texts, texts};
use crate::version::VersionRange;
use vstd::prelude::*;

verus! {

/// How much weight a hostile construct carries.
#[derive(Clone, Copy, Debug, PartialEq, Eq, Structural, Hash)]
pub enum PatternSeverity {
    Low,
    Medium,
    High,
    Critical,
}

impl PatternSeverity {
    /// What one finding of this severity adds to the malicious-code score.
    pub open spec fn weight(self) -> nat {
        match self {
            PatternSeverity::Low => 10,
            PatternSeverity::Medium => 25,
            PatternSeverity::High => 50,
            PatternSeverity::Critical => 100,
        }
    }

    /// What one finding of this severity adds to the malicious-code score.
    pub fn points(self) -> (r: u64)
        ensures
            r == self.weight(),
    {
        match self {
            PatternSeverity::Low => 10,
            PatternSeverity::Medium => 25,
            PatternSeverity::High => 50,
            PatternSeverity::Critical => 100,
        }
    }

    /// Whether a single finding of this severity is alarming by itself.
    pub fn is_critical(self) -> (r: bool)
        ensures
            r == (self == PatternSeverity::Critical),
    {
        match self {
            PatternSeverity::Critical => true,
            _ => false,
        }
    }
}

/// What a [`MaliciousPattern`] says, as plain values.
pub struct PatternModel {
    pub pattern_name: Seq<char>,
    pub description: Seq<char>,
    pub location: Seq<char>,
    pub severity: PatternSeverity,
}

/// A hostile construct found in a script of the package.
#[derive(Debug)]
pub struct MaliciousPattern {
    /// Stable identifier of the kind of construct.
    pub pattern_name: String,
    /// What the construct does, for a human reader.
    pub description: String,
    /// The script or manifest field in which it was found.
    pub location: String,
    pub severity: PatternSeverity,
}

impl View for MaliciousPattern {
    type V = PatternModel;

    open spec fn view(&self) -> PatternModel {
        PatternModel {
            pattern_name: self.pattern_name@,
            description: self.description@,
            location: self.location@,
            severity: self.severity,
        }
    }
}

impl Clone for MaliciousPattern {
    fn clone(&self) -> (r: MaliciousPattern)
        ensures
            r == *self,
    {
        MaliciousPattern {
            pattern_name: self.pattern_name.clone(),
            description: self.description.clone(),
            location: self.location.clone(),
            severity: self.severity,
        }
    }
}

/// The findings as plain values.
pub open spec fn pattern_models(found: Seq<MaliciousPattern>) -> Seq<PatternModel> {
    Seq::new(found.len(), |i: int| found[i]@)
}

/// What a [`Vulnerability`] says, as plain values.
pub struct VulnerabilityModel {
    pub cve_id: Seq<char>,
    pub advisory_id: Seq<char>,
    pub description: Seq<char>,
    /// Severity in tenths of a point, 0 to 100.
    pub severity: nat,
    /// The dependency that is affected.
    pub package: Seq<char>,
    /// The versions of it that are affected.
    pub affected: VersionRange,
}

/// A vulnerability is identified, described, and rated on the scale.
pub open spec fn well_formed_vulnerability(m: VulnerabilityModel) -> bool {
    &&& m.cve_id.len() > 0 || m.advisory_id.len() > 0
    &&& m.description.len() > 0
    &&& m.severity <= 100
}

/// A known vulnerability of a dependency.
#[derive(Debug)]
pub struct Vulnerability {
    cve_id: String,
    advisory_id: String,
    description: String,
    severity: Score,
    package: String,
    affected: VersionRange,
}

impl View for Vulnerability {
    type V = VulnerabilityModel;

    closed spec fn view(&self) -> VulnerabilityModel {
        VulnerabilityModel {
            cve_id: self.cve_id@,
            advisory_id: self.advisory_id@,
            description: self.description@,
            severity: self.severity@,
            package: self.package@,
            affected: self.affected,
        }
    }
}

impl Clone for Vulnerability {
    fn clone(&self) -> (r: Vulnerability)
        ensures
            r@ == self@,
    {
        proof {
            use_type_invariant(self);
        }
        Vulnerability {
            cve_id: self.cve_id.clone(),
            advisory_id: self.advisory_id.clone(),
            description: self.description.clone(),
            severity: self.severity,
            package: self.package.clone(),
            affected: self.affected,
        }
    }
}

impl Vulnerability {
    /// Every vulnerability carries an identifier, a description and a severity on the scale.
    #[verifier::type_invariant]
    pub open spec fn wf(self) -> bool {
        well_formed_vulnerability(self@)
    }

    /// A vulnerability of `package` in the versions `affected`.
    ///
    /// `None` when both identifiers are empty or the description is.
    pub fn new(
        cve_id: String,
        advisory_id: String,
        description: String,
        severity: Score,
        package: String,
        affected: VersionRange,
    ) -> (r: Option<Vulnerability>)
        ensures
            r is Some <==> (cve_id@.len() > 0 || advisory_id@.len() > 0) && description@.len() > 0,
            r matches Some(v) ==> v@ == (VulnerabilityModel {
                cve_id: cve_id@,
                advisory_id: advisory_id@,
                description: description@,
                severity: severity@,
                package: package@,
                affected: affected,
            }) && v.wf(),
    {
        let identified = !cve_id.as_str().is_empty() || !advisory_id.as_str().is_empty();
        if identified && !description.as_str().is_empty() {
            Some(Vulnerability::identified(cve_id, advisory_id, description, severity, package, affected))
        } else {
            None
        }
    }

    /// A vulnerability that is known to carry an identifier and a description.
    pub(crate) fn identified(
        cve_id: String,
        advisory_id: String,
        description: String,
        severity: Score,
        package: String,
        affected: VersionRange,
    ) -> (r: Vulnerability)
        requires
            cve_id@.len() > 0 || advisory_id@.len() > 0,
            description@.len() > 0,
        ensures
            r.wf(),
            r@ == (VulnerabilityModel {
                cve_id: cve_id@,
                advisory_id: advisory_id@,
                description: description@,
                severity: severity@,
                package: package@,
                affected: affected,
            }),
    {
        proof {
            use_type_invariant(&severity);
        }
        Vulnerability { cve_id, advisory_id, description, severity, package, affected }
    }

    /// The CVE identifier; empty when the vulnerability has none.
    pub fn cve_id(&self) -> (r: &str)
        ensures
            r@ == self@.cve_id,
    {
        self.cve_id.as_str()
    }

    /// The advisory identifier; empty when the vulnerability has none.
    pub fn advisory_id(&self) -> (r: &str)
        ensures
            r@ == self@.advisory_id,
    {
        self.advisory_id.as_str()
    }

    pub fn description(&self) -> (r: &str)
        ensures
            r@ == self@.description,
            r@.len() > 0,
    {
        proof {
            use_type_invariant(self);
        }
        self.description.as_str()
    }

    /// Severity in tenths of a point.
    pub fn severity_score(&self) -> (r: Score)
        ensures
            r@ == self@.severity,
    {
        self.severity
    }

    /// The dependency that is affected.
    pub fn package(&self) -> (r: &str)
        ensures
            r@ == self@.package,
    {
        self.package.as_str()
    }

    /// The versions of the dependency that are affected.
    pub fn affected(&self) -> (r: VersionRange)
        ensures
            r == self@.affected,
    {
        self.affected
    }

    /// Whether the vulnerability is known under the identifiers `cve_id` and `advisory_id`.
    pub fn is_known_as(&self, cve_id: &String, advisory_id: &String) -> (r: bool)
        ensures
            r == (self@.cve_id == cve_id@ && self@.advisory_id == advisory_id@),
    {
        self.cve_id == *cve_id && self.advisory_id == *advisory_id
    }
}

/// The vulnerabilities as plain values.
pub open spec fn vulnerability_models(found: Seq<Vulnerability>) -> Seq<VulnerabilityModel> {
    Seq::new(found.len(), |i: int| found[i]@)
}


/// What a [`RiskScore`] says, as plain values.
pub struct RiskScoreModel {
    /// The score of each risk component, by the component's name.
    pub components: Map<Seq<char>, nat>,
    /// The level derived from the components.
    pub risk_level: RiskLevel,
}

/// The scores of the risk components, by name, and the level derived from them.
#[derive(Debug)]
pub struct RiskScore {
    names: Vec<String>,
    values: Vec<Score>,
    risk_level: RiskLevel,
}

/// Name of the component that measures the breadth of the dependency graph.
pub open spec fn supply_chain_name() -> Seq<char> {
    "supply_chain"@
}

/// Name of the component that measures known vulnerabilities.
pub open spec fn vulnerability_name() -> Seq<char> {
    "vulnerability"@
}

/// Name of the component that measures hostile constructs.
pub open spec fn malicious_code_name() -> Seq<char> {
    "malicious_code"@
}

/// Name of the component that measures resemblance to popular names.
pub open spec fn typosquatting_name() -> Seq<char> {
    "typosquatting"@
}

impl View for RiskScore {
    type V = RiskScoreModel;

    closed spec fn view(&self) -> RiskScoreModel {
        RiskScoreModel {
            components: Map::new(
                |k: Seq<char>| texts(self.names@).contains(k),
                |k: Seq<char>| self.values[texts(self.names@).index_of(k)]@,
            ),
            risk_level: self.risk_level,
        }
    }
}

impl Clone for RiskScore {
    fn clone(&self) -> (r: RiskScore)
        ensures
            r@ == self@,
    {
        proof {
            use_type_invariant(self);
        }
        let mut values: Vec<Score> = Vec::new();
        let mut i: usize = 0;
        while i < self.values.len()
            invariant
                i <= self.values.len(),
                values@ == self.values@.take(i as int),
            decreases self.values.len() - i,
        {
            values.push(self.values[i]);
            i += 1;
        }
        assert(self.values@.take(self.values.len() as int) == self.values@);
        RiskScore { names: copy_texts(&self.names), values, risk_level: self.risk_level }
    }
}

impl RiskScore {
    /// Each component is listed once, with a score on the scale.
    #[verifier::type_invariant]
    pub closed spec fn wf(self) -> bool {
        &&& self.names.len() == self.values.len()
        &&& texts(self.names@).no_duplicates()
        &&& forall|i: int| 0 <= i < self.values.len() ==> (#[trigger] self.values[i]).in_range()
    }

    /// Every component of a risk score lies between 0 and 100.
    pub proof fn lemma_components_on_scale(self)
        requires
            self.wf(),
        ensures
            forall|k: Seq<char>| #[trigger]
                self@.components.dom().contains(k) ==> self@.components[k] <= 100,
    {
        assert forall|k: Seq<char>| #[trigger]
            self@.components.dom().contains(k) implies self@.components[k] <= 100 by {
            let i = texts(self.names@).index_of(k);
            assert(self.values[i].in_range());
        }
    }

    /// A score at `risk_level` with no component yet.
    pub fn new(risk_level: RiskLevel) -> (r: RiskScore)
        ensures
            r@ == (RiskScoreModel { components: Map::empty(), risk_level }),
            r.wf(),
    {
        let r = RiskScore { names: Vec::new(), values: Vec::new(), risk_level };
        assert(r@.components =~= Map::empty());
        r
    }

    /// Where `name` is listed, if it is.
    fn position(&self, name: &String) -> (r: Option<usize>)
        ensures
            r is Some <==> texts(self.names@).contains(name@),
            r matches Some(i) ==> i < self.names.len() && self.names[i as int]@ == name@
                && texts(self.names@).index_of(name@) == i,
    {
        proof {
            use_type_invariant(self);
        }
        let mut i: usize = 0;
        while i < self.names.len()
            invariant
                i <= self.names.len(),
                texts(self.names@).no_duplicates(),
                forall|j: int| 0 <= j < i ==> self.names[j]@ != name@,
            decreases self.names.len() - i,
        {
            if self.names[i] == *name {
                proof {
                    let all = texts(self.names@);
                    assert(all[i as int] == name@);
                    let j = all.index_of(name@);
                    assert(0 <= j < all.len() && all[j] == name@);
                    assert(i == j);
                }
                return Some(i);
            }
            i += 1;
        }
        None
    }

    /// The same score with the component `name` set to `value`.
    pub fn with_component(self, name: &str, value: Score) -> (r: RiskScore)
        ensures
            r@ == (RiskScoreModel {
                components: self@.components.insert(name@, value@),
                risk_level: self@.risk_level,
            }),
            r.wf(),
    {
        proof {
            use_type_invariant(&self);
            use_type_invariant(&value);
        }
        let owned: String = name.to_owned();
        let found = self.position(&owned);
        let ghost before = self;
        let RiskScore { mut names, mut values, risk_level } = self;
        match found {
            Some(i) => {
                values.set(i, value);
            },
            None => {
                names.push(owned);
                values.push(value);
            },
        }
        proof {
            let old_names = texts(before.names@);
            let new_names = texts(names@);
            if found is None {
                assert(new_names =~= old_names.push(name@));
                assert forall|i: int, j: int|
                    0 <= i < new_names.len() && 0 <= j < new_names.len() && i != j implies new_names[i]
                    != new_names[j] by {
                    if i < old_names.len() {
                        assert(old_names[i] == new_names[i]);
                    }
                    if j < old_names.len() {
                        assert(old_names[j] == new_names[j]);
                    }
                }
            } else {
                assert(new_names =~= old_names);
            }
        }
        let r = RiskScore { names, values, risk_level };
        proof {
            let old_names = texts(before.names@);
            let new_names = texts(r.names@);
            if found is None {
                assert(new_names =~= old_names.push(name@));
            } else {
                assert(new_names =~= old_names);
            }
            assert forall|k: Seq<char>| #[trigger]
                r@.components.dom().contains(k) <==> before@.components.insert(
                    name@,
                    value@,
                ).dom().contains(k) by {
                if old_names.contains(k) {
                    let i = old_names.index_of(k);
                    assert(new_names[i] == k);
                }
                if k == name@ {
                    if found is None {
                        assert(new_names[old_names.len() as int] == k);
                    }
                }
                if new_names.contains(k) && k != name@ {
                    let i = new_names.index_of(k);
                    assert(old_names[i] == k);
                }
            }
            assert forall|k: Seq<char>| #[trigger]
                r@.components.dom().contains(k) implies r@.components[k] == before@.components.insert(
                name@,
                value@,
            )[k] by {
                let i = new_names.index_of(k);
                if k == name@ {
                    if found is None {
                        assert(new_names[old_names.len() as int] == k);
                    }
                } else {
                    assert(old_names[i] == k);
                    let j = old_names.index_of(k);
                    assert(new_names[j] == k);
                }
            }
            assert(r@.components =~= before@.components.insert(name@, value@));
        }
        r
    }

    /// The score of the component `name`, if the component is listed.
    pub fn component(&self, name: &str) -> (r: Option<Score>)
        ensures
            r is Some <==> self@.components.dom().contains(name@),
            r matches Some(s) ==> s@ == self@.components[name@] && s@ <= 100,
    {
        proof {
            use_type_invariant(self);
        }
        let owned: String = name.to_owned();
        match self.position(&owned) {
            Some(i) => {
                assert(self.values[i as int].in_range());
                Some(self.values[i])
            },
            None => None,
        }
    }

    /// The level derived from the components.
    pub fn risk_level(&self) -> (r: RiskLevel)
        ensures
            r == self@.risk_level,
    {
        self.risk_level
    }

    /// The names of the components that are listed, each once.
    pub fn component_names(&self) -> (r: Vec<String>)
        ensures
            texts(r@).no_duplicates(),
            forall|k: Seq<char>| #[trigger] texts(r@).contains(k) <==> self@.components.dom().contains(k),
    {
        proof {
            use_type_invariant(self);
        }
        copy_texts(&self.names)
    }
}

} // verus!
