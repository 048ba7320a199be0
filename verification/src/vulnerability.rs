//! Matching of dependencies against a feed of known vulnerabilities.
//!
//! The feed is a snapshot: for each package it was asked about, either the
//! advisories that are known for it or the note that the lookup failed. A
//! dependency is vulnerable to an advisory when the versions it accepts and the
//! versions the advisory affects have a version in common.

use crate::dependency::{dependency_models, DependencyModel, DependencyRef};
use crate::risk::{
    vulnerability_models, well_formed_vulnerability, Vulnerability, VulnerabilityModel,
};
use crate::score::Score;
use crate::text::{contains_text, texts};
use crate::version::VersionRange;
use vstd::prelude::*;

verus! {

/// Severity, in tenths of a point, of an advisory that the feed did not rate.
pub const DEFAULT_SEVERITY: u64 = 50;

/// What an [`Advisory`] says, as plain values.
pub struct AdvisoryModel {
    pub cve_id: Seq<char>,
    pub advisory_id: Seq<char>,
    pub description: Seq<char>,
    /// Severity in tenths of a point, where the feed gives one.
    pub severity: Option<nat>,
    /// The versions that are affected.
    pub affected: VersionRange,
}

/// An advisory is identified, described, and rated on the scale if it is rated.
pub open spec fn well_formed_advisory(m: AdvisoryModel) -> bool {
    &&& m.cve_id.len() > 0 || m.advisory_id.len() > 0
    &&& m.description.len() > 0
    &&& m.severity matches Some(points) ==> points <= 100
}

/// An entry of the vulnerability feed: a range of versions of a package and
/// what is wrong with them.
#[derive(Debug)]
pub struct Advisory {
    cve_id: String,
    advisory_id: String,
    description: String,
    severity: Option<Score>,
    affected: VersionRange,
}

impl View for Advisory {
    type V = AdvisoryModel;

    closed spec fn view(&self) -> AdvisoryModel {
        AdvisoryModel {
            cve_id: self.cve_id@,
            advisory_id: self.advisory_id@,
            description: self.description@,
            severity: match self.severity {
                Some(s) => Some(s@),
                None => None,
            },
            affected: self.affected,
        }
    }
}

impl Advisory {
    /// Every advisory carries an identifier and a description.
    #[verifier::type_invariant]
    pub open spec fn wf(self) -> bool {
        well_formed_advisory(self@)
    }

    /// An advisory for the versions `affected`; `severity` is in tenths of a point.
    ///
    /// `None` when both identifiers are empty or the description is.
    pub fn new(
        cve_id: String,
        advisory_id: String,
        description: String,
        severity: Option<Score>,
        affected: VersionRange,
    ) -> (r: Option<Advisory>)
        ensures
            r is Some <==> (cve_id@.len() > 0 || advisory_id@.len() > 0) && description@.len() > 0,
            r matches Some(a) ==> a.wf() && a@ == (AdvisoryModel {
                cve_id: cve_id@,
                advisory_id: advisory_id@,
                description: description@,
                severity: match severity {
                    Some(s) => Some(s@),
                    None => None,
                },
                affected: affected,
            }),
    {
        let identified = !cve_id.as_str().is_empty() || !advisory_id.as_str().is_empty();
        if identified && !description.as_str().is_empty() {
            proof {
                match severity {
                    Some(s) => {
                        use_type_invariant(&s);
                    },
                    None => {},
                }
            }
            Some(Advisory { cve_id, advisory_id, description, severity, affected })
        } else {
            None
        }
    }

    /// The versions that are affected.
    pub fn affected(&self) -> (r: VersionRange)
        ensures
            r == self@.affected,
    {
        self.affected
    }

    /// The vulnerability that this advisory means for the dependency `package`.
    pub fn applied_to(&self, package: &String) -> (r: Vulnerability)
        ensures
            r@ == vulnerability_from(self@, package@),
            well_formed_vulnerability(r@),
    {
        proof {
            use_type_invariant(self);
        }
        let severity = match self.severity {
            Some(s) => s,
            None => Score::capped(DEFAULT_SEVERITY),
        };
        Vulnerability::identified(
            self.cve_id.clone(),
            self.advisory_id.clone(),
            self.description.clone(),
            severity,
            package.clone(),
            self.affected,
        )
    }

    /// Whether `found` lists a vulnerability under the identifiers of this advisory.
    fn is_listed(&self, found: &Vec<Vulnerability>) -> (r: bool)
        ensures
            r == listed(vulnerability_models(found@), self@.cve_id, self@.advisory_id),
    {
        let mut i: usize = 0;
        while i < found.len()
            invariant
                i <= found.len(),
                forall|k: int|
                    0 <= k < i ==> !(found[k]@.cve_id == self@.cve_id && found[k]@.advisory_id
                        == self@.advisory_id),
            decreases found.len() - i,
        {
            if found[i].is_known_as(&self.cve_id, &self.advisory_id) {
                assert(vulnerability_models(found@)[i as int] == found[i as int]@);
                return true;
            }
            i += 1;
        }
        false
    }
}

/// The advisories as plain values.
pub open spec fn advisory_models(items: Seq<Advisory>) -> Seq<AdvisoryModel> {
    Seq::new(items.len(), |i: int| items[i]@)
}

/// What the feed knows about one package.
#[derive(Debug)]
pub enum FeedAnswer {
    /// The advisories known for the package; none when the list is empty.
    Known(Vec<Advisory>),
    /// The lookup failed; nothing is known either way.
    Unavailable,
}

/// One entry of a feed snapshot.
#[derive(Debug)]
pub struct FeedRecord {
    pub package: String,
    pub answer: FeedAnswer,
}

/// What a [`FeedRecord`] says, as plain values; a failed lookup is `None`.
pub struct FeedRecordModel {
    pub package: Seq<char>,
    pub answer: Option<Seq<AdvisoryModel>>,
}

impl View for FeedRecord {
    type V = FeedRecordModel;

    open spec fn view(&self) -> FeedRecordModel {
        FeedRecordModel {
            package: self.package@,
            answer: match self.answer {
                FeedAnswer::Known(items) => Some(advisory_models(items@)),
                FeedAnswer::Unavailable => None,
            },
        }
    }
}

/// A snapshot of the vulnerability feed.
#[derive(Debug)]
pub struct VulnerabilityFeed {
    pub records: Vec<FeedRecord>,
}

impl View for VulnerabilityFeed {
    type V = Seq<FeedRecordModel>;

    open spec fn view(&self) -> Seq<FeedRecordModel> {
        Seq::new(self.records@.len(), |i: int| self.records@[i]@)
    }
}

/// Where the feed first mentions `package`, or the length of the feed.
pub open spec fn record_index(feed: Seq<FeedRecordModel>, package: Seq<char>) -> int
    decreases feed.len(),
{
    if feed.len() == 0 || feed[0].package == package {
        0
    } else {
        1 + record_index(feed.drop_first(), package)
    }
}

/// What the feed knows about `package`: the advisories of the first record
/// that mentions it, `None` where that lookup failed, and no advisory at all
/// where the feed does not mention the package.
pub open spec fn feed_answer(feed: Seq<FeedRecordModel>, package: Seq<char>) -> Option<
    Seq<AdvisoryModel>,
> {
    let i = record_index(feed, package);
    if 0 <= i < feed.len() {
        feed[i].answer
    } else {
        Some(Seq::empty())
    }
}

/// The vulnerability that `advisory` means for the dependency `package`. An
/// advisory without a severity counts as 5.0.
pub open spec fn vulnerability_from(advisory: AdvisoryModel, package: Seq<char>) -> VulnerabilityModel {
    VulnerabilityModel {
        cve_id: advisory.cve_id,
        advisory_id: advisory.advisory_id,
        description: advisory.description,
        severity: match advisory.severity {
            Some(points) => points,
            None => 50,
        },
        package: package,
        affected: advisory.affected,
    }
}

/// Whether `found` lists a vulnerability under the identifiers `cve_id` and `advisory_id`.
pub open spec fn listed(found: Seq<VulnerabilityModel>, cve_id: Seq<char>, advisory_id: Seq<char>) -> bool {
    exists|i: int|
        0 <= i < found.len() && (#[trigger] found[i]).cve_id == cve_id && found[i].advisory_id
            == advisory_id
}

/// Whether `advisory` applies to `dependency`: a version that the dependency
/// accepts is affected.
pub open spec fn applies_to(advisory: AdvisoryModel, dependency: DependencyModel) -> bool {
    advisory.affected.overlaps(dependency.constraint)
}

/// `found`, extended by the first `n` of `advisories` that apply to `dependency`
/// and are not listed yet.
pub open spec fn dependency_matches(
    found: Seq<VulnerabilityModel>,
    dependency: DependencyModel,
    advisories: Seq<AdvisoryModel>,
    n: nat,
) -> Seq<VulnerabilityModel>
    decreases n,
{
    if n == 0 {
        found
    } else {
        let before = dependency_matches(found, dependency, advisories, (n - 1) as nat);
        let advisory = advisories[n - 1];
        if applies_to(advisory, dependency) && !listed(
            before,
            advisory.cve_id,
            advisory.advisory_id,
        ) {
            before.push(vulnerability_from(advisory, dependency.name))
        } else {
            before
        }
    }
}

/// The advisories that the feed holds for `dependency`; none where the lookup failed.
pub open spec fn advisories_for(feed: Seq<FeedRecordModel>, dependency: DependencyModel) -> Seq<
    AdvisoryModel,
> {
    match feed_answer(feed, dependency.name) {
        Some(advisories) => advisories,
        None => Seq::empty(),
    }
}

/// The vulnerabilities of the first `n` of `dependencies`.
pub open spec fn matches_upto(
    feed: Seq<FeedRecordModel>,
    dependencies: Seq<DependencyModel>,
    n: nat,
) -> Seq<VulnerabilityModel>
    decreases n,
{
    if n == 0 {
        Seq::empty()
    } else {
        let advisories = advisories_for(feed, dependencies[n - 1]);
        dependency_matches(
            matches_upto(feed, dependencies, (n - 1) as nat),
            dependencies[n - 1],
            advisories,
            advisories.len(),
        )
    }
}

/// The vulnerabilities of `dependencies` according to `feed`: one for each
/// advisory that applies to a dependency, in the order of the dependencies and
/// of the feed, each advisory listed once however many dependencies it hits.
pub open spec fn matched_vulnerabilities(
    feed: Seq<FeedRecordModel>,
    dependencies: Seq<DependencyModel>,
) -> Seq<VulnerabilityModel> {
    matches_upto(feed, dependencies, dependencies.len())
}

/// The names, each once, of those of the first `n` of `dependencies` for which
/// the feed lookup failed.
pub open spec fn unchecked_upto(
    feed: Seq<FeedRecordModel>,
    dependencies: Seq<DependencyModel>,
    n: nat,
) -> Seq<Seq<char>>
    decreases n,
{
    if n == 0 {
        Seq::empty()
    } else {
        let before = unchecked_upto(feed, dependencies, (n - 1) as nat);
        let name = dependencies[n - 1].name;
        if feed_answer(feed, name) is None && !before.contains(name) {
            before.push(name)
        } else {
            before
        }
    }
}

/// The names of the dependencies that could not be checked.
pub open spec fn unchecked_dependencies(
    feed: Seq<FeedRecordModel>,
    dependencies: Seq<DependencyModel>,
) -> Seq<Seq<char>> {
    unchecked_upto(feed, dependencies, dependencies.len())
}

/// The highest severity among `found`, in tenths of a point; 0 when there is none.
pub open spec fn worst_severity(found: Seq<VulnerabilityModel>) -> nat
    decreases found.len(),
{
    if found.len() == 0 {
        0
    } else {
        let rest = worst_severity(found.drop_last());
        if found.last().severity > rest {
            found.last().severity
        } else {
            rest
        }
    }
}

/// What the matcher found, and what it could not check.
#[derive(Debug)]
pub struct VulnerabilityReport {
    pub vulnerabilities: Vec<Vulnerability>,
    /// The dependencies whose feed lookup failed; they count as not vulnerable.
    pub unchecked: Vec<String>,
}

impl VulnerabilityFeed {
    /// A feed that knows of no vulnerability.
    pub fn empty() -> (r: VulnerabilityFeed)
        ensures
            r@ == Seq::<FeedRecordModel>::empty(),
            forall|name: Seq<char>| feed_answer(r@, name) == Some(Seq::<AdvisoryModel>::empty()),
    {
        let r = VulnerabilityFeed { records: Vec::new() };
        assert(r@ =~= Seq::<FeedRecordModel>::empty());
        r
    }

    /// The first record that mentions `package`, if there is one.
    pub fn lookup(&self, package: &String) -> (r: Option<&FeedRecord>)
        ensures
            match r {
                Some(record) => record@.package == package@ && feed_answer(self@, package@)
                    == record@.answer,
                None => feed_answer(self@, package@) == Some(Seq::<AdvisoryModel>::empty()),
            },
    {
        let mut i: usize = 0;
        while i < self.records.len()
            invariant
                i <= self.records.len(),
                forall|k: int| 0 <= k < i ==> self.records[k].package@ != package@,
            decreases self.records.len() - i,
        {
            if self.records[i].package == *package {
                proof {
                    lemma_record_index(self@, package@, i as int);
                }
                return Some(&self.records[i]);
            }
            i += 1;
        }
        proof {
            lemma_record_index(self@, package@, self.records.len() as int);
        }
        None
    }
}

/// The first position at which the feed mentions `package` is its `record_index`.
proof fn lemma_record_index(feed: Seq<FeedRecordModel>, package: Seq<char>, i: int)
    requires
        0 <= i <= feed.len(),
        forall|k: int| 0 <= k < i ==> (#[trigger] feed[k]).package != package,
        i < feed.len() ==> feed[i].package == package,
    ensures
        record_index(feed, package) == i,
    decreases i,
{
    if i > 0 {
        let rest = feed.drop_first();
        assert forall|k: int| 0 <= k < i - 1 implies (#[trigger] rest[k]).package != package by {
            assert(rest[k] == feed[k + 1]);
        }
        if i - 1 < rest.len() {
            assert(rest[i - 1] == feed[i]);
        }
        lemma_record_index(rest, package, i - 1);
        assert(feed[0].package != package);
    }
}

/// Matches `dependencies` against `feed`.
///
/// Every advisory that applies to a dependency is reported once, with the
/// severity of the feed, or 5.0 where the feed gives none. A dependency whose
/// lookup failed is reported as unchecked and counts as not vulnerable.
pub fn match_vulnerabilities(feed: &VulnerabilityFeed, dependencies: &Vec<DependencyRef>) -> (r:
    VulnerabilityReport)
    ensures
        vulnerability_models(r.vulnerabilities@) == matched_vulnerabilities(
            feed@,
            dependency_models(dependencies@),
        ),
        texts(r.unchecked@) == unchecked_dependencies(feed@, dependency_models(dependencies@)),
        forall|i: int|
            0 <= i < r.vulnerabilities.len() ==> well_formed_vulnerability(
                #[trigger] r.vulnerabilities[i]@,
            ),
{
    let ghost deps = dependency_models(dependencies@);
    let mut found: Vec<Vulnerability> = Vec::new();
    let mut unchecked: Vec<String> = Vec::new();
    let mut d: usize = 0;
    assert(vulnerability_models(found@) =~= matches_upto(feed@, deps, 0));
    assert(texts(unchecked@) =~= unchecked_upto(feed@, deps, 0));
    while d < dependencies.len()
        invariant
            d <= dependencies.len(),
            deps == dependency_models(dependencies@),
            vulnerability_models(found@) == matches_upto(feed@, deps, d as nat),
            texts(unchecked@) == unchecked_upto(feed@, deps, d as nat),
            forall|i: int| 0 <= i < found.len() ==> well_formed_vulnerability(#[trigger] found[i]@),
        decreases dependencies.len() - d,
    {
        let dependency = &dependencies[d];
        assert(deps[d as int] == dependency@);
        match feed.lookup(&dependency.name) {
            Some(record) => {
                match &record.answer {
                    FeedAnswer::Known(advisories) => {
                        let ghost start = vulnerability_models(found@);
                        let ghost known = advisory_models(advisories@);
                        let mut a: usize = 0;
                        while a < advisories.len()
                            invariant
                                a <= advisories.len(),
                                known == advisory_models(advisories@),
                                forall|i: int|
                                    0 <= i < found.len() ==> well_formed_vulnerability(
                                        #[trigger] found[i]@,
                                    ),
                                vulnerability_models(found@) == dependency_matches(
                                    start,
                                    dependency@,
                                    known,
                                    a as nat,
                                ),
                            decreases advisories.len() - a,
                        {
                            let advisory = &advisories[a];
                            assert(known[a as int] == advisory@);
                            let hit = advisory.affected().intersects(&dependency.constraint);
                            if hit && !advisory.is_listed(&found) {
                                let ghost before = vulnerability_models(found@);
                                found.push(advisory.applied_to(&dependency.name));
                                assert(vulnerability_models(found@) =~= before.push(
                                    vulnerability_from(advisory@, dependency@.name),
                                ));
                            }
                            a += 1;
                        }
                    },
                    FeedAnswer::Unavailable => {
                        if !contains_text(&unchecked, &dependency.name) {
                            let ghost before = texts(unchecked@);
                            unchecked.push(dependency.name.clone());
                            assert(texts(unchecked@) =~= before.push(dependency.name@));
                        }
                    },
                }
            },
            None => {},
        }
        d += 1;
    }
    VulnerabilityReport { vulnerabilities: found, unchecked }
}

/// The highest severity among `found`; 0 when there is none.
pub fn highest_severity(found: &Vec<Vulnerability>) -> (r: Score)
    ensures
        r@ == worst_severity(vulnerability_models(found@)),
{
    let ghost all = vulnerability_models(found@);
    let mut worst = Score::zero();
    let mut i: usize = 0;
    assert(all.take(0) =~= Seq::empty());
    while i < found.len()
        invariant
            i <= found.len(),
            all == vulnerability_models(found@),
            worst@ == worst_severity(all.take(i as int)),
        decreases found.len() - i,
    {
        assert(all.take(i + 1).drop_last() =~= all.take(i as int));
        assert(all.take(i + 1).last() == found[i as int]@);
        worst = found[i].severity_score().higher_of(worst);
        i += 1;
    }
    assert(all.take(found.len() as int) =~= all);
    worst
}

/// Whether `v` reports that advisory `a` of the feed applies to dependency `d`.
pub open spec fn is_match(
    feed: Seq<FeedRecordModel>,
    dependencies: Seq<DependencyModel>,
    d: int,
    a: int,
    v: VulnerabilityModel,
) -> bool {
    &&& 0 <= d < dependencies.len()
    &&& 0 <= a < advisories_for(feed, dependencies[d]).len()
    &&& applies_to(advisories_for(feed, dependencies[d])[a], dependencies[d])
    &&& v == vulnerability_from(advisories_for(feed, dependencies[d])[a], dependencies[d].name)
}

/// Whether `v` reports an advisory that applies to one of the first `n` of `dependencies`.
pub open spec fn reports_a_match(
    feed: Seq<FeedRecordModel>,
    dependencies: Seq<DependencyModel>,
    n: int,
    v: VulnerabilityModel,
) -> bool {
    exists|d: int, a: int| d < n && #[trigger] is_match(feed, dependencies, d, a, v)
}

/// Whether no two of `found` carry the same identifiers.
pub open spec fn listed_once(found: Seq<VulnerabilityModel>) -> bool {
    forall|i: int, j: int|
        0 <= i < j < found.len() ==> !((#[trigger] found[i]).cve_id == (#[trigger] found[j]).cve_id
            && found[i].advisory_id == found[j].advisory_id)
}

/// Whether every advisory that the feed holds is identified, described and rated on the scale.
pub open spec fn well_formed_feed(feed: Seq<FeedRecordModel>) -> bool {
    forall|r: int, a: int|
        0 <= r < feed.len() && (#[trigger] feed[r]).answer is Some && 0 <= a
            < feed[r].answer->0.len() ==> well_formed_advisory(#[trigger] feed[r].answer->0[a])
}

proof fn lemma_dependency_matches(
    found: Seq<VulnerabilityModel>,
    feed: Seq<FeedRecordModel>,
    dependencies: Seq<DependencyModel>,
    d: int,
    n: nat,
)
    requires
        0 <= d < dependencies.len(),
        n <= advisories_for(feed, dependencies[d]).len(),
    ensures
        found.len() <= dependency_matches(
            found,
            dependencies[d],
            advisories_for(feed, dependencies[d]),
            n,
        ).len(),
        forall|i: int|
            0 <= i < found.len() ==> #[trigger] dependency_matches(
                found,
                dependencies[d],
                advisories_for(feed, dependencies[d]),
                n,
            )[i] == found[i],
        forall|i: int|
            found.len() <= i < dependency_matches(
                found,
                dependencies[d],
                advisories_for(feed, dependencies[d]),
                n,
            ).len() ==> reports_a_match(
                feed,
                dependencies,
                d + 1,
                #[trigger] dependency_matches(
                    found,
                    dependencies[d],
                    advisories_for(feed, dependencies[d]),
                    n,
                )[i],
            ),
        forall|a: int|
            0 <= a < n && applies_to(
                #[trigger] advisories_for(feed, dependencies[d])[a],
                dependencies[d],
            ) ==> listed(
                dependency_matches(found, dependencies[d], advisories_for(feed, dependencies[d]), n),
                advisories_for(feed, dependencies[d])[a].cve_id,
                advisories_for(feed, dependencies[d])[a].advisory_id,
            ),
        listed_once(found) ==> listed_once(
            dependency_matches(found, dependencies[d], advisories_for(feed, dependencies[d]), n),
        ),
    decreases n,
{
    if n > 0 {
        let dependency = dependencies[d];
        let advisories = advisories_for(feed, dependency);
        let before = dependency_matches(found, dependency, advisories, (n - 1) as nat);
        let out = dependency_matches(found, dependency, advisories, n);
        let advisory = advisories[n - 1];
        lemma_dependency_matches(found, feed, dependencies, d, (n - 1) as nat);
        let grows = applies_to(advisory, dependency) && !listed(
            before,
            advisory.cve_id,
            advisory.advisory_id,
        );
        assert forall|i: int| found.len() <= i < out.len() implies reports_a_match(
            feed,
            dependencies,
            d + 1,
            #[trigger] out[i],
        ) by {
            if i < before.len() {
                assert(out[i] == before[i]);
            } else {
                assert(is_match(feed, dependencies, d, n - 1, out[i]));
            }
        }
        assert forall|a: int| 0 <= a < n && applies_to(#[trigger] advisories[a], dependency) implies listed(
            out,
            advisories[a].cve_id,
            advisories[a].advisory_id,
        ) by {
            if a < n - 1 || !grows {
                let i = choose|i: int|
                    0 <= i < before.len() && (#[trigger] before[i]).cve_id == advisories[a].cve_id
                        && before[i].advisory_id == advisories[a].advisory_id;
                assert(out[i] == before[i]);
            } else {
                assert(out[before.len() as int] == vulnerability_from(advisory, dependency.name));
            }
        }
        if listed_once(found) && grows {
            assert forall|i: int, j: int| 0 <= i < j < out.len() implies !((
            #[trigger] out[i]).cve_id == (#[trigger] out[j]).cve_id && out[i].advisory_id
                == out[j].advisory_id) by {
                if j < before.len() {
                    assert(out[i] == before[i] && out[j] == before[j]);
                } else {
                    assert(out[i] == before[i]);
                }
            }
        }
    }
}

proof fn lemma_matches_upto(feed: Seq<FeedRecordModel>, dependencies: Seq<DependencyModel>, n: nat)
    requires
        n <= dependencies.len(),
    ensures
        forall|i: int|
            0 <= i < matches_upto(feed, dependencies, n).len() ==> reports_a_match(
                feed,
                dependencies,
                n as int,
                #[trigger] matches_upto(feed, dependencies, n)[i],
            ),
        forall|d: int, a: int|
            0 <= d < n && 0 <= a < advisories_for(feed, dependencies[d]).len() && applies_to(
                #[trigger] advisories_for(feed, dependencies[d])[a],
                dependencies[d],
            ) ==> listed(
                matches_upto(feed, dependencies, n),
                advisories_for(feed, dependencies[d])[a].cve_id,
                advisories_for(feed, dependencies[d])[a].advisory_id,
            ),
        listed_once(matches_upto(feed, dependencies, n)),
    decreases n,
{
    if n > 0 {
        let before = matches_upto(feed, dependencies, (n - 1) as nat);
        let out = matches_upto(feed, dependencies, n);
        let last = advisories_for(feed, dependencies[n - 1]);
        lemma_matches_upto(feed, dependencies, (n - 1) as nat);
        lemma_dependency_matches(before, feed, dependencies, n - 1, last.len());
        assert forall|i: int| 0 <= i < out.len() implies reports_a_match(
            feed,
            dependencies,
            n as int,
            #[trigger] out[i],
        ) by {
            if i < before.len() {
                assert(out[i] == before[i]);
                assert(reports_a_match(feed, dependencies, n - 1, before[i]));
                let (d, a) = choose|d: int, a: int|
                    d < n - 1 && #[trigger] is_match(feed, dependencies, d, a, before[i]);
                assert(d < n && is_match(feed, dependencies, d, a, out[i]));
            }
        }
        assert forall|d: int, a: int|
            0 <= d < n && 0 <= a < advisories_for(feed, dependencies[d]).len() && applies_to(
                #[trigger] advisories_for(feed, dependencies[d])[a],
                dependencies[d],
            ) implies listed(
            out,
            advisories_for(feed, dependencies[d])[a].cve_id,
            advisories_for(feed, dependencies[d])[a].advisory_id,
        ) by {
            if d < n - 1 {
                let advisory = advisories_for(feed, dependencies[d])[a];
                let i = choose|i: int|
                    0 <= i < before.len() && (#[trigger] before[i]).cve_id == advisory.cve_id
                        && before[i].advisory_id == advisory.advisory_id;
                assert(out[i] == before[i]);
            }
        }
    }
}

/// The matched vulnerabilities report advisories that apply and nothing else,
/// report every advisory that applies, and report none twice.
pub proof fn lemma_matches_are_the_applicable(
    feed: Seq<FeedRecordModel>,
    dependencies: Seq<DependencyModel>,
)
    ensures
        forall|i: int|
            0 <= i < matched_vulnerabilities(feed, dependencies).len() ==> reports_a_match(
                feed,
                dependencies,
                dependencies.len() as int,
                #[trigger] matched_vulnerabilities(feed, dependencies)[i],
            ),
        forall|d: int, a: int|
            0 <= d < dependencies.len() && 0 <= a < advisories_for(feed, dependencies[d]).len()
                && applies_to(#[trigger] advisories_for(feed, dependencies[d])[a], dependencies[d])
                ==> listed(
                matched_vulnerabilities(feed, dependencies),
                advisories_for(feed, dependencies[d])[a].cve_id,
                advisories_for(feed, dependencies[d])[a].advisory_id,
            ),
        listed_once(matched_vulnerabilities(feed, dependencies)),
{
    lemma_matches_upto(feed, dependencies, dependencies.len());
}

/// The advisories that a well-formed feed holds for a dependency are well formed.
pub proof fn lemma_advisories_are_well_formed(
    feed: Seq<FeedRecordModel>,
    dependency: DependencyModel,
    a: int,
)
    requires
        well_formed_feed(feed),
        0 <= a < advisories_for(feed, dependency).len(),
    ensures
        well_formed_advisory(advisories_for(feed, dependency)[a]),
        well_formed_vulnerability(
            vulnerability_from(advisories_for(feed, dependency)[a], dependency.name),
        ),
{
    lemma_record_index_in_range(feed, dependency.name);
    let r = record_index(feed, dependency.name);
    assert(feed[r].answer is Some);
    assert(well_formed_advisory(feed[r].answer->0[a]));
}

/// `record_index` lies between 0 and the length of the feed.
proof fn lemma_record_index_in_range(feed: Seq<FeedRecordModel>, package: Seq<char>)
    ensures
        0 <= record_index(feed, package) <= feed.len(),
    decreases feed.len(),
{
    if !(feed.len() == 0 || feed[0].package == package) {
        lemma_record_index_in_range(feed.drop_first(), package);
    }
}

/// Every vulnerability matched against a well-formed feed carries an
/// identifier, a description and a severity between 0 and 10 points.
pub proof fn lemma_matches_are_well_formed(
    feed: Seq<FeedRecordModel>,
    dependencies: Seq<DependencyModel>,
)
    requires
        well_formed_feed(feed),
    ensures
        forall|i: int|
            0 <= i < matched_vulnerabilities(feed, dependencies).len() ==> well_formed_vulnerability(
                #[trigger] matched_vulnerabilities(feed, dependencies)[i],
            ),
{
    lemma_matches_are_the_applicable(feed, dependencies);
    let found = matched_vulnerabilities(feed, dependencies);
    assert forall|i: int| 0 <= i < found.len() implies well_formed_vulnerability(
        #[trigger] found[i],
    ) by {
        assert(reports_a_match(feed, dependencies, dependencies.len() as int, found[i]));
        let (d, a) = choose|d: int, a: int|
            d < dependencies.len() && #[trigger] is_match(feed, dependencies, d, a, found[i]);
        lemma_advisories_are_well_formed(feed, dependencies[d], a);
    }
}

} // verus!
