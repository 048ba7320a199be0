//! What holds of every analysis.

use crate::aggregate::{
    has_critical_pattern, has_critical_vulnerability, lemma_worst_severity_bounds,
    malicious_code_points, supply_chain_points, typosquatting_points, vulnerability_points,
};
use crate::analysis::{
    analysis_of, coherent_analysis, dependencies_under, lemma_component_names_differ,
    matches_vulnerabilities, AnalysisModel, AnalysisResult,
};
use crate::dependency::{
    lemma_declared_dependencies_are_accepted, lemma_walk_is_orderly, no_dependency_analysis,
    resolution_of, same_requirement, CatalogEntryModel, DependencyCatalog,
};
use crate::level::RiskLevel;
use crate::package::{AnalysisOptions, PackageInfo, PackageModel};
use crate::quality::lemma_quality_on_scale;
use crate::risk::{
    malicious_code_name, supply_chain_name, typosquatting_name, vulnerability_name,
    well_formed_vulnerability, PatternSeverity,
};
use crate::rules::{
    lemma_standard_rules_are_consistent, pipes_download_into_shell, standard_rules,
};
use crate::scanner::{findings, fires, lemma_firing_keeps_its_severity, sources_of};
use crate::text::texts;
use crate::typosquat::lemma_verdict_is_coherent;
use crate::vulnerability::{
    advisories_for, applies_to, lemma_matches_are_the_applicable, lemma_matches_are_well_formed,
    matched_vulnerabilities, well_formed_feed, worst_severity, FeedRecordModel, VulnerabilityFeed,
};
use vstd::prelude::*;

verus! {

/// The analysis of any package hangs together, whatever feed, corpus and
/// catalog it is held against, provided the feed is well formed.
pub proof fn lemma_analysis_is_coherent(
    package: PackageModel,
    options: AnalysisOptions,
    feed: Seq<FeedRecordModel>,
    corpus: Seq<Seq<char>>,
    catalog: Seq<CatalogEntryModel>,
)
    requires
        well_formed_feed(feed),
    ensures
        coherent_analysis(analysis_of(package, options, feed, corpus, catalog)),
{
    lemma_quality_on_scale(package);
    lemma_verdict_is_coherent(package.metadata().name, corpus);
    lemma_matches_are_well_formed(feed, dependencies_under(package, options, catalog).dependencies);
}

/// In every result the components of the risk score, the overall score and the
/// confidence of the verdict lie between 0 and 100, the quality scores between
/// 0 and 1 (in hundredths), and every severity between 0 and 10 (in tenths).
pub proof fn lemma_scores_are_on_scale(m: AnalysisModel)
    requires
        coherent_analysis(m),
    ensures
        m.assessment.risk_score.components.dom() =~= set![
            supply_chain_name(),
            vulnerability_name(),
            malicious_code_name(),
            typosquatting_name(),
        ],
        forall|name: Seq<char>| #[trigger]
            m.assessment.risk_score.components.dom().contains(name)
                ==> m.assessment.risk_score.components[name] <= 100,
        m.assessment.overall_score <= 100,
        m.quality.documentation_score <= 100,
        m.quality.maintenance_score <= 100,
        forall|i: int| 0 <= i < m.vulnerabilities.len() ==> (#[trigger] m.vulnerabilities[i]).severity <= 100,
        m.typosquatting matches Some(v) ==> v.confidence <= 100,
{
    lemma_component_points_on_scale(m);
    lemma_component_names_differ();
}

/// The four components of a coherent result are on the scale.
proof fn lemma_component_points_on_scale(m: AnalysisModel)
    requires
        coherent_analysis(m),
    ensures
        supply_chain_points(m.dependencies.breadth) <= 100,
        vulnerability_points(m.vulnerabilities) <= 100,
        malicious_code_points(m.patterns) <= 100,
        typosquatting_points(m.typosquatting) <= 100,
{
    lemma_worst_severity_bounds(m.vulnerabilities);
    if m.vulnerabilities.len() > 0 {
        let i = choose|i: int|
            0 <= i < m.vulnerabilities.len() && (#[trigger] m.vulnerabilities[i]).severity
                == worst_severity(m.vulnerabilities);
        assert(well_formed_vulnerability(m.vulnerabilities[i]));
    }
}

/// The component of a result that is listed under each of the four names.
pub proof fn lemma_components_by_name(m: AnalysisModel)
    requires
        coherent_analysis(m),
    ensures
        m.assessment.risk_score.components[supply_chain_name()] == supply_chain_points(
            m.dependencies.breadth,
        ),
        m.assessment.risk_score.components[vulnerability_name()] == vulnerability_points(
            m.vulnerabilities,
        ),
        m.assessment.risk_score.components[malicious_code_name()] == malicious_code_points(
            m.patterns,
        ),
        m.assessment.risk_score.components[typosquatting_name()] == typosquatting_points(
            m.typosquatting,
        ),
{
    lemma_component_names_differ();
}

/// A critical finding, be it a vulnerability or a pattern, puts the level of
/// the result at `High` or above.
pub proof fn lemma_critical_finding_is_high_risk(m: AnalysisModel)
    requires
        coherent_analysis(m),
        has_critical_vulnerability(m.vulnerabilities) || has_critical_pattern(m.patterns),
    ensures
        RiskLevel::High.at_most(m.assessment.risk_score.risk_level),
        m.assessment.escalated,
{
}

/// A package with a script that downloads something and pipes it into a shell
/// yields at least one finding and a level of `High` or above, if its scripts
/// are scanned.
pub proof fn lemma_piped_download_is_high_risk(
    package: PackageModel,
    options: AnalysisOptions,
    feed: Seq<FeedRecordModel>,
    corpus: Seq<Seq<char>>,
    catalog: Seq<CatalogEntryModel>,
    script: int,
)
    requires
        options.scan_malicious_patterns,
        0 <= script < sources_of(package).len(),
        pipes_download_into_shell(sources_of(package)[script].content),
    ensures
        analysis_of(package, options, feed, corpus, catalog).patterns.len() > 0,
        has_critical_pattern(analysis_of(package, options, feed, corpus, catalog).patterns),
        RiskLevel::High.at_most(
            analysis_of(package, options, feed, corpus, catalog).assessment.risk_score.risk_level,
        ),
{
    lemma_standard_rules_are_consistent();
    let rules = standard_rules();
    let sources = sources_of(package);
    assert(fires(rules[0], sources[script]));
    lemma_firing_keeps_its_severity(rules, sources, 0, script);
    let found = findings(rules, sources);
    let i = choose|i: int|
        0 <= i < found.len() && (#[trigger] found[i]).severity == rules[0].severity;
    assert(found[i].severity == PatternSeverity::Critical);
}

/// The verdict of a result never lists the name of the package itself among
/// the names it resembles, and a flagged name comes with at least one such name.
pub proof fn lemma_name_is_not_its_own_lookalike(
    package: PackageModel,
    options: AnalysisOptions,
    feed: Seq<FeedRecordModel>,
    corpus: Seq<Seq<char>>,
    catalog: Seq<CatalogEntryModel>,
)
    ensures
        analysis_of(package, options, feed, corpus, catalog).typosquatting matches Some(v) ==> {
            &&& !v.similar.contains(package.metadata().name)
            &&& v.flagged <==> v.similar.len() > 0
            &&& corpus.contains(package.metadata().name) ==> !v.flagged
        },
        options.detect_typosquatting ==> analysis_of(
            package,
            options,
            feed,
            corpus,
            catalog,
        ).typosquatting is Some,
{
    lemma_verdict_is_coherent(package.metadata().name, corpus);
}

/// A result without vulnerabilities, without hostile patterns and without a
/// flagged name is at `Low` or below, however many dependencies the package has.
pub proof fn lemma_clean_package_is_low_risk(m: AnalysisModel)
    requires
        coherent_analysis(m),
        m.vulnerabilities.len() == 0,
        m.patterns.len() == 0,
        m.typosquatting matches Some(v) ==> !v.flagged,
    ensures
        m.assessment.risk_score.risk_level.at_most(RiskLevel::Low),
        !m.assessment.escalated,
{
    lemma_component_points_on_scale(m);
    reveal_with_fuel(crate::aggregate::total_weight, 2);
    reveal_with_fuel(crate::vulnerability::worst_severity, 2);
}

/// A dependency that the feed lists as vulnerable in a version it accepts
/// yields at least one vulnerability, and every vulnerability of the result
/// carries an identifier and a description.
pub proof fn lemma_vulnerable_dependency_is_reported(
    package: PackageModel,
    options: AnalysisOptions,
    feed: Seq<FeedRecordModel>,
    corpus: Seq<Seq<char>>,
    catalog: Seq<CatalogEntryModel>,
    d: int,
    a: int,
)
    requires
        well_formed_feed(feed),
        matches_vulnerabilities(options),
        0 <= d < dependencies_under(package, options, catalog).dependencies.len(),
        0 <= a < advisories_for(
            feed,
            dependencies_under(package, options, catalog).dependencies[d],
        ).len(),
        applies_to(
            advisories_for(feed, dependencies_under(package, options, catalog).dependencies[d])[a],
            dependencies_under(package, options, catalog).dependencies[d],
        ),
    ensures
        analysis_of(package, options, feed, corpus, catalog).vulnerabilities.len() > 0,
        forall|i: int|
            0 <= i < analysis_of(package, options, feed, corpus, catalog).vulnerabilities.len() ==> {
                let v = #[trigger] analysis_of(
                    package,
                    options,
                    feed,
                    corpus,
                    catalog,
                ).vulnerabilities[i];
                &&& v.cve_id.len() > 0 || v.advisory_id.len() > 0
                &&& v.description.len() > 0
            },
{
    let dependencies = dependencies_under(package, options, catalog).dependencies;
    lemma_matches_are_the_applicable(feed, dependencies);
    lemma_matches_are_well_formed(feed, dependencies);
    let found = matched_vulnerabilities(feed, dependencies);
    assert(applies_to(advisories_for(feed, dependencies[d])[a], dependencies[d]));
}

/// A package that declares a dependency which can be resolved, and of which
/// the feed lists an accepted version as vulnerable, yields at least one
/// vulnerability, if its dependencies are walked and matched.
pub proof fn lemma_vulnerable_declared_dependency_is_reported(
    package: PackageModel,
    options: AnalysisOptions,
    feed: Seq<FeedRecordModel>,
    corpus: Seq<Seq<char>>,
    catalog: Seq<CatalogEntryModel>,
    k: int,
    a: int,
)
    requires
        matches_vulnerabilities(options),
        options.max_dependency_depth >= 1,
        0 <= k < package.dependencies().len(),
        resolution_of(catalog, package.dependencies()[k].name) is Some,
        0 <= a < advisories_for(feed, package.dependencies()[k]).len(),
        applies_to(advisories_for(feed, package.dependencies()[k])[a], package.dependencies()[k]),
    ensures
        analysis_of(package, options, feed, corpus, catalog).vulnerabilities.len() > 0,
{
    let declared = package.dependencies();
    let dependencies = dependencies_under(package, options, catalog).dependencies;
    lemma_declared_dependencies_are_accepted(
        catalog,
        declared,
        options.max_dependency_depth as nat,
        k,
    );
    let d = choose|d: int|
        0 <= d < dependencies.len() && same_requirement(#[trigger] dependencies[d], declared[k]);
    assert(advisories_for(feed, dependencies[d]) == advisories_for(feed, declared[k]));
    lemma_matches_are_the_applicable(feed, dependencies);
    assert(applies_to(advisories_for(feed, dependencies[d])[a], dependencies[d]));
}

/// A detector that is switched off contributes its empty output, and the
/// other parts of the result are what they are with the detector on.
pub proof fn lemma_disabled_detectors_give_empty_output(
    package: PackageModel,
    options: AnalysisOptions,
    feed: Seq<FeedRecordModel>,
    corpus: Seq<Seq<char>>,
    catalog: Seq<CatalogEntryModel>,
)
    ensures
        !options.analyze_dependencies ==> analysis_of(
            package,
            options,
            feed,
            corpus,
            catalog,
        ).dependencies == no_dependency_analysis(),
        !options.analyze_dependencies || !options.check_vulnerabilities ==> analysis_of(
            package,
            options,
            feed,
            corpus,
            catalog,
        ).vulnerabilities.len() == 0 && analysis_of(
            package,
            options,
            feed,
            corpus,
            catalog,
        ).unchecked.len() == 0,
        !options.scan_malicious_patterns ==> analysis_of(
            package,
            options,
            feed,
            corpus,
            catalog,
        ).patterns.len() == 0,
        !options.detect_typosquatting ==> analysis_of(
            package,
            options,
            feed,
            corpus,
            catalog,
        ).typosquatting is None,
        options.max_dependency_depth == 0 ==> analysis_of(
            package,
            options,
            feed,
            corpus,
            catalog,
        ).dependencies == no_dependency_analysis(),
        analysis_of(package, options, feed, corpus, catalog).package == package,
{
    lemma_walk_is_orderly(catalog, package.dependencies(), options.max_dependency_depth as nat);
}

/// Two analyses of the same package content under the same options, against
/// the same feed, corpus and catalog, give the same result.
pub proof fn lemma_analysis_is_repeatable(
    first: AnalysisResult,
    second: AnalysisResult,
    package: PackageInfo,
    again: PackageInfo,
    options: AnalysisOptions,
    feed: VulnerabilityFeed,
    corpus: Vec<String>,
    catalog: DependencyCatalog,
)
    requires
        package@ == again@,
        first@ == analysis_of(package@, options, feed@, texts(corpus@), catalog@),
        second@ == analysis_of(again@, options, feed@, texts(corpus@), catalog@),
    ensures
        first@ == second@,
{
}

} // verus!
