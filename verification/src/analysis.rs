//! The analysis of one package, from its description to the assessment.

use crate::aggregate::{
    assess, assessment_of, supply_chain_points, AssessmentModel, RiskAssessment,
};
use crate::dependency::{
    analyze_dependencies, dependency_analysis_of, no_dependency_analysis, DependencyAnalysis,
    DependencyAnalysisModel, DependencyCatalog, CatalogEntryModel,
};
use crate::level::RiskLevel;
use crate::package::{
    coherent_verdict, AnalysisOptions, PackageInfo, PackageModel, QualityMetrics, QualityModel,
    TyposquattingModel, TyposquattingRisk,
};
use crate::quality::{evaluate_quality, quality_of};
use crate::risk::{
    malicious_code_name, pattern_models, supply_chain_name, typosquatting_name,
    vulnerability_models, vulnerability_name, well_formed_vulnerability, MaliciousPattern,
    PatternModel, Vulnerability, VulnerabilityModel,
};
use crate::rules::{default_rules, standard_rules};
use crate::scanner::{findings, scan, scannable_sources, sources_of};
use crate::score::Score;
use crate::text::texts;
use crate::typosquat::{detect_typosquatting, verdict};
use crate::vulnerability::{
    match_vulnerabilities, matched_vulnerabilities, unchecked_dependencies, FeedRecordModel,
    VulnerabilityFeed, VulnerabilityReport,
};
use vstd::prelude::*;

verus! {

/// What an [`AnalysisResult`] says, as plain values.
pub struct AnalysisModel {
    pub package: PackageModel,
    pub assessment: AssessmentModel,
    pub dependencies: DependencyAnalysisModel,
    pub vulnerabilities: Seq<VulnerabilityModel>,
    pub patterns: Seq<PatternModel>,
    /// The verdict on the name; `None` when the name was not examined.
    pub typosquatting: Option<TyposquattingModel>,
    pub quality: QualityModel,
    /// The dependencies that could not be checked against the feed.
    pub unchecked: Seq<Seq<char>>,
}

/// A result hangs together: its assessment is the fold of the findings it
/// holds, and every finding and signal in it is well formed.
pub open spec fn coherent_analysis(m: AnalysisModel) -> bool {
    &&& m.assessment == assessment_of(
        m.dependencies.breadth,
        m.vulnerabilities,
        m.patterns,
        m.typosquatting,
    )
    &&& forall|i: int|
        0 <= i < m.vulnerabilities.len() ==> well_formed_vulnerability(#[trigger] m.vulnerabilities[i])
    &&& m.typosquatting matches Some(v) ==> coherent_verdict(v)
    &&& m.quality.documentation_score <= 100
    &&& m.quality.maintenance_score <= 100
}

/// Everything an analysis found out about a package.
#[derive(Debug)]
pub struct AnalysisResult {
    package_info: PackageInfo,
    risk_assessment: RiskAssessment,
    dependency_analysis: DependencyAnalysis,
    vulnerabilities: Vec<Vulnerability>,
    malicious_patterns: Vec<MaliciousPattern>,
    typosquatting: Option<TyposquattingRisk>,
    quality: QualityMetrics,
    unchecked: Vec<String>,
}

impl View for AnalysisResult {
    type V = AnalysisModel;

    closed spec fn view(&self) -> AnalysisModel {
        AnalysisModel {
            package: self.package_info@,
            assessment: self.risk_assessment@,
            dependencies: self.dependency_analysis@,
            vulnerabilities: vulnerability_models(self.vulnerabilities@),
            patterns: pattern_models(self.malicious_patterns@),
            typosquatting: match self.typosquatting {
                Some(v) => Some(v@),
                None => None,
            },
            quality: self.quality@,
            unchecked: texts(self.unchecked@),
        }
    }
}

/// The four component names are four different names.
pub proof fn lemma_component_names_differ()
    ensures
        supply_chain_name() != vulnerability_name(),
        supply_chain_name() != malicious_code_name(),
        supply_chain_name() != typosquatting_name(),
        vulnerability_name() != malicious_code_name(),
        vulnerability_name() != typosquatting_name(),
        malicious_code_name() != typosquatting_name(),
{
    reveal_strlit("supply_chain");
    reveal_strlit("vulnerability");
    reveal_strlit("malicious_code");
    reveal_strlit("typosquatting");
    assert(supply_chain_name().len() == 12);
    assert(vulnerability_name().len() == 13);
    assert(malicious_code_name().len() == 14);
    assert(typosquatting_name().len() == 13);
    assert(vulnerability_name()[0] == 'v');
    assert(typosquatting_name()[0] == 't');
}

impl AnalysisResult {
    /// Every result hangs together.
    #[verifier::type_invariant]
    pub open spec fn wf(self) -> bool {
        coherent_analysis(self@)
    }

    /// The package that was analyzed.
    pub fn package_info(&self) -> (r: &PackageInfo)
        ensures
            r@ == self@.package,
    {
        &self.package_info
    }

    /// The components, the overall score and the level.
    pub fn risk_assessment(&self) -> (r: &RiskAssessment)
        ensures
            r@ == self@.assessment,
            r@ == assessment_of(
                self@.dependencies.breadth,
                self@.vulnerabilities,
                self@.patterns,
                self@.typosquatting,
            ),
    {
        proof {
            use_type_invariant(self);
        }
        &self.risk_assessment
    }

    /// What the walk of the dependency graph found.
    pub fn dependency_analysis(&self) -> (r: &DependencyAnalysis)
        ensures
            r@ == self@.dependencies,
    {
        &self.dependency_analysis
    }

    /// The known vulnerabilities of the dependencies.
    pub fn vulnerabilities(&self) -> (r: &[Vulnerability])
        ensures
            vulnerability_models(r@) == self@.vulnerabilities,
    {
        self.vulnerabilities.as_slice()
    }

    /// The hostile constructs found in the scripts.
    pub fn malicious_patterns(&self) -> (r: &[MaliciousPattern])
        ensures
            pattern_models(r@) == self@.patterns,
    {
        self.malicious_patterns.as_slice()
    }

    /// The dependencies that could not be checked against the feed.
    pub fn unchecked_dependencies(&self) -> (r: &[String])
        ensures
            texts(r@) == self@.unchecked,
    {
        self.unchecked.as_slice()
    }

    /// The level of the package.
    pub fn overall_risk_level(&self) -> (r: RiskLevel)
        ensures
            r == self@.assessment.risk_score.risk_level,
    {
        self.risk_assessment.risk_score.risk_level()
    }

    /// The hostile constructs found in the scripts.
    pub fn malicious_indicators(&self) -> (r: &[MaliciousPattern])
        ensures
            pattern_models(r@) == self@.patterns,
    {
        self.malicious_patterns()
    }

    /// The supply-chain component of the risk score; 0 where the score lists none.
    pub fn supply_chain_risk_score(&self) -> (r: Score)
        ensures
            r@ == supply_chain_points(self@.dependencies.breadth),
            r@ == self@.assessment.risk_score.components[supply_chain_name()],
    {
        proof {
            use_type_invariant(self);
            lemma_component_names_differ();
        }
        match self.risk_assessment.risk_score.component("supply_chain") {
            Some(score) => score,
            None => Score::zero(),
        }
    }

    /// The quality signals of the package.
    pub fn quality_metrics(&self) -> (r: QualityMetrics)
        ensures
            r@ == self@.quality,
    {
        self.quality
    }

    /// The verdict on the name of the package; `None` when the name was not examined.
    pub fn typosquatting_risk(&self) -> (r: Option<TyposquattingRisk>)
        ensures
            match r {
                Some(v) => self@.typosquatting == Some(v@),
                None => self@.typosquatting is None,
            },
    {
        match &self.typosquatting {
            Some(v) => Some(v.clone()),
            None => None,
        }
    }
}

/// Why the contents of a package could not be turned into a description.
#[derive(Clone, Copy, Debug, PartialEq, Eq, Structural, Hash)]
pub enum IngestionFailure {
    /// The path to the package does not exist.
    PathMissing,
    /// No manifest of a supported ecosystem was found.
    NoManifest,
    /// The manifest is not well-formed.
    Malformed,
}

/// Why an analysis gave no result.
#[derive(Clone, Copy, Debug, PartialEq, Eq, Structural, Hash)]
pub enum AnalysisError {
    PathNotFound,
    ManifestNotFound,
    ManifestInvalid,
    /// The time budget ran out.
    Timeout,
}

impl AnalysisError {
    /// The cause, for a human reader.
    pub open spec fn cause(self) -> Seq<char> {
        match self {
            AnalysisError::PathNotFound => "the package path does not exist"@,
            AnalysisError::ManifestNotFound => "no package manifest was found"@,
            AnalysisError::ManifestInvalid => "the package manifest is not well-formed"@,
            AnalysisError::Timeout => "the analysis ran out of time"@,
        }
    }

    /// The cause, for a human reader.
    pub fn message(&self) -> (r: String)
        ensures
            r@ == self.cause(),
            r@.len() > 0,
    {
        let text = match self {
            AnalysisError::PathNotFound => "the package path does not exist",
            AnalysisError::ManifestNotFound => "no package manifest was found",
            AnalysisError::ManifestInvalid => "the package manifest is not well-formed",
            AnalysisError::Timeout => "the analysis ran out of time",
        };
        proof {
            reveal_strlit("the package path does not exist");
            reveal_strlit("no package manifest was found");
            reveal_strlit("the package manifest is not well-formed");
            reveal_strlit("the analysis ran out of time");
        }
        text.to_owned()
    }
}

/// The error that an ingestion failure ends the analysis with.
pub open spec fn fatal_error(failure: IngestionFailure) -> AnalysisError {
    match failure {
        IngestionFailure::PathMissing => AnalysisError::PathNotFound,
        IngestionFailure::NoManifest => AnalysisError::ManifestNotFound,
        IngestionFailure::Malformed => AnalysisError::ManifestInvalid,
    }
}

/// Whether vulnerabilities are matched under `options`: the dependencies
/// must be analyzed for that.
pub open spec fn matches_vulnerabilities(options: AnalysisOptions) -> bool {
    options.analyze_dependencies && options.check_vulnerabilities
}

/// The dependency analysis under `options`.
pub open spec fn dependencies_under(
    package: PackageModel,
    options: AnalysisOptions,
    catalog: Seq<CatalogEntryModel>,
) -> DependencyAnalysisModel {
    if options.analyze_dependencies {
        dependency_analysis_of(catalog, package.dependencies(), options.max_dependency_depth as nat)
    } else {
        no_dependency_analysis()
    }
}

/// The vulnerabilities found under `options`.
pub open spec fn vulnerabilities_under(
    package: PackageModel,
    options: AnalysisOptions,
    feed: Seq<FeedRecordModel>,
    catalog: Seq<CatalogEntryModel>,
) -> Seq<VulnerabilityModel> {
    if matches_vulnerabilities(options) {
        matched_vulnerabilities(feed, dependencies_under(package, options, catalog).dependencies)
    } else {
        Seq::empty()
    }
}

/// The hostile patterns found under `options`.
pub open spec fn patterns_under(package: PackageModel, options: AnalysisOptions) -> Seq<PatternModel> {
    if options.scan_malicious_patterns {
        findings(standard_rules(), sources_of(package))
    } else {
        Seq::empty()
    }
}

/// The verdict on the name under `options`.
pub open spec fn verdict_under(
    package: PackageModel,
    options: AnalysisOptions,
    corpus: Seq<Seq<char>>,
) -> Option<TyposquattingModel> {
    if options.detect_typosquatting {
        Some(verdict(package.metadata().name, corpus))
    } else {
        None
    }
}

/// The result of analyzing `package` under `options` against the given feed,
/// corpus and catalog.
///
/// A detector that is switched off contributes its empty output; every part
/// of the result is there either way.
pub open spec fn analysis_of(
    package: PackageModel,
    options: AnalysisOptions,
    feed: Seq<FeedRecordModel>,
    corpus: Seq<Seq<char>>,
    catalog: Seq<CatalogEntryModel>,
) -> AnalysisModel {
    let dependencies = dependencies_under(package, options, catalog);
    let vulnerabilities = vulnerabilities_under(package, options, feed, catalog);
    let patterns = patterns_under(package, options);
    let typosquatting = verdict_under(package, options, corpus);
    AnalysisModel {
        package: package,
        assessment: assessment_of(dependencies.breadth, vulnerabilities, patterns, typosquatting),
        dependencies: dependencies,
        vulnerabilities: vulnerabilities,
        patterns: patterns,
        typosquatting: typosquatting,
        quality: quality_of(package),
        unchecked: if matches_vulnerabilities(options) {
            unchecked_dependencies(feed, dependencies.dependencies)
        } else {
            Seq::empty()
        },
    }
}

/// Analyzes `package`.
///
/// The dependency graph is walked first, then the dependencies found are
/// matched against the feed; the scripts are scanned, the name is compared
/// with the corpus and the manifest is read for quality signals; at last
/// everything is folded into the assessment.
pub fn analyze_package(
    package: PackageInfo,
    options: &AnalysisOptions,
    feed: &VulnerabilityFeed,
    corpus: &Vec<String>,
    catalog: &DependencyCatalog,
) -> (r: AnalysisResult)
    ensures
        r@ == analysis_of(package@, *options, feed@, texts(corpus@), catalog@),
        coherent_analysis(r@),
{
    let dependency_analysis = if options.analyze_dependencies {
        analyze_dependencies(package.dependencies(), catalog, options.max_dependency_depth)
    } else {
        DependencyAnalysis::none()
    };
    let report = if options.analyze_dependencies && options.check_vulnerabilities {
        match_vulnerabilities(feed, &dependency_analysis.dependencies)
    } else {
        let empty = VulnerabilityReport { vulnerabilities: Vec::new(), unchecked: Vec::new() };
        assert(vulnerability_models(empty.vulnerabilities@) =~= Seq::empty());
        assert(texts(empty.unchecked@) =~= Seq::empty());
        empty
    };
    let VulnerabilityReport { vulnerabilities, unchecked } = report;
    let malicious_patterns = if options.scan_malicious_patterns {
        let rules = default_rules();
        let sources = scannable_sources(&package);
        scan(&rules, &sources)
    } else {
        let empty: Vec<MaliciousPattern> = Vec::new();
        assert(pattern_models(empty@) =~= Seq::empty());
        empty
    };
    let typosquatting = if options.detect_typosquatting {
        Some(detect_typosquatting(package.name(), corpus))
    } else {
        None
    };
    let quality = evaluate_quality(&package);
    let risk_assessment = assess(
        dependency_analysis.breadth,
        &vulnerabilities,
        &malicious_patterns,
        &typosquatting,
    );
    proof {
        match &typosquatting {
            Some(v) => {
                use_type_invariant(v);
            },
            None => {},
        }
        use_type_invariant(&quality.documentation_score);
        use_type_invariant(&quality.maintenance_score);
        assert forall|i: int| 0 <= i < vulnerabilities.len() implies well_formed_vulnerability(
            #[trigger] vulnerability_models(vulnerabilities@)[i],
        ) by {
            assert(well_formed_vulnerability(vulnerabilities[i]@));
        }
    }
    AnalysisResult {
        package_info: package,
        risk_assessment,
        dependency_analysis,
        vulnerabilities,
        malicious_patterns,
        typosquatting,
        quality,
        unchecked,
    }
}

/// Whether a package description can be analyzed: it names its package.
pub open spec fn analyzable(package: PackageModel) -> bool {
    package.metadata().name.len() > 0
}

/// Analyzes what the ingestion of a package produced.
///
/// An ingestion failure, or a description without a package name, ends the
/// analysis with an error and no result. Everything else is analyzed, with
/// whatever the detectors can find out.
pub fn analyze(
    ingested: Result<PackageInfo, IngestionFailure>,
    options: &AnalysisOptions,
    feed: &VulnerabilityFeed,
    corpus: &Vec<String>,
    catalog: &DependencyCatalog,
) -> (r: Result<AnalysisResult, AnalysisError>)
    ensures
        match ingested {
            Err(failure) => r == Err::<AnalysisResult, AnalysisError>(fatal_error(failure)),
            Ok(package) => if analyzable(package@) {
                r matches Ok(result) && result@ == analysis_of(
                    package@,
                    *options,
                    feed@,
                    texts(corpus@),
                    catalog@,
                ) && coherent_analysis(result@)
            } else {
                r == Err::<AnalysisResult, AnalysisError>(AnalysisError::ManifestInvalid)
            },
        },
{
    match ingested {
        Err(IngestionFailure::PathMissing) => Err(AnalysisError::PathNotFound),
        Err(IngestionFailure::NoManifest) => Err(AnalysisError::ManifestNotFound),
        Err(IngestionFailure::Malformed) => Err(AnalysisError::ManifestInvalid),
        Ok(package) => {
            if package.name().is_empty() {
                Err(AnalysisError::ManifestInvalid)
            } else {
                Ok(analyze_package(package, options, feed, corpus, catalog))
            }
        },
    }
}

/// Whether `elapsed_seconds` exhausts the time budget of `options`.
pub open spec fn out_of_time(elapsed_seconds: u64, options: AnalysisOptions) -> bool {
    elapsed_seconds >= options.timeout_seconds
}

/// Holds an outcome against the time budget.
///
/// An analysis that took the whole budget or more ends with
/// [`AnalysisError::Timeout`] and no result, whatever it found. An outcome that
/// is an error already stays that error.
pub fn conclude(
    outcome: Result<AnalysisResult, AnalysisError>,
    elapsed_seconds: u64,
    options: &AnalysisOptions,
) -> (r: Result<AnalysisResult, AnalysisError>)
    ensures
        match outcome {
            Err(error) => r == Err::<AnalysisResult, AnalysisError>(error),
            Ok(result) => if out_of_time(elapsed_seconds, *options) {
                r == Err::<AnalysisResult, AnalysisError>(AnalysisError::Timeout)
            } else {
                r == Ok::<AnalysisResult, AnalysisError>(result)
            },
        },
{
    match outcome {
        Err(error) => Err(error),
        Ok(result) => {
            if elapsed_seconds >= options.timeout_seconds {
                Err(AnalysisError::Timeout)
            } else {
                Ok(result)
            }
        },
    }
}

} // verus!
