//! Static risk assessment of software packages.
//!
//! Given a normalized description of a package, the library walks its
//! dependency graph, matches the dependencies against a vulnerability feed,
//! scans its install scripts for hostile constructs, compares its name with a
//! corpus of popular names and folds the findings into one score with a
//! discrete [`RiskLevel`].
//!
//! All scores are integers from 0 to 100: component scores as they are, unit
//! scores in hundredths, severities in tenths of a point.

pub mod aggregate;
pub mod analysis;
pub mod constraint;
pub mod dependency;
pub mod distance;
pub mod guarantees;
pub mod level;
pub mod package;
pub mod pattern;
pub mod quality;
pub mod risk;
pub mod rules;
pub mod scanner;
pub mod score;
pub mod text;
pub mod typosquat;
pub mod version;
pub mod vulnerability;

pub use aggregate::{assess, RiskAssessment};
pub use analysis::{
    analyze, analyze_package, conclude, AnalysisError, AnalysisResult, IngestionFailure,
};
pub use constraint::{parse_constraint, parse_version, Comparator};
pub use dependency::{
    analyze_dependencies, CatalogEntry, DependencyAnalysis, DependencyCatalog, DependencyKind,
    DependencyRef, Resolution,
};
pub use level::RiskLevel;
pub use package::{
    AnalysisOptions, Attribute, AttributeValue, NpmPackage, PackageInfo, PackageMetadata,
    PythonPackage, QualityMetrics, Script, TyposquattingRisk,
};
pub use risk::{MaliciousPattern, PatternSeverity, RiskScore, Vulnerability};
pub use rules::default_rules;
pub use scanner::{scan, scannable_sources, Rule, ScriptSource};
pub use score::Score;
pub use typosquat::detect_typosquatting;
pub use version::{UpperBound, Version, VersionRange};
pub use vulnerability::{
    match_vulnerabilities, Advisory, FeedAnswer, FeedRecord, VulnerabilityFeed,
    VulnerabilityReport,
};
