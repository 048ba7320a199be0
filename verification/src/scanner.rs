//! The scan of install scripts for hostile constructs.
//!
//! A rule names a kind of construct and describes it as a chain of words. A
//! rule fires on a script that holds its chain; each firing is reported once
//! for every pair of pattern name and location. Scanning only reads the text.

use crate::package::{PackageInfo, PackageModel};
use crate::pattern::{chain_texts, holds_chain, stage_texts, text_holds_chain, word_texts};
use crate::risk::{pattern_models, MaliciousPattern, PatternModel, PatternSeverity};
use crate::text::{chars_of, texts};
use vstd::prelude::*;
use vstd::string::StringExecFns;

verus! {

/// A detector for one kind of hostile construct.
#[derive(Debug)]
pub struct Rule {
    /// Stable identifier of the kind of construct.
    pub pattern_name: String,
    /// What the construct does, for a human reader.
    pub description: String,
    pub severity: PatternSeverity,
    /// The chain of words that gives the construct away: one word of each
    /// stage, in order.
    pub stages: Vec<Vec<String>>,
}

/// What a [`Rule`] says, as plain values.
pub struct RuleModel {
    pub pattern_name: Seq<char>,
    pub description: Seq<char>,
    pub severity: PatternSeverity,
    pub stages: Seq<Seq<Seq<char>>>,
}

impl View for Rule {
    type V = RuleModel;

    open spec fn view(&self) -> RuleModel {
        RuleModel {
            pattern_name: self.pattern_name@,
            description: self.description@,
            severity: self.severity,
            stages: stage_texts(self.stages@),
        }
    }
}

/// The rules as plain values.
pub open spec fn rule_models(rules: Seq<Rule>) -> Seq<RuleModel> {
    Seq::new(rules.len(), |i: int| rules[i]@)
}

/// A text to scan and the place it was taken from.
#[derive(Debug)]
pub struct ScriptSource {
    /// The script or manifest field that holds the text.
    pub location: String,
    pub content: String,
}

/// What a [`ScriptSource`] says, as plain text.
pub struct SourceModel {
    pub location: Seq<char>,
    pub content: Seq<char>,
}

impl View for ScriptSource {
    type V = SourceModel;

    open spec fn view(&self) -> SourceModel {
        SourceModel { location: self.location@, content: self.content@ }
    }
}

/// The sources as plain text.
pub open spec fn source_models(sources: Seq<ScriptSource>) -> Seq<SourceModel> {
    Seq::new(sources.len(), |i: int| sources[i]@)
}

/// Whether `rule` fires on `source`: the text holds the rule's chain.
pub open spec fn fires(rule: RuleModel, source: SourceModel) -> bool {
    holds_chain(source.content, rule.stages)
}

/// The finding that reports a firing of `rule` on `source`.
pub open spec fn finding(rule: RuleModel, source: SourceModel) -> PatternModel {
    PatternModel {
        pattern_name: rule.pattern_name,
        description: rule.description,
        location: source.location,
        severity: rule.severity,
    }
}

/// Whether `found` already reports the pattern `name` at `location`.
pub open spec fn reported(found: Seq<PatternModel>, name: Seq<char>, location: Seq<char>) -> bool {
    exists|i: int|
        0 <= i < found.len() && (#[trigger] found[i]).pattern_name == name && found[i].location
            == location
}

/// `found`, extended by the firings of the first `n` of `rules` on `source` that
/// it does not report yet.
pub open spec fn source_findings(
    found: Seq<PatternModel>,
    rules: Seq<RuleModel>,
    source: SourceModel,
    n: nat,
) -> Seq<PatternModel>
    decreases n,
{
    if n == 0 {
        found
    } else {
        let before = source_findings(found, rules, source, (n - 1) as nat);
        let rule = rules[n - 1];
        if fires(rule, source) && !reported(before, rule.pattern_name, source.location) {
            before.push(finding(rule, source))
        } else {
            before
        }
    }
}

/// The findings of `rules` on the first `n` of `sources`.
pub open spec fn findings_upto(rules: Seq<RuleModel>, sources: Seq<SourceModel>, n: nat) -> Seq<
    PatternModel,
>
    decreases n,
{
    if n == 0 {
        Seq::empty()
    } else {
        source_findings(
            findings_upto(rules, sources, (n - 1) as nat),
            rules,
            sources[n - 1],
            rules.len(),
        )
    }
}

/// The findings of `rules` on `sources`: the firings source by source and, for
/// each source, rule by rule, each pair of pattern name and location reported once.
pub open spec fn findings(rules: Seq<RuleModel>, sources: Seq<SourceModel>) -> Seq<PatternModel> {
    findings_upto(rules, sources, sources.len())
}

/// Whether `f` reports the firing of rule `r` on source `s`.
pub open spec fn is_firing(
    rules: Seq<RuleModel>,
    sources: Seq<SourceModel>,
    r: int,
    s: int,
    f: PatternModel,
) -> bool {
    &&& 0 <= r < rules.len()
    &&& 0 <= s < sources.len()
    &&& fires(rules[r], sources[s])
    &&& f == finding(rules[r], sources[s])
}

/// Whether `f` reports a firing of one of `rules` on one of the first `n` of `sources`.
pub open spec fn reports_a_firing(
    rules: Seq<RuleModel>,
    sources: Seq<SourceModel>,
    n: int,
    f: PatternModel,
) -> bool {
    exists|r: int, s: int| s < n && #[trigger] is_firing(rules, sources, r, s, f)
}

/// Whether no two of `found` report the same pattern at the same location.
pub open spec fn reported_once(found: Seq<PatternModel>) -> bool {
    forall|i: int, j: int|
        0 <= i < j < found.len() ==> !((#[trigger] found[i]).pattern_name == (
        #[trigger] found[j]).pattern_name && found[i].location == found[j].location)
}

/// Whether rules of one name have one severity.
pub open spec fn consistent_rules(rules: Seq<RuleModel>) -> bool {
    forall|i: int, j: int|
        0 <= i < rules.len() && 0 <= j < rules.len() && (#[trigger] rules[i]).pattern_name == (
        #[trigger] rules[j]).pattern_name ==> rules[i].severity == rules[j].severity
}

proof fn lemma_source_findings(
    found: Seq<PatternModel>,
    rules: Seq<RuleModel>,
    sources: Seq<SourceModel>,
    s: int,
    n: nat,
)
    requires
        0 <= s < sources.len(),
        n <= rules.len(),
    ensures
        found.len() <= source_findings(found, rules, sources[s], n).len(),
        forall|i: int|
            0 <= i < found.len() ==> #[trigger] source_findings(found, rules, sources[s], n)[i]
                == found[i],
        forall|i: int|
            found.len() <= i < source_findings(found, rules, sources[s], n).len()
                ==> reports_a_firing(
                rules,
                sources,
                s + 1,
                #[trigger] source_findings(found, rules, sources[s], n)[i],
            ),
        forall|r: int|
            0 <= r < n && fires(#[trigger] rules[r], sources[s]) ==> reported(
                source_findings(found, rules, sources[s], n),
                rules[r].pattern_name,
                sources[s].location,
            ),
        reported_once(found) ==> reported_once(source_findings(found, rules, sources[s], n)),
    decreases n,
{
    if n > 0 {
        let source = sources[s];
        let before = source_findings(found, rules, source, (n - 1) as nat);
        let out = source_findings(found, rules, source, n);
        let rule = rules[n - 1];
        lemma_source_findings(found, rules, sources, s, (n - 1) as nat);
        let grows = fires(rule, source) && !reported(before, rule.pattern_name, source.location);
        assert forall|i: int| found.len() <= i < out.len() implies reports_a_firing(
            rules,
            sources,
            s + 1,
            #[trigger] out[i],
        ) by {
            if i < before.len() {
                assert(out[i] == before[i]);
            } else {
                assert(is_firing(rules, sources, n - 1, s, out[i]));
            }
        }
        assert forall|r: int| 0 <= r < n && fires(#[trigger] rules[r], source) implies reported(
            out,
            rules[r].pattern_name,
            source.location,
        ) by {
            if r < n - 1 || !grows {
                let i = choose|i: int|
                    0 <= i < before.len() && (#[trigger] before[i]).pattern_name
                        == rules[r].pattern_name && before[i].location == source.location;
                assert(out[i] == before[i]);
            } else {
                assert(out[before.len() as int] == finding(rule, source));
            }
        }
        if reported_once(found) && grows {
            assert forall|i: int, j: int| 0 <= i < j < out.len() implies !((
            #[trigger] out[i]).pattern_name == (#[trigger] out[j]).pattern_name && out[i].location
                == out[j].location) by {
                if j < before.len() {
                    assert(out[i] == before[i] && out[j] == before[j]);
                } else {
                    assert(out[i] == before[i]);
                }
            }
        }
    }
}

proof fn lemma_findings_upto(rules: Seq<RuleModel>, sources: Seq<SourceModel>, n: nat)
    requires
        n <= sources.len(),
    ensures
        forall|i: int|
            0 <= i < findings_upto(rules, sources, n).len() ==> reports_a_firing(
                rules,
                sources,
                n as int,
                #[trigger] findings_upto(rules, sources, n)[i],
            ),
        forall|r: int, s: int|
            0 <= r < rules.len() && 0 <= s < n && fires(#[trigger] rules[r], #[trigger] sources[s])
                ==> reported(
                findings_upto(rules, sources, n),
                rules[r].pattern_name,
                sources[s].location,
            ),
        reported_once(findings_upto(rules, sources, n)),
    decreases n,
{
    if n > 0 {
        let before = findings_upto(rules, sources, (n - 1) as nat);
        let out = findings_upto(rules, sources, n);
        lemma_findings_upto(rules, sources, (n - 1) as nat);
        lemma_source_findings(before, rules, sources, n - 1, rules.len());
        assert forall|i: int| 0 <= i < out.len() implies reports_a_firing(
            rules,
            sources,
            n as int,
            #[trigger] out[i],
        ) by {
            if i < before.len() {
                assert(out[i] == before[i]);
                assert(reports_a_firing(rules, sources, n - 1, before[i]));
                let (r, s) = choose|r: int, s: int|
                    s < n - 1 && #[trigger] is_firing(rules, sources, r, s, before[i]);
                assert(s < n && is_firing(rules, sources, r, s, out[i]));
            }
        }
        assert forall|r: int, s: int|
            0 <= r < rules.len() && 0 <= s < n && fires(
                #[trigger] rules[r],
                #[trigger] sources[s],
            ) implies reported(out, rules[r].pattern_name, sources[s].location) by {
            if s < n - 1 {
                let i = choose|i: int|
                    0 <= i < before.len() && (#[trigger] before[i]).pattern_name
                        == rules[r].pattern_name && before[i].location == sources[s].location;
                assert(out[i] == before[i]);
            }
        }
    }
}

/// The findings report firings and nothing else, report every firing, and
/// report no pattern twice at one location.
pub proof fn lemma_findings_are_the_firings(rules: Seq<RuleModel>, sources: Seq<SourceModel>)
    ensures
        forall|i: int|
            0 <= i < findings(rules, sources).len() ==> reports_a_firing(
                rules,
                sources,
                sources.len() as int,
                #[trigger] findings(rules, sources)[i],
            ),
        forall|r: int, s: int|
            0 <= r < rules.len() && 0 <= s < sources.len() && fires(
                #[trigger] rules[r],
                #[trigger] sources[s],
            ) ==> reported(findings(rules, sources), rules[r].pattern_name, sources[s].location),
        reported_once(findings(rules, sources)),
{
    lemma_findings_upto(rules, sources, sources.len());
}

/// Where rules of one name have one severity, a firing is reported at the
/// severity of the rule that fired.
pub proof fn lemma_firing_keeps_its_severity(
    rules: Seq<RuleModel>,
    sources: Seq<SourceModel>,
    r: int,
    s: int,
)
    requires
        consistent_rules(rules),
        0 <= r < rules.len(),
        0 <= s < sources.len(),
        fires(rules[r], sources[s]),
    ensures
        exists|i: int|
            0 <= i < findings(rules, sources).len() && (#[trigger] findings(
                rules,
                sources,
            )[i]).severity == rules[r].severity,
{
    lemma_findings_are_the_firings(rules, sources);
    let out = findings(rules, sources);
    assert(fires(rules[r], sources[s]));
    let i = choose|i: int|
        0 <= i < out.len() && (#[trigger] out[i]).pattern_name == rules[r].pattern_name
            && out[i].location == sources[s].location;
    assert(reports_a_firing(rules, sources, sources.len() as int, out[i]));
    let (r2, s2) = choose|r2: int, s2: int|
        s2 < sources.len() && #[trigger] is_firing(rules, sources, r2, s2, out[i]);
    assert(rules[r2].pattern_name == rules[r].pattern_name);
    assert(out[i].severity == rules[r].severity);
}

/// The words of a stage, as characters.
fn compile_words(words: &Vec<String>) -> (r: Vec<Vec<char>>)
    ensures
        word_texts(r@) == texts(words@),
{
    let mut out: Vec<Vec<char>> = Vec::new();
    let mut i: usize = 0;
    while i < words.len()
        invariant
            i <= words.len(),
            out.len() == i,
            forall|k: int| 0 <= k < i ==> out[k]@ == words[k]@,
        decreases words.len() - i,
    {
        out.push(chars_of(words[i].as_str()));
        i += 1;
    }
    assert(word_texts(out@) =~= texts(words@));
    out
}

/// The stages of a chain, as characters.
fn compile_stages(stages: &Vec<Vec<String>>) -> (r: Vec<Vec<Vec<char>>>)
    ensures
        chain_texts(r@) == stage_texts(stages@),
{
    let mut out: Vec<Vec<Vec<char>>> = Vec::new();
    let mut i: usize = 0;
    while i < stages.len()
        invariant
            i <= stages.len(),
            out.len() == i,
            forall|k: int| 0 <= k < i ==> word_texts(out[k]@) == texts(stages[k]@),
        decreases stages.len() - i,
    {
        out.push(compile_words(&stages[i]));
        i += 1;
    }
    assert(chain_texts(out@) =~= stage_texts(stages@));
    out
}

/// Whether `rule` fires on the text `content`.
pub fn rule_fires_on(rule: &Rule, content: &str) -> (r: bool)
    ensures
        r == holds_chain(content@, rule@.stages),
{
    let stages = compile_stages(&rule.stages);
    let text = chars_of(content);
    text_holds_chain(&text, &stages)
}

/// Whether `found` already reports the pattern `name` at `location`.
fn is_reported(found: &Vec<MaliciousPattern>, name: &String, location: &String) -> (r: bool)
    ensures
        r == reported(pattern_models(found@), name@, location@),
{
    let mut i: usize = 0;
    while i < found.len()
        invariant
            i <= found.len(),
            forall|k: int|
                0 <= k < i ==> !(found[k].pattern_name@ == name@ && found[k].location@
                    == location@),
        decreases found.len() - i,
    {
        if found[i].pattern_name == *name && found[i].location == *location {
            assert(pattern_models(found@)[i as int].pattern_name == name@);
            return true;
        }
        i += 1;
    }
    false
}

/// Scans `sources` with `rules`.
///
/// The findings come source by source and, for each source, in the order of
/// the rules; a pattern is reported once for each location.
pub fn scan(rules: &Vec<Rule>, sources: &Vec<ScriptSource>) -> (found: Vec<MaliciousPattern>)
    ensures
        pattern_models(found@) == findings(rule_models(rules@), source_models(sources@)),
{
    let ghost rm = rule_models(rules@);
    let ghost sm = source_models(sources@);
    let mut compiled: Vec<Vec<Vec<Vec<char>>>> = Vec::new();
    let mut c: usize = 0;
    while c < rules.len()
        invariant
            c <= rules.len(),
            compiled.len() == c,
            forall|k: int| 0 <= k < c ==> chain_texts(compiled[k]@) == rules[k]@.stages,
        decreases rules.len() - c,
    {
        compiled.push(compile_stages(&rules[c].stages));
        c += 1;
    }
    let mut found: Vec<MaliciousPattern> = Vec::new();
    let mut s: usize = 0;
    assert(pattern_models(found@) =~= findings_upto(rm, sm, 0));
    while s < sources.len()
        invariant
            s <= sources.len(),
            rm == rule_models(rules@),
            sm == source_models(sources@),
            compiled.len() == rules.len(),
            forall|k: int| 0 <= k < rules.len() ==> chain_texts(compiled[k]@) == rules[k]@.stages,
            pattern_models(found@) == findings_upto(rm, sm, s as nat),
        decreases sources.len() - s,
    {
        let source = &sources[s];
        let content = chars_of(source.content.as_str());
        let ghost start = pattern_models(found@);
        let mut r: usize = 0;
        while r < rules.len()
            invariant
                r <= rules.len(),
                s < sources.len(),
                rm == rule_models(rules@),
                sm == source_models(sources@),
                source == sources[s as int],
                content@ == source.content@,
                compiled.len() == rules.len(),
                forall|k: int|
                    0 <= k < rules.len() ==> chain_texts(compiled[k]@) == rules[k]@.stages,
                pattern_models(found@) == source_findings(start, rm, sm[s as int], r as nat),
            decreases rules.len() - r,
        {
            let rule = &rules[r];
            assert(rm[r as int] == rule@);
            assert(sm[s as int] == source@);
            if text_holds_chain(&content, &compiled[r]) && !is_reported(
                &found,
                &rule.pattern_name,
                &source.location,
            ) {
                let ghost before = pattern_models(found@);
                found.push(
                    MaliciousPattern {
                        pattern_name: rule.pattern_name.clone(),
                        description: rule.description.clone(),
                        location: source.location.clone(),
                        severity: rule.severity,
                    },
                );
                assert(pattern_models(found@) =~= before.push(finding(rule@, source@)));
            }
            r += 1;
        }
        s += 1;
    }
    found
}

/// The texts of `package` that are worth scanning.
///
/// For an npm package these are the scripts of its manifest, each located as
/// `scripts.` followed by its name; for a Python distribution it is the setup
/// script, located as `setup.py`.
pub open spec fn sources_of(package: PackageModel) -> Seq<SourceModel> {
    match package {
        PackageModel::Npm { scripts, .. } => Seq::new(
            scripts.len(),
            |i: int| SourceModel { location: "scripts."@ + scripts[i].name, content: scripts[i].body },
        ),
        PackageModel::Python { setup_script, .. } => match setup_script {
            Some(text) => seq![SourceModel { location: "setup.py"@, content: text }],
            None => Seq::empty(),
        },
    }
}

/// Collects the texts of `package` that are worth scanning.
pub fn scannable_sources(package: &PackageInfo) -> (r: Vec<ScriptSource>)
    ensures
        source_models(r@) == sources_of(package@),
{
    let mut out: Vec<ScriptSource> = Vec::new();
    match package {
        PackageInfo::Npm(p) => {
            let mut i: usize = 0;
            while i < p.scripts.len()
                invariant
                    i <= p.scripts.len(),
                    out.len() == i,
                    forall|k: int|
                        0 <= k < i ==> out[k]@ == (SourceModel {
                            location: "scripts."@ + p.scripts[k].name@,
                            content: p.scripts[k].body@,
                        }),
                decreases p.scripts.len() - i,
            {
                let mut location: String = "scripts.".to_owned();
                location.append(p.scripts[i].name.as_str());
                out.push(ScriptSource { location, content: p.scripts[i].body.clone() });
                i += 1;
            }
            assert(source_models(out@) =~= sources_of(package@));
        },
        PackageInfo::Python(p) => {
            match &p.setup_script {
                Some(text) => {
                    out.push(
                        ScriptSource { location: "setup.py".to_owned(), content: text.clone() },
                    );
                },
                None => {},
            }
            assert(source_models(out@) =~= sources_of(package@));
        },
    }
    out
}

} // verus!
