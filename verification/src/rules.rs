//! The rules that an analysis scans with.

use crate::pattern::{holds_chain, stage_texts};
use crate::risk::PatternSeverity;
use crate::scanner::{consistent_rules, rule_models, Rule, RuleModel};
use crate::text::texts;
use vstd::prelude::*;

verus! {

/// Commands that download from the network.
pub open spec fn download_tools() -> Seq<Seq<char>> {
    seq!["curl"@, "wget"@]
}

/// A pipe into a shell.
pub open spec fn shell_pipes() -> Seq<Seq<char>> {
    seq!["| sh"@, "|sh"@, "| bash"@, "|bash"@, "| zsh"@, "|zsh"@]
}

/// Calls that start a shell or another process.
pub open spec fn spawn_calls() -> Seq<Seq<char>> {
    seq!["child_process"@, "subprocess"@, "os.system"@, "os.popen"@, "execSync"@, "spawnSync"@]
}

/// Commands and calls that delete recursively or by force.
pub open spec fn destructive_calls() -> Seq<Seq<char>> {
    seq!["rm -rf"@, "rm -fr"@, "rmtree("@, "rimraf"@, "del /f"@]
}

/// Calls that open a network connection.
pub open spec fn network_calls() -> Seq<Seq<char>> {
    seq![
        "urllib"@,
        "requests."@,
        "http.request"@,
        "https.request"@,
        "http.get"@,
        "https.get"@,
        "XMLHttpRequest"@,
        "socket."@,
        "fetch("@,
    ]
}

/// Places where credentials and environment variables are read.
pub open spec fn secret_stores() -> Seq<Seq<char>> {
    seq!["process.env"@, "os.environ"@, ".npmrc"@, ".ssh/"@, "/etc/passwd"@]
}

/// Calls that decode an encoded payload.
pub open spec fn decoders() -> Seq<Seq<char>> {
    seq!["base64"@, "atob("@, "fromCharCode"@]
}

/// Calls that run a text as code.
pub open spec fn evaluators() -> Seq<Seq<char>> {
    seq!["eval("@, "exec("@, "Function("@]
}

/// A download piped into a shell.
pub open spec fn piped_download_rule() -> RuleModel {
    RuleModel {
        pattern_name: "remote-code-exec"@,
        description: "Downloads code from the network and pipes it into a shell"@,
        severity: PatternSeverity::Critical,
        stages: Seq::empty().push(download_tools()).push(shell_pipes()),
    }
}

/// A spawned process that downloads.
pub open spec fn spawned_download_rule() -> RuleModel {
    RuleModel {
        pattern_name: "remote-code-exec"@,
        description: "Spawns a process that downloads code from the network"@,
        severity: PatternSeverity::Critical,
        stages: Seq::empty().push(spawn_calls()).push(download_tools()),
    }
}

/// Recursive or forced deletion.
pub open spec fn destructive_rule() -> RuleModel {
    RuleModel {
        pattern_name: "destructive-filesystem"@,
        description: "Deletes files recursively or by force"@,
        severity: PatternSeverity::High,
        stages: seq![destructive_calls()],
    }
}

/// A spawned shell or process.
pub open spec fn spawn_rule() -> RuleModel {
    RuleModel {
        pattern_name: "process-spawn"@,
        description: "Spawns a shell or another process"@,
        severity: PatternSeverity::Medium,
        stages: seq![spawn_calls()],
    }
}

/// A network connection opened while installing.
pub open spec fn network_rule() -> RuleModel {
    RuleModel {
        pattern_name: "network-access"@,
        description: "Opens a network connection (urllib, http, sockets) while installing"@,
        severity: PatternSeverity::Medium,
        stages: seq![network_calls()],
    }
}

/// Credentials or environment variables read, then the network used.
pub open spec fn exfiltration_rule() -> RuleModel {
    RuleModel {
        pattern_name: "data-exfiltration"@,
        description: "Reads credentials or environment variables and talks to the network"@,
        severity: PatternSeverity::High,
        stages: Seq::empty().push(secret_stores()).push(network_calls()),
    }
}

/// An evaluator applied to a decoder.
pub open spec fn evaluated_payload_rule() -> RuleModel {
    RuleModel {
        pattern_name: "obfuscated-payload"@,
        description: "Evaluates an encoded payload"@,
        severity: PatternSeverity::High,
        stages: Seq::empty().push(evaluators()).push(decoders()),
    }
}

/// A payload decoded, then evaluated.
pub open spec fn decoded_payload_rule() -> RuleModel {
    RuleModel {
        pattern_name: "obfuscated-payload"@,
        description: "Decodes a payload and evaluates it"@,
        severity: PatternSeverity::High,
        stages: Seq::empty().push(decoders()).push(evaluators()),
    }
}

/// The rules of a standard analysis, in the order in which they are applied.
pub open spec fn standard_rules() -> Seq<RuleModel> {
    Seq::empty().push(piped_download_rule()).push(spawned_download_rule()).push(
        destructive_rule(),
    ).push(spawn_rule()).push(network_rule()).push(exfiltration_rule()).push(
        evaluated_payload_rule(),
    ).push(decoded_payload_rule())
}

/// Whether `text` downloads something from the network and pipes it into a shell.
pub open spec fn pipes_download_into_shell(text: Seq<char>) -> bool {
    holds_chain(text, piped_download_rule().stages)
}

/// In the standard rules, rules of one name have one severity, every rule has a
/// description, and the rule for piped downloads is critical.
pub proof fn lemma_standard_rules_are_consistent()
    ensures
        consistent_rules(standard_rules()),
        forall|i: int|
            0 <= i < standard_rules().len() ==> (#[trigger] standard_rules()[i]).description.len()
                > 0,
        standard_rules().len() == 8,
        standard_rules()[0] == piped_download_rule(),
        piped_download_rule().severity == PatternSeverity::Critical,
{
    reveal_strlit("remote-code-exec");
    reveal_strlit("destructive-filesystem");
    reveal_strlit("process-spawn");
    reveal_strlit("network-access");
    reveal_strlit("data-exfiltration");
    reveal_strlit("obfuscated-payload");
    reveal_strlit("Downloads code from the network and pipes it into a shell");
    reveal_strlit("Spawns a process that downloads code from the network");
    reveal_strlit("Deletes files recursively or by force");
    reveal_strlit("Spawns a shell or another process");
    reveal_strlit("Opens a network connection (urllib, http, sockets) while installing");
    reveal_strlit("Reads credentials or environment variables and talks to the network");
    reveal_strlit("Evaluates an encoded payload");
    reveal_strlit("Decodes a payload and evaluates it");
    let rules = standard_rules();
    assert("remote-code-exec"@.len() == 16);
    assert("destructive-filesystem"@.len() == 22);
    assert("process-spawn"@.len() == 13);
    assert("network-access"@.len() == 14);
    assert("data-exfiltration"@.len() == 17);
    assert("obfuscated-payload"@.len() == 18);
}

/// `words` with `word` added at the end.
fn and_word(words: Vec<String>, word: &str) -> (r: Vec<String>)
    ensures
        texts(r@) == texts(words@).push(word@),
{
    let mut out = words;
    out.push(word.to_owned());
    assert(texts(out@) =~= texts(words@).push(word@));
    out
}

/// `stages` with the stage `words` added at the end.
fn and_stage(stages: Vec<Vec<String>>, words: Vec<String>) -> (r: Vec<Vec<String>>)
    ensures
        stage_texts(r@) == stage_texts(stages@).push(texts(words@)),
{
    let mut out = stages;
    out.push(words);
    assert(stage_texts(out@) =~= stage_texts(stages@).push(texts(words@)));
    out
}

/// `rules` with `rule` added at the end.
fn and_rule(rules: Vec<Rule>, rule: Rule) -> (r: Vec<Rule>)
    ensures
        rule_models(r@) == rule_models(rules@).push(rule@),
{
    let mut out = rules;
    out.push(rule);
    assert(rule_models(out@) =~= rule_models(rules@).push(rule@));
    out
}

fn no_words() -> (r: Vec<String>)
    ensures
        texts(r@) == Seq::<Seq<char>>::empty(),
{
    let r: Vec<String> = Vec::new();
    assert(texts(r@) =~= Seq::<Seq<char>>::empty());
    r
}

fn no_stages() -> (r: Vec<Vec<String>>)
    ensures
        stage_texts(r@) == Seq::<Seq<Seq<char>>>::empty(),
{
    let r: Vec<Vec<String>> = Vec::new();
    assert(stage_texts(r@) =~= Seq::<Seq<Seq<char>>>::empty());
    r
}

fn download_tool_words() -> (r: Vec<String>)
    ensures
        texts(r@) == download_tools(),
{
    and_word(and_word(no_words(), "curl"), "wget")
}

fn shell_pipe_words() -> (r: Vec<String>)
    ensures
        texts(r@) == shell_pipes(),
{
    let w = and_word(and_word(and_word(no_words(), "| sh"), "|sh"), "| bash");
    and_word(and_word(and_word(w, "|bash"), "| zsh"), "|zsh")
}

fn spawn_call_words() -> (r: Vec<String>)
    ensures
        texts(r@) == spawn_calls(),
{
    let w = and_word(and_word(and_word(no_words(), "child_process"), "subprocess"), "os.system");
    and_word(and_word(and_word(w, "os.popen"), "execSync"), "spawnSync")
}

fn destructive_call_words() -> (r: Vec<String>)
    ensures
        texts(r@) == destructive_calls(),
{
    let w = and_word(and_word(and_word(no_words(), "rm -rf"), "rm -fr"), "rmtree(");
    and_word(and_word(w, "rimraf"), "del /f")
}

fn network_call_words() -> (r: Vec<String>)
    ensures
        texts(r@) == network_calls(),
{
    let w = and_word(and_word(and_word(no_words(), "urllib"), "requests."), "http.request");
    let w = and_word(and_word(and_word(w, "https.request"), "http.get"), "https.get");
    and_word(and_word(and_word(w, "XMLHttpRequest"), "socket."), "fetch(")
}

fn secret_store_words() -> (r: Vec<String>)
    ensures
        texts(r@) == secret_stores(),
{
    let w = and_word(and_word(and_word(no_words(), "process.env"), "os.environ"), ".npmrc");
    and_word(and_word(w, ".ssh/"), "/etc/passwd")
}

fn decoder_words() -> (r: Vec<String>)
    ensures
        texts(r@) == decoders(),
{
    and_word(and_word(and_word(no_words(), "base64"), "atob("), "fromCharCode")
}

fn evaluator_words() -> (r: Vec<String>)
    ensures
        texts(r@) == evaluators(),
{
    and_word(and_word(and_word(no_words(), "eval("), "exec("), "Function(")
}

/// A rule named `name` that looks for the chain `stages`.
pub fn rule(name: &str, description: &str, severity: PatternSeverity, stages: Vec<Vec<String>>) -> (r:
    Rule)
    ensures
        r@ == (RuleModel {
            pattern_name: name@,
            description: description@,
            severity,
            stages: stage_texts(stages@),
        }),
{
    Rule { pattern_name: name.to_owned(), description: description.to_owned(), severity, stages }
}

/// The rules of a standard analysis.
pub fn default_rules() -> (r: Vec<Rule>)
    ensures
        rule_models(r@) == standard_rules(),
        consistent_rules(rule_models(r@)),
{
    proof {
        lemma_standard_rules_are_consistent();
    }
    let rules: Vec<Rule> = Vec::new();
    assert(rule_models(rules@) =~= Seq::<RuleModel>::empty());
    let rules = and_rule(
        rules,
        rule(
            "remote-code-exec",
            "Downloads code from the network and pipes it into a shell",
            PatternSeverity::Critical,
            and_stage(and_stage(no_stages(), download_tool_words()), shell_pipe_words()),
        ),
    );
    let rules = and_rule(
        rules,
        rule(
            "remote-code-exec",
            "Spawns a process that downloads code from the network",
            PatternSeverity::Critical,
            and_stage(and_stage(no_stages(), spawn_call_words()), download_tool_words()),
        ),
    );
    let rules = and_rule(
        rules,
        rule(
            "destructive-filesystem",
            "Deletes files recursively or by force",
            PatternSeverity::High,
            and_stage(no_stages(), destructive_call_words()),
        ),
    );
    let rules = and_rule(
        rules,
        rule(
            "process-spawn",
            "Spawns a shell or another process",
            PatternSeverity::Medium,
            and_stage(no_stages(), spawn_call_words()),
        ),
    );
    let rules = and_rule(
        rules,
        rule(
            "network-access",
            "Opens a network connection (urllib, http, sockets) while installing",
            PatternSeverity::Medium,
            and_stage(no_stages(), network_call_words()),
        ),
    );
    let rules = and_rule(
        rules,
        rule(
            "data-exfiltration",
            "Reads credentials or environment variables and talks to the network",
            PatternSeverity::High,
            and_stage(and_stage(no_stages(), secret_store_words()), network_call_words()),
        ),
    );
    let rules = and_rule(
        rules,
        rule(
            "obfuscated-payload",
            "Evaluates an encoded payload",
            PatternSeverity::High,
            and_stage(and_stage(no_stages(), evaluator_words()), decoder_words()),
        ),
    );
    let rules = and_rule(
        rules,
        rule(
            "obfuscated-payload",
            "Decodes a payload and evaluates it",
            PatternSeverity::High,
            and_stage(and_stage(no_stages(), decoder_words()), evaluator_words()),
        ),
    );
    rules
}

} // verus!
