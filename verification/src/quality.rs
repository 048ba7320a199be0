//! Quality signals read off a package's manifest.

use crate::package::{
    script_models, MetadataModel, PackageInfo, PackageMetadata, PackageModel, QualityMetrics,
    QualityModel, Script, ScriptModel,
};
use crate::score::Score;
use vstd::prelude::*;

verus! {

/// Whether an optional field of the manifest is filled in.
pub open spec fn filled(field: Option<Seq<char>>) -> bool {
    field matches Some(text) && text.len() > 0
}

/// 1 for a fact that holds, 0 for one that does not.
pub open spec fn one_if(fact: bool) -> nat {
    if fact {
        1
    } else {
        0
    }
}

/// The documentation score of a manifest, in hundredths: a fifth for each of
/// description, homepage, repository, license and keywords that it gives.
pub open spec fn documentation_points(m: MetadataModel) -> nat {
    20 * (one_if(filled(m.description)) + one_if(filled(m.homepage)) + one_if(filled(m.repository))
        + one_if(filled(m.license)) + one_if(m.keywords.len() > 0))
}

/// The maintenance score of a manifest, in hundredths: the unknown value 50,
/// and a quarter more for each of repository and publication date that it gives.
pub open spec fn maintenance_points(m: MetadataModel) -> nat {
    50 + 25 * (one_if(filled(m.repository)) + one_if(filled(m.publish_date)))
}

/// Whether one of `scripts` is named `name`.
pub open spec fn declares_script(scripts: Seq<ScriptModel>, name: Seq<char>) -> bool {
    exists|i: int| 0 <= i < scripts.len() && (#[trigger] scripts[i]).name == name
}

/// Whether the manifest declares a test script.
pub open spec fn declares_tests(package: PackageModel) -> bool {
    match package {
        PackageModel::Npm { scripts, .. } => declares_script(scripts, "test"@),
        PackageModel::Python { .. } => false,
    }
}

/// Whether the manifest declares a script for continuous integration.
pub open spec fn declares_ci(package: PackageModel) -> bool {
    match package {
        PackageModel::Npm { scripts, .. } => declares_script(scripts, "ci"@),
        PackageModel::Python { .. } => false,
    }
}

/// The quality signals of `package`.
pub open spec fn quality_of(package: PackageModel) -> QualityModel {
    QualityModel {
        documentation_score: documentation_points(package.metadata()),
        has_tests: declares_tests(package),
        has_ci_cd: declares_ci(package),
        maintenance_score: maintenance_points(package.metadata()),
    }
}

/// Both scores of the quality signals are on the scale.
pub proof fn lemma_quality_on_scale(package: PackageModel)
    ensures
        quality_of(package).documentation_score <= 100,
        50 <= quality_of(package).maintenance_score <= 100,
{
}

fn is_filled(field: &Option<String>) -> (r: bool)
    ensures
        r == filled(crate::text::opt_text(*field)),
{
    match field {
        Some(text) => !text.as_str().is_empty(),
        None => false,
    }
}

fn count(fact: bool) -> (r: u64)
    ensures
        r == one_if(fact),
{
    if fact {
        1
    } else {
        0
    }
}

fn has_script(scripts: &Vec<Script>, name: &str) -> (r: bool)
    ensures
        r == declares_script(script_models(scripts@), name@),
{
    let wanted: String = name.to_owned();
    let mut i: usize = 0;
    while i < scripts.len()
        invariant
            i <= scripts.len(),
            wanted@ == name@,
            forall|k: int| 0 <= k < i ==> scripts[k].name@ != name@,
        decreases scripts.len() - i,
    {
        if scripts[i].name == wanted {
            assert(script_models(scripts@)[i as int].name == name@);
            return true;
        }
        i += 1;
    }
    false
}

/// The documentation score of `metadata`.
pub fn documentation_score(metadata: &PackageMetadata) -> (r: Score)
    ensures
        r@ == documentation_points(metadata@),
{
    let given: u64 = count(is_filled(&metadata.description)) + count(is_filled(&metadata.homepage))
        + count(is_filled(&metadata.repository)) + count(is_filled(&metadata.license)) + count(
        metadata.keywords.len() > 0,
    );
    assert(crate::text::texts(metadata.keywords@).len() == metadata.keywords@.len());
    Score::capped(20 * given)
}

/// The maintenance score of `metadata`.
pub fn maintenance_score(metadata: &PackageMetadata) -> (r: Score)
    ensures
        r@ == maintenance_points(metadata@),
{
    let given: u64 = count(is_filled(&metadata.repository)) + count(
        is_filled(&metadata.publish_date),
    );
    Score::capped(50 + 25 * given)
}

/// Reads the quality signals of `package` off its manifest.
pub fn evaluate_quality(package: &PackageInfo) -> (r: QualityMetrics)
    ensures
        r@ == quality_of(package@),
{
    let metadata = package.metadata();
    let (has_tests, has_ci_cd) = match package {
        PackageInfo::Npm(p) => (has_script(&p.scripts, "test"), has_script(&p.scripts, "ci")),
        PackageInfo::Python(_) => (false, false),
    };
    QualityMetrics {
        documentation_score: documentation_score(metadata),
        has_tests,
        has_ci_cd,
        maintenance_score: maintenance_score(metadata),
    }
}

} // verus!
