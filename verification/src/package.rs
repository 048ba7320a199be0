//! Package descriptions, analysis options and the signals attached to a result.

use crate::dependency::{dependency_models, DependencyModel, DependencyRef};
use crate::score::Score;
use crate::text::{copy_opt_text, copy_texts, opt_text, texts};
use vstd::prelude::*;

verus! {

/// Descriptive facts about a package, common to every ecosystem.
#[derive(Debug)]
pub struct PackageMetadata {
    pub name: String,
    pub version: String,
    pub description: Option<String>,
    pub author: Option<String>,
    pub license: Option<String>,
    pub homepage: Option<String>,
    pub repository: Option<String>,
    pub keywords: Vec<String>,
    pub publish_date: Option<String>,
}

/// What a [`PackageMetadata`] says, as plain text.
pub struct MetadataModel {
    pub name: Seq<char>,
    pub version: Seq<char>,
    pub description: Option<Seq<char>>,
    pub author: Option<Seq<char>>,
    pub license: Option<Seq<char>>,
    pub homepage: Option<Seq<char>>,
    pub repository: Option<Seq<char>>,
    pub keywords: Seq<Seq<char>>,
    pub publish_date: Option<Seq<char>>,
}

impl View for PackageMetadata {
    type V = MetadataModel;

    open spec fn view(&self) -> MetadataModel {
        MetadataModel {
            name: self.name@,
            version: self.version@,
            description: opt_text(self.description),
            author: opt_text(self.author),
            license: opt_text(self.license),
            homepage: opt_text(self.homepage),
            repository: opt_text(self.repository),
            keywords: texts(self.keywords@),
            publish_date: opt_text(self.publish_date),
        }
    }
}

impl Clone for PackageMetadata {
    fn clone(&self) -> (r: PackageMetadata)
        ensures
            r@ == self@,
    {
        PackageMetadata {
            name: self.name.clone(),
            version: self.version.clone(),
            description: copy_opt_text(&self.description),
            author: copy_opt_text(&self.author),
            license: copy_opt_text(&self.license),
            homepage: copy_opt_text(&self.homepage),
            repository: copy_opt_text(&self.repository),
            keywords: copy_texts(&self.keywords),
            publish_date: copy_opt_text(&self.publish_date),
        }
    }
}

/// What a [`QualityMetrics`] says, as plain values; the scores are in hundredths.
pub struct QualityModel {
    pub documentation_score: nat,
    pub has_tests: bool,
    pub has_ci_cd: bool,
    pub maintenance_score: nat,
}

/// The metrics of a package nothing is known about: both scores at 50, neither
/// tests nor continuous integration seen.
pub open spec fn unknown_quality() -> QualityModel {
    QualityModel {
        documentation_score: 50,
        has_tests: false,
        has_ci_cd: false,
        maintenance_score: 50,
    }
}

/// Quality signals derived from a package's metadata.
///
/// The scores are unit scores in hundredths. The default stands for "unknown",
/// not for "average" and never for "safe".
#[derive(Debug, Clone, Copy)]
pub struct QualityMetrics {
    pub documentation_score: Score,
    pub has_tests: bool,
    pub has_ci_cd: bool,
    pub maintenance_score: Score,
}

impl View for QualityMetrics {
    type V = QualityModel;

    open spec fn view(&self) -> QualityModel {
        QualityModel {
            documentation_score: self.documentation_score@,
            has_tests: self.has_tests,
            has_ci_cd: self.has_ci_cd,
            maintenance_score: self.maintenance_score@,
        }
    }
}

impl QualityMetrics {
    pub fn documentation_score(&self) -> (r: Score)
        ensures
            r == self.documentation_score,
    {
        self.documentation_score
    }

    pub fn has_tests(&self) -> (r: bool)
        ensures
            r == self.has_tests,
    {
        self.has_tests
    }

    pub fn has_ci_cd(&self) -> (r: bool)
        ensures
            r == self.has_ci_cd,
    {
        self.has_ci_cd
    }

    pub fn maintenance_score(&self) -> (r: Score)
        ensures
            r == self.maintenance_score,
    {
        self.maintenance_score
    }
}

impl Default for QualityMetrics {
    fn default() -> (r: QualityMetrics)
        ensures
            r@ == unknown_quality(),
    {
        QualityMetrics {
            documentation_score: Score::capped(50),
            has_tests: false,
            has_ci_cd: false,
            maintenance_score: Score::capped(50),
        }
    }
}

/// Switches and bounds of one analysis run.
#[derive(Debug, Clone, Copy, PartialEq, Eq, Structural)]
pub struct AnalysisOptions {
    /// Walk the dependency graph; when off, vulnerability matching is skipped too.
    pub analyze_dependencies: bool,
    /// Match the dependencies against the vulnerability feed.
    pub check_vulnerabilities: bool,
    /// Scan install scripts for hostile constructs.
    pub scan_malicious_patterns: bool,
    /// Compare the package name with the corpus of popular names.
    pub detect_typosquatting: bool,
    /// How many levels of the dependency graph are walked; 0 walks none.
    pub max_dependency_depth: usize,
    /// Wall-clock budget of the whole run, in seconds.
    pub timeout_seconds: u64,
}

impl AnalysisOptions {
    /// Every detector on, five levels of dependencies, five minutes.
    pub open spec fn standard() -> AnalysisOptions {
        AnalysisOptions {
            analyze_dependencies: true,
            check_vulnerabilities: true,
            scan_malicious_patterns: true,
            detect_typosquatting: true,
            max_dependency_depth: 5,
            timeout_seconds: 300,
        }
    }
}

impl Default for AnalysisOptions {
    fn default() -> (r: AnalysisOptions)
        ensures
            r == AnalysisOptions::standard(),
    {
        AnalysisOptions {
            analyze_dependencies: true,
            check_vulnerabilities: true,
            scan_malicious_patterns: true,
            detect_typosquatting: true,
            max_dependency_depth: 5,
            timeout_seconds: 300,
        }
    }
}


/// What a [`TyposquattingRisk`] says, as plain values.
pub struct TyposquattingModel {
    /// Whether the name is suspected of imitating a popular one.
    pub flagged: bool,
    /// The popular names it resembles, the closest first.
    pub similar: Seq<Seq<char>>,
    /// Similarity of the closest name, in hundredths.
    pub confidence: nat,
}

/// The verdict on a name that resembles no popular name.
pub open spec fn no_resemblance() -> TyposquattingModel {
    TyposquattingModel { flagged: false, similar: Seq::empty(), confidence: 0 }
}

/// A verdict either names the look-alikes it found or names none and claims nothing.
pub open spec fn coherent_verdict(m: TyposquattingModel) -> bool {
    &&& m.flagged <==> m.similar.len() > 0
    &&& m.confidence <= 100
    &&& !m.flagged ==> m.confidence == 0
}

/// The likelihood that a package name imitates a popular one.
#[derive(Debug)]
pub struct TyposquattingRisk {
    is_potential_typosquatting: bool,
    similar_packages: Vec<String>,
    confidence_score: Score,
}

impl View for TyposquattingRisk {
    type V = TyposquattingModel;

    closed spec fn view(&self) -> TyposquattingModel {
        TyposquattingModel {
            flagged: self.is_potential_typosquatting,
            similar: texts(self.similar_packages@),
            confidence: self.confidence_score@,
        }
    }
}

impl Clone for TyposquattingRisk {
    fn clone(&self) -> (r: TyposquattingRisk)
        ensures
            r@ == self@,
    {
        proof {
            use_type_invariant(self);
        }
        TyposquattingRisk {
            is_potential_typosquatting: self.is_potential_typosquatting,
            similar_packages: copy_texts(&self.similar_packages),
            confidence_score: self.confidence_score,
        }
    }
}

impl TyposquattingRisk {
    /// The flag is up exactly when look-alikes are listed.
    #[verifier::type_invariant]
    pub open spec fn wf(self) -> bool {
        coherent_verdict(self@)
    }

    /// The verdict on a name that resembles no popular name.
    pub fn none() -> (r: TyposquattingRisk)
        ensures
            r@ == no_resemblance(),
    {
        let r = TyposquattingRisk {
            is_potential_typosquatting: false,
            similar_packages: Vec::new(),
            confidence_score: Score::zero(),
        };
        assert(r@.similar =~= Seq::empty());
        r
    }

    /// The verdict on a name that resembles `similar`, the closest first and at
    /// similarity `confidence`; `None` when `similar` is empty.
    pub fn flagged(similar: Vec<String>, confidence: Score) -> (r: Option<TyposquattingRisk>)
        ensures
            r is Some <==> similar.len() > 0,
            r matches Some(t) ==> t@ == (TyposquattingModel {
                flagged: true,
                similar: texts(similar@),
                confidence: confidence@,
            }),
    {
        if similar.len() == 0 {
            None
        } else {
            proof {
                use_type_invariant(&confidence);
            }
            Some(
                TyposquattingRisk {
                    is_potential_typosquatting: true,
                    similar_packages: similar,
                    confidence_score: confidence,
                },
            )
        }
    }

    pub fn is_potential_typosquatting(&self) -> (r: bool)
        ensures
            r == self@.flagged,
            r == (self@.similar.len() > 0),
    {
        proof {
            use_type_invariant(self);
        }
        self.is_potential_typosquatting
    }

    pub fn similar_packages(&self) -> (r: &[String])
        ensures
            texts(r@) == self@.similar,
    {
        self.similar_packages.as_slice()
    }

    pub fn confidence_score(&self) -> (r: Score)
        ensures
            r@ == self@.confidence,
    {
        self.confidence_score
    }
}


/// A script that the package manager runs for the package.
#[derive(Debug)]
pub struct Script {
    /// The name under which the manifest declares the script.
    pub name: String,
    /// The text of the script.
    pub body: String,
}

/// What a [`Script`] says, as plain text.
pub struct ScriptModel {
    pub name: Seq<char>,
    pub body: Seq<char>,
}

impl View for Script {
    type V = ScriptModel;

    open spec fn view(&self) -> ScriptModel {
        ScriptModel { name: self.name@, body: self.body@ }
    }
}

/// The scripts as plain text.
pub open spec fn script_models(items: Seq<Script>) -> Seq<ScriptModel> {
    Seq::new(items.len(), |i: int| items[i]@)
}

/// An npm package: its metadata, the scripts of its manifest and its dependencies.
#[derive(Debug)]
pub struct NpmPackage {
    pub metadata: PackageMetadata,
    pub scripts: Vec<Script>,
    pub dependencies: Vec<DependencyRef>,
}

/// A Python distribution: its metadata, the source of its setup script where it
/// has one, and its requirements.
#[derive(Debug)]
pub struct PythonPackage {
    pub metadata: PackageMetadata,
    pub setup_script: Option<String>,
    pub dependencies: Vec<DependencyRef>,
}

/// A package of one of the supported ecosystems.
#[derive(Debug)]
pub enum PackageInfo {
    Npm(NpmPackage),
    Python(PythonPackage),
}

/// What a [`PackageInfo`] says, as plain values.
pub enum PackageModel {
    Npm { metadata: MetadataModel, scripts: Seq<ScriptModel>, dependencies: Seq<DependencyModel> },
    Python {
        metadata: MetadataModel,
        setup_script: Option<Seq<char>>,
        dependencies: Seq<DependencyModel>,
    },
}

impl PackageModel {
    /// The metadata of the package.
    pub open spec fn metadata(self) -> MetadataModel {
        match self {
            PackageModel::Npm { metadata, .. } => metadata,
            PackageModel::Python { metadata, .. } => metadata,
        }
    }

    /// The dependencies that the package declares.
    pub open spec fn dependencies(self) -> Seq<DependencyModel> {
        match self {
            PackageModel::Npm { dependencies, .. } => dependencies,
            PackageModel::Python { dependencies, .. } => dependencies,
        }
    }

    /// The tag of the package's ecosystem.
    pub open spec fn package_type(self) -> Seq<char> {
        match self {
            PackageModel::Npm { .. } => "npm"@,
            PackageModel::Python { .. } => "python"@,
        }
    }
}

impl View for PackageInfo {
    type V = PackageModel;

    open spec fn view(&self) -> PackageModel {
        match self {
            PackageInfo::Npm(p) => PackageModel::Npm {
                metadata: p.metadata@,
                scripts: script_models(p.scripts@),
                dependencies: dependency_models(p.dependencies@),
            },
            PackageInfo::Python(p) => PackageModel::Python {
                metadata: p.metadata@,
                setup_script: opt_text(p.setup_script),
                dependencies: dependency_models(p.dependencies@),
            },
        }
    }
}

impl PackageInfo {
    /// The metadata of the package.
    pub fn metadata(&self) -> (r: &PackageMetadata)
        ensures
            r@ == self@.metadata(),
    {
        match self {
            PackageInfo::Npm(p) => &p.metadata,
            PackageInfo::Python(p) => &p.metadata,
        }
    }

    /// The tag of the package's ecosystem: `"npm"` or `"python"`.
    pub fn package_type(&self) -> (r: &'static str)
        ensures
            r@ == self@.package_type(),
    {
        match self {
            PackageInfo::Npm(_) => "npm",
            PackageInfo::Python(_) => "python",
        }
    }

    /// The name of the package.
    pub fn name(&self) -> (r: &str)
        ensures
            r@ == self@.metadata().name,
    {
        self.metadata().name.as_str()
    }

    /// The dependencies that the package declares.
    pub fn dependencies(&self) -> (r: &Vec<DependencyRef>)
        ensures
            dependency_models(r@) == self@.dependencies(),
    {
        match self {
            PackageInfo::Npm(p) => &p.dependencies,
            PackageInfo::Python(p) => &p.dependencies,
        }
    }
}

/// A loosely typed value of a manifest.
#[derive(Debug)]
pub enum AttributeValue {
    Text(String),
    List(Vec<String>),
    /// Keys and their values, in the order of the manifest.
    Table(Vec<(String, String)>),
}

/// What an [`AttributeValue`] says, as plain values.
pub enum AttributeValueModel {
    Text(Seq<char>),
    List(Seq<Seq<char>>),
    Table(Seq<(Seq<char>, Seq<char>)>),
}

impl View for AttributeValue {
    type V = AttributeValueModel;

    open spec fn view(&self) -> AttributeValueModel {
        match self {
            AttributeValue::Text(text) => AttributeValueModel::Text(text@),
            AttributeValue::List(items) => AttributeValueModel::List(texts(items@)),
            AttributeValue::Table(entries) => AttributeValueModel::Table(
                Seq::new(entries@.len(), |i: int| (entries@[i].0@, entries@[i].1@)),
            ),
        }
    }
}

/// An attribute that only packages of one ecosystem have.
#[derive(Debug)]
pub struct Attribute {
    pub name: String,
    pub value: AttributeValue,
}

/// What an [`Attribute`] says, as plain values.
pub struct AttributeModel {
    pub name: Seq<char>,
    pub value: AttributeValueModel,
}

impl View for Attribute {
    type V = AttributeModel;

    open spec fn view(&self) -> AttributeModel {
        AttributeModel { name: self.name@, value: self.value@ }
    }
}

/// The attributes as plain values.
pub open spec fn attribute_models(items: Seq<Attribute>) -> Seq<AttributeModel> {
    Seq::new(items.len(), |i: int| items[i]@)
}

/// The names of `dependencies`, in order.
pub open spec fn dependency_names(dependencies: Seq<DependencyModel>) -> Seq<Seq<char>> {
    Seq::new(dependencies.len(), |i: int| dependencies[i].name)
}

/// The attributes that are particular to the ecosystem of `package`.
///
/// An npm package has its `scripts`, a table from script name to script text,
/// and the names of its `dependencies`. A Python distribution has its
/// `setup_script`, where it has one, and the names in `install_requires`.
pub open spec fn custom_attributes_of(package: PackageModel) -> Seq<AttributeModel> {
    match package {
        PackageModel::Npm { scripts, dependencies, .. } => seq![
            AttributeModel {
                name: "scripts"@,
                value: AttributeValueModel::Table(
                    Seq::new(scripts.len(), |i: int| (scripts[i].name, scripts[i].body)),
                ),
            },
            AttributeModel {
                name: "dependencies"@,
                value: AttributeValueModel::List(dependency_names(dependencies)),
            },
        ],
        PackageModel::Python { setup_script, dependencies, .. } => {
            let requirements = AttributeModel {
                name: "install_requires"@,
                value: AttributeValueModel::List(dependency_names(dependencies)),
            };
            match setup_script {
                Some(text) => seq![
                    AttributeModel { name: "setup_script"@, value: AttributeValueModel::Text(text) },
                    requirements,
                ],
                None => seq![requirements],
            }
        },
    }
}

/// The names of `dependencies`, in order.
fn names_of(dependencies: &Vec<DependencyRef>) -> (r: Vec<String>)
    ensures
        texts(r@) == dependency_names(dependency_models(dependencies@)),
{
    let mut out: Vec<String> = Vec::new();
    let mut i: usize = 0;
    while i < dependencies.len()
        invariant
            i <= dependencies.len(),
            out.len() == i,
            forall|k: int| 0 <= k < i ==> out[k]@ == dependencies[k].name@,
        decreases dependencies.len() - i,
    {
        out.push(dependencies[i].name.clone());
        i += 1;
    }
    assert(texts(out@) =~= dependency_names(dependency_models(dependencies@)));
    out
}

impl PackageInfo {
    /// The attributes that are particular to the ecosystem of the package.
    pub fn custom_attributes(&self) -> (r: Vec<Attribute>)
        ensures
            attribute_models(r@) == custom_attributes_of(self@),
    {
        let mut out: Vec<Attribute> = Vec::new();
        match self {
            PackageInfo::Npm(p) => {
                let mut table: Vec<(String, String)> = Vec::new();
                let mut i: usize = 0;
                while i < p.scripts.len()
                    invariant
                        i <= p.scripts.len(),
                        table.len() == i,
                        forall|k: int|
                            0 <= k < i ==> table[k].0@ == p.scripts[k].name@ && table[k].1@
                                == p.scripts[k].body@,
                    decreases p.scripts.len() - i,
                {
                    table.push((p.scripts[i].name.clone(), p.scripts[i].body.clone()));
                    i += 1;
                }
                out.push(Attribute { name: "scripts".to_owned(), value: AttributeValue::Table(table) });
                out.push(
                    Attribute {
                        name: "dependencies".to_owned(),
                        value: AttributeValue::List(names_of(&p.dependencies)),
                    },
                );
                assert(out[0]@.value =~= custom_attributes_of(self@)[0].value) by {
                    assert(out[0]@.value->Table_0 =~= custom_attributes_of(
                        self@,
                    )[0].value->Table_0);
                }
                assert(attribute_models(out@) =~= custom_attributes_of(self@));
            },
            PackageInfo::Python(p) => {
                match &p.setup_script {
                    Some(text) => {
                        out.push(
                            Attribute {
                                name: "setup_script".to_owned(),
                                value: AttributeValue::Text(text.clone()),
                            },
                        );
                    },
                    None => {},
                }
                out.push(
                    Attribute {
                        name: "install_requires".to_owned(),
                        value: AttributeValue::List(names_of(&p.dependencies)),
                    },
                );
                assert(attribute_models(out@) =~= custom_attributes_of(self@));
            },
        }
        out
    }
}

} // verus!
