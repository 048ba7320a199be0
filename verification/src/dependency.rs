//! Declared dependencies and the walk of the dependency graph.

use crate::text::{contains_text, texts};
use crate::version::VersionRange;
use vstd::prelude::*;

verus! {

/// What a dependency is needed for.
#[derive(Clone, Copy, Debug, PartialEq, Eq, Structural, Hash)]
pub enum DependencyKind {
    Runtime,
    Dev,
    Optional,
}

/// What a [`DependencyRef`] says, as plain values.
pub struct DependencyModel {
    pub name: Seq<char>,
    pub constraint: VersionRange,
    pub kind: DependencyKind,
}

/// A declared dependency: a package name and the versions of it that are accepted.
#[derive(Debug)]
pub struct DependencyRef {
    pub name: String,
    pub constraint: VersionRange,
    pub kind: DependencyKind,
}

impl View for DependencyRef {
    type V = DependencyModel;

    open spec fn view(&self) -> DependencyModel {
        DependencyModel { name: self.name@, constraint: self.constraint, kind: self.kind }
    }
}

impl Clone for DependencyRef {
    fn clone(&self) -> (r: DependencyRef)
        ensures
            r == *self,
    {
        DependencyRef { name: self.name.clone(), constraint: self.constraint, kind: self.kind }
    }
}

impl DependencyRef {
    pub fn new(name: String, constraint: VersionRange, kind: DependencyKind) -> (r: DependencyRef)
        ensures
            r == (DependencyRef { name, constraint, kind }),
    {
        DependencyRef { name, constraint, kind }
    }
}

/// The dependencies as plain values.
pub open spec fn dependency_models(items: Seq<DependencyRef>) -> Seq<DependencyModel> {
    Seq::new(items.len(), |i: int| items[i]@)
}

/// A copy of a list of dependencies.
pub fn copy_dependencies(items: &Vec<DependencyRef>) -> (out: Vec<DependencyRef>)
    ensures
        out@ == items@,
{
    let mut out: Vec<DependencyRef> = Vec::new();
    let mut i: usize = 0;
    while i < items.len()
        invariant
            i <= items.len(),
            out@ == items@.take(i as int),
        decreases items.len() - i,
    {
        out.push(items[i].clone());
        i += 1;
    }
    assert(items@.take(items@.len() as int) == items@);
    out
}

/// What the dependency metadata of one package says.
#[derive(Debug)]
pub enum Resolution {
    /// The dependencies that the package declares.
    Resolved(Vec<DependencyRef>),
    /// The lookup failed.
    Failed,
}

/// One entry of a snapshot of dependency metadata.
#[derive(Debug)]
pub struct CatalogEntry {
    pub name: String,
    pub resolution: Resolution,
}

/// What a [`CatalogEntry`] says, as plain values; a failed lookup is `None`.
pub struct CatalogEntryModel {
    pub name: Seq<char>,
    pub resolution: Option<Seq<DependencyModel>>,
}

impl View for CatalogEntry {
    type V = CatalogEntryModel;

    open spec fn view(&self) -> CatalogEntryModel {
        CatalogEntryModel {
            name: self.name@,
            resolution: match self.resolution {
                Resolution::Resolved(items) => Some(dependency_models(items@)),
                Resolution::Failed => None,
            },
        }
    }
}

/// A snapshot of the dependency metadata of the packages that a walk may meet.
#[derive(Debug)]
pub struct DependencyCatalog {
    pub entries: Vec<CatalogEntry>,
}

impl View for DependencyCatalog {
    type V = Seq<CatalogEntryModel>;

    open spec fn view(&self) -> Seq<CatalogEntryModel> {
        Seq::new(self.entries@.len(), |i: int| self.entries@[i]@)
    }
}

/// Where the catalog first mentions `name`, or the length of the catalog.
pub open spec fn entry_index(catalog: Seq<CatalogEntryModel>, name: Seq<char>) -> int
    decreases catalog.len(),
{
    if catalog.len() == 0 || catalog[0].name == name {
        0
    } else {
        1 + entry_index(catalog.drop_first(), name)
    }
}

/// The dependencies of the package `name` according to the catalog: those of
/// the first entry that mentions it, `None` where that lookup failed, and none
/// at all where the catalog does not mention the package.
pub open spec fn resolution_of(catalog: Seq<CatalogEntryModel>, name: Seq<char>) -> Option<
    Seq<DependencyModel>,
> {
    let i = entry_index(catalog, name);
    if 0 <= i < catalog.len() {
        catalog[i].resolution
    } else {
        Some(Seq::empty())
    }
}

/// Whether `a` and `b` ask for the same versions of the same package.
pub open spec fn same_requirement(a: DependencyModel, b: DependencyModel) -> bool {
    a.name == b.name && a.constraint == b.constraint
}

/// Whether `list` holds a dependency that asks for what `d` asks for.
pub open spec fn holds_requirement(list: Seq<DependencyModel>, d: DependencyModel) -> bool {
    exists|i: int| 0 <= i < list.len() && same_requirement(#[trigger] list[i], d)
}

/// The state of a walk within one level of the graph.
pub struct WalkModel {
    /// The dependencies that were resolved, in the order they were met.
    pub accepted: Seq<DependencyModel>,
    /// The names of the dependencies whose lookup failed.
    pub unresolved: Seq<Seq<char>>,
    /// The dependencies to visit on the next level.
    pub next: Seq<DependencyModel>,
}

/// `next`, extended by those of the first `n` of `children` that are neither
/// accepted nor queued yet.
pub open spec fn queue_children(
    next: Seq<DependencyModel>,
    accepted: Seq<DependencyModel>,
    children: Seq<DependencyModel>,
    n: nat,
) -> Seq<DependencyModel>
    decreases n,
{
    if n == 0 {
        next
    } else {
        let before = queue_children(next, accepted, children, (n - 1) as nat);
        let child = children[n - 1];
        if holds_requirement(accepted, child) || holds_requirement(before, child) {
            before
        } else {
            before.push(child)
        }
    }
}

/// The walk after the visit of `d`.
///
/// A dependency that was accepted before, or whose name failed before, is
/// passed over. Otherwise it is looked up: where the lookup fails its name is
/// recorded and it is left out; where it succeeds it is accepted and its own
/// dependencies are queued for the next level.
pub open spec fn visit(catalog: Seq<CatalogEntryModel>, w: WalkModel, d: DependencyModel) -> WalkModel {
    if holds_requirement(w.accepted, d) || w.unresolved.contains(d.name) {
        w
    } else {
        match resolution_of(catalog, d.name) {
            None => WalkModel { unresolved: w.unresolved.push(d.name), ..w },
            Some(children) => {
                let accepted = w.accepted.push(d);
                WalkModel {
                    accepted: accepted,
                    unresolved: w.unresolved,
                    next: queue_children(w.next, accepted, children, children.len()),
                }
            },
        }
    }
}

/// The walk after the visit of the first `n` of `frontier`.
pub open spec fn visit_all(
    catalog: Seq<CatalogEntryModel>,
    w: WalkModel,
    frontier: Seq<DependencyModel>,
    n: nat,
) -> WalkModel
    decreases n,
{
    if n == 0 {
        w
    } else {
        visit(catalog, visit_all(catalog, w, frontier, (n - 1) as nat), frontier[n - 1])
    }
}

/// What a [`DependencyAnalysis`] says, as plain values.
pub struct DependencyAnalysisModel {
    /// The dependencies that were resolved: the declared ones first, then
    /// theirs, level by level.
    pub dependencies: Seq<DependencyModel>,
    /// How many levels of the graph were walked.
    pub depth: nat,
    /// How many distinct names the dependencies have.
    pub breadth: nat,
    /// The names of the dependencies whose lookup failed.
    pub unresolved: Seq<Seq<char>>,
}

/// The names of `items`, each once, in the order of their first occurrence.
pub open spec fn distinct_names(items: Seq<DependencyModel>) -> Seq<Seq<char>>
    decreases items.len(),
{
    if items.len() == 0 {
        Seq::empty()
    } else {
        let before = distinct_names(items.drop_last());
        if before.contains(items.last().name) {
            before
        } else {
            before.push(items.last().name)
        }
    }
}

/// The result of a walk that has accepted `accepted`, has `frontier` to visit
/// next, has walked `walked` levels and may walk `levels_left` more.
pub open spec fn walk(
    catalog: Seq<CatalogEntryModel>,
    accepted: Seq<DependencyModel>,
    unresolved: Seq<Seq<char>>,
    frontier: Seq<DependencyModel>,
    levels_left: nat,
    walked: nat,
) -> DependencyAnalysisModel
    decreases levels_left,
{
    if levels_left == 0 || frontier.len() == 0 {
        DependencyAnalysisModel {
            dependencies: accepted,
            depth: walked,
            breadth: distinct_names(accepted).len(),
            unresolved: unresolved,
        }
    } else {
        let w = visit_all(
            catalog,
            WalkModel { accepted: accepted, unresolved: unresolved, next: Seq::empty() },
            frontier,
            frontier.len(),
        );
        walk(catalog, w.accepted, w.unresolved, w.next, (levels_left - 1) as nat, walked + 1)
    }
}

/// The analysis of the dependencies `declared`, walked breadth-first through
/// `catalog` for at most `max_depth` levels. The declared dependencies are the
/// first level; a depth of 0 walks nothing.
pub open spec fn dependency_analysis_of(
    catalog: Seq<CatalogEntryModel>,
    declared: Seq<DependencyModel>,
    max_depth: nat,
) -> DependencyAnalysisModel {
    walk(catalog, Seq::empty(), Seq::empty(), declared, max_depth, 0)
}

/// The analysis of a package whose dependencies were not looked at.
pub open spec fn no_dependency_analysis() -> DependencyAnalysisModel {
    DependencyAnalysisModel {
        dependencies: Seq::empty(),
        depth: 0,
        breadth: 0,
        unresolved: Seq::empty(),
    }
}

/// What the walk of the dependency graph found.
#[derive(Debug)]
pub struct DependencyAnalysis {
    /// The dependencies that were resolved: the declared ones first, then
    /// theirs, level by level.
    pub dependencies: Vec<DependencyRef>,
    /// How many levels of the graph were walked.
    pub depth: usize,
    /// How many distinct names the dependencies have.
    pub breadth: usize,
    /// The names of the dependencies whose lookup failed; they are left out of
    /// `dependencies`.
    pub unresolved: Vec<String>,
}

impl View for DependencyAnalysis {
    type V = DependencyAnalysisModel;

    open spec fn view(&self) -> DependencyAnalysisModel {
        DependencyAnalysisModel {
            dependencies: dependency_models(self.dependencies@),
            depth: self.depth as nat,
            breadth: self.breadth as nat,
            unresolved: texts(self.unresolved@),
        }
    }
}

impl DependencyAnalysis {
    /// The analysis of a package whose dependencies were not looked at.
    pub fn none() -> (r: DependencyAnalysis)
        ensures
            r@ == no_dependency_analysis(),
    {
        let r = DependencyAnalysis {
            dependencies: Vec::new(),
            depth: 0,
            breadth: 0,
            unresolved: Vec::new(),
        };
        assert(dependency_models(r.dependencies@) =~= Seq::empty());
        assert(texts(r.unresolved@) =~= Seq::empty());
        r
    }
}

/// The first position at which the catalog mentions `name` is its `entry_index`.
proof fn lemma_entry_index(catalog: Seq<CatalogEntryModel>, name: Seq<char>, i: int)
    requires
        0 <= i <= catalog.len(),
        forall|k: int| 0 <= k < i ==> (#[trigger] catalog[k]).name != name,
        i < catalog.len() ==> catalog[i].name == name,
    ensures
        entry_index(catalog, name) == i,
    decreases i,
{
    if i > 0 {
        let rest = catalog.drop_first();
        assert forall|k: int| 0 <= k < i - 1 implies (#[trigger] rest[k]).name != name by {
            assert(rest[k] == catalog[k + 1]);
        }
        if i - 1 < rest.len() {
            assert(rest[i - 1] == catalog[i]);
        }
        lemma_entry_index(rest, name, i - 1);
        assert(catalog[0].name != name);
    }
}

impl DependencyCatalog {
    /// A catalog that knows no package: every dependency is a leaf.
    pub fn empty() -> (r: DependencyCatalog)
        ensures
            r@ == Seq::<CatalogEntryModel>::empty(),
            forall|name: Seq<char>|
                resolution_of(r@, name) == Some(Seq::<DependencyModel>::empty()),
    {
        let r = DependencyCatalog { entries: Vec::new() };
        assert(r@ =~= Seq::<CatalogEntryModel>::empty());
        r
    }

    /// The first entry that mentions `name`, if there is one.
    pub fn lookup(&self, name: &String) -> (r: Option<&CatalogEntry>)
        ensures
            match r {
                Some(entry) => entry@.name == name@ && resolution_of(self@, name@)
                    == entry@.resolution,
                None => resolution_of(self@, name@) == Some(Seq::<DependencyModel>::empty()),
            },
    {
        let mut i: usize = 0;
        while i < self.entries.len()
            invariant
                i <= self.entries.len(),
                forall|k: int| 0 <= k < i ==> self.entries[k].name@ != name@,
            decreases self.entries.len() - i,
        {
            if self.entries[i].name == *name {
                proof {
                    lemma_entry_index(self@, name@, i as int);
                }
                return Some(&self.entries[i]);
            }
            i += 1;
        }
        proof {
            lemma_entry_index(self@, name@, self.entries.len() as int);
        }
        None
    }
}

/// Whether `list` holds a dependency that asks for what `d` asks for.
fn has_requirement(list: &Vec<DependencyRef>, d: &DependencyRef) -> (r: bool)
    ensures
        r == holds_requirement(dependency_models(list@), d@),
{
    let mut i: usize = 0;
    while i < list.len()
        invariant
            i <= list.len(),
            forall|k: int| 0 <= k < i ==> !same_requirement(list[k]@, d@),
        decreases list.len() - i,
    {
        if list[i].name == d.name && list[i].constraint == d.constraint {
            assert(same_requirement(dependency_models(list@)[i as int], d@));
            return true;
        }
        i += 1;
    }
    false
}

/// Counts the distinct names of `items`.
pub fn count_distinct_names(items: &Vec<DependencyRef>) -> (r: usize)
    ensures
        r == distinct_names(dependency_models(items@)).len(),
{
    let ghost all = dependency_models(items@);
    let mut names: Vec<String> = Vec::new();
    let mut i: usize = 0;
    assert(all.take(0) =~= Seq::empty());
    assert(texts(names@) =~= Seq::empty());
    while i < items.len()
        invariant
            i <= items.len(),
            all == dependency_models(items@),
            texts(names@) == distinct_names(all.take(i as int)),
            names.len() <= i,
        decreases items.len() - i,
    {
        assert(all.take(i + 1).drop_last() =~= all.take(i as int));
        assert(all.take(i + 1).last() == items[i as int]@);
        if !contains_text(&names, &items[i].name) {
            let ghost before = texts(names@);
            names.push(items[i].name.clone());
            assert(texts(names@) =~= before.push(items[i as int].name@));
        }
        i += 1;
    }
    assert(all.take(items.len() as int) =~= all);
    assert(texts(names@).len() == names.len());
    names.len()
}

/// Walks the dependency graph from `declared`, breadth-first, for at most
/// `max_depth` levels.
///
/// Each dependency is looked up once in `catalog`. One whose lookup fails is
/// recorded as unresolved and left out; the others are accepted, and their own
/// dependencies form the next level. A dependency that asks for what an
/// accepted one asks for is not visited again, so cycles end.
pub fn analyze_dependencies(
    declared: &Vec<DependencyRef>,
    catalog: &DependencyCatalog,
    max_depth: usize,
) -> (r: DependencyAnalysis)
    ensures
        r@ == dependency_analysis_of(catalog@, dependency_models(declared@), max_depth as nat),
{
    let ghost goal = dependency_analysis_of(
        catalog@,
        dependency_models(declared@),
        max_depth as nat,
    );
    let mut accepted: Vec<DependencyRef> = Vec::new();
    let mut unresolved: Vec<String> = Vec::new();
    let mut frontier: Vec<DependencyRef> = copy_dependencies(declared);
    let mut depth: usize = 0;
    assert(dependency_models(accepted@) =~= Seq::empty());
    assert(texts(unresolved@) =~= Seq::empty());
    while depth < max_depth && frontier.len() > 0
        invariant
            depth <= max_depth,
            goal == walk(
                catalog@,
                dependency_models(accepted@),
                texts(unresolved@),
                dependency_models(frontier@),
                (max_depth - depth) as nat,
                depth as nat,
            ),
        decreases max_depth - depth,
    {
        let ghost start = WalkModel {
            accepted: dependency_models(accepted@),
            unresolved: texts(unresolved@),
            next: Seq::empty(),
        };
        let ghost level = dependency_models(frontier@);
        let mut next: Vec<DependencyRef> = Vec::new();
        let mut i: usize = 0;
        assert(dependency_models(next@) =~= Seq::empty());
        while i < frontier.len()
            invariant
                i <= frontier.len(),
                level == dependency_models(frontier@),
                (WalkModel {
                    accepted: dependency_models(accepted@),
                    unresolved: texts(unresolved@),
                    next: dependency_models(next@),
                }) == visit_all(catalog@, start, level, i as nat),
            decreases frontier.len() - i,
        {
            let d = &frontier[i];
            assert(level[i as int] == d@);
            if !(has_requirement(&accepted, d) || contains_text(&unresolved, &d.name)) {
                match catalog.lookup(&d.name) {
                    None => {
                        let ghost before = dependency_models(accepted@);
                        accepted.push(d.clone());
                        assert(dependency_models(accepted@) =~= before.push(d@));
                    },
                    Some(entry) => {
                        match &entry.resolution {
                            Resolution::Failed => {
                                let ghost before = texts(unresolved@);
                                unresolved.push(d.name.clone());
                                assert(texts(unresolved@) =~= before.push(d@.name));
                            },
                            Resolution::Resolved(children) => {
                                let ghost before = dependency_models(accepted@);
                                accepted.push(d.clone());
                                assert(dependency_models(accepted@) =~= before.push(d@));
                                let ghost queued = dependency_models(next@);
                                let ghost all = dependency_models(children@);
                                let mut c: usize = 0;
                                while c < children.len()
                                    invariant
                                        c <= children.len(),
                                        all == dependency_models(children@),
                                        dependency_models(next@) == queue_children(
                                            queued,
                                            dependency_models(accepted@),
                                            all,
                                            c as nat,
                                        ),
                                    decreases children.len() - c,
                                {
                                    let child = &children[c];
                                    assert(all[c as int] == child@);
                                    if !(has_requirement(&accepted, child) || has_requirement(
                                        &next,
                                        child,
                                    )) {
                                        let ghost earlier = dependency_models(next@);
                                        next.push(child.clone());
                                        assert(dependency_models(next@) =~= earlier.push(child@));
                                    }
                                    c += 1;
                                }
                            },
                        }
                    },
                }
            }
            i += 1;
        }
        frontier = next;
        depth += 1;
    }
    let breadth = count_distinct_names(&accepted);
    DependencyAnalysis { dependencies: accepted, depth, breadth, unresolved }
}

/// Whether one of `items` is named `name`.
pub open spec fn names_one(items: Seq<DependencyModel>, name: Seq<char>) -> bool {
    exists|i: int| 0 <= i < items.len() && (#[trigger] items[i]).name == name
}

/// `distinct_names` lists the names of the dependencies, each exactly once:
/// its length is the number of different names.
pub proof fn lemma_distinct_names_counts_names(items: Seq<DependencyModel>)
    ensures
        distinct_names(items).no_duplicates(),
        forall|name: Seq<char>| #[trigger]
            distinct_names(items).contains(name) <==> names_one(items, name),
        distinct_names(items).len() <= items.len(),
        items.len() > 0 ==> distinct_names(items).len() > 0,
    decreases items.len(),
{
    if items.len() > 0 {
        let shorter = items.drop_last();
        let before = distinct_names(shorter);
        let out = distinct_names(items);
        let last = items.last().name;
        lemma_distinct_names_counts_names(shorter);
        assert forall|name: Seq<char>| #[trigger] out.contains(name) <==> names_one(items, name) by {
            if out.contains(name) {
                let i = choose|i: int| 0 <= i < out.len() && out[i] == name;
                if i < before.len() {
                    assert(before[i] == name);
                    assert(before.contains(name));
                    let k = choose|k: int| 0 <= k < shorter.len() && (#[trigger] shorter[k]).name == name;
                    assert(items[k].name == name);
                } else {
                    assert(items[items.len() - 1].name == name);
                }
            }
            if names_one(items, name) {
                let k = choose|k: int| 0 <= k < items.len() && (#[trigger] items[k]).name == name;
                if k < shorter.len() {
                    assert(shorter[k].name == name);
                    assert(before.contains(name));
                    let i = choose|i: int| 0 <= i < before.len() && before[i] == name;
                    assert(out[i] == name);
                } else if before.contains(last) {
                    let i = choose|i: int| 0 <= i < before.len() && before[i] == last;
                    assert(out[i] == name);
                } else {
                    assert(out[before.len() as int] == name);
                }
            }
        }
    } else {
        assert forall|name: Seq<char>| #[trigger]
            distinct_names(items).contains(name) <==> names_one(items, name) by {}
    }
}

/// Whether a walk is in order: no requirement was accepted twice, every
/// accepted dependency was resolved, and every unresolved name failed.
pub open spec fn orderly(
    catalog: Seq<CatalogEntryModel>,
    accepted: Seq<DependencyModel>,
    unresolved: Seq<Seq<char>>,
) -> bool {
    &&& forall|i: int, j: int|
        0 <= i < j < accepted.len() ==> !same_requirement(#[trigger] accepted[i], #[trigger] accepted[j])
    &&& forall|i: int|
        0 <= i < accepted.len() ==> resolution_of(catalog, (#[trigger] accepted[i]).name) is Some
    &&& forall|i: int|
        0 <= i < unresolved.len() ==> resolution_of(catalog, #[trigger] unresolved[i]) is None
    &&& unresolved.no_duplicates()
}

proof fn lemma_visit_keeps_order(catalog: Seq<CatalogEntryModel>, w: WalkModel, d: DependencyModel)
    requires
        orderly(catalog, w.accepted, w.unresolved),
    ensures
        orderly(catalog, visit(catalog, w, d).accepted, visit(catalog, w, d).unresolved),
        w.accepted.len() <= visit(catalog, w, d).accepted.len(),
{
    let out = visit(catalog, w, d);
    if !(holds_requirement(w.accepted, d) || w.unresolved.contains(d.name)) {
        match resolution_of(catalog, d.name) {
            None => {
                assert forall|i: int| 0 <= i < out.unresolved.len() implies resolution_of(
                    catalog,
                    #[trigger] out.unresolved[i],
                ) is None by {
                    if i < w.unresolved.len() {
                        assert(out.unresolved[i] == w.unresolved[i]);
                    }
                }
                assert forall|i: int, j: int|
                    0 <= i < out.unresolved.len() && 0 <= j < out.unresolved.len() && i
                        != j implies out.unresolved[i] != out.unresolved[j] by {
                    if i < w.unresolved.len() {
                        assert(out.unresolved[i] == w.unresolved[i]);
                    }
                    if j < w.unresolved.len() {
                        assert(out.unresolved[j] == w.unresolved[j]);
                    }
                }
            },
            Some(children) => {
                assert forall|i: int, j: int| 0 <= i < j < out.accepted.len() implies !same_requirement(
                    #[trigger] out.accepted[i],
                    #[trigger] out.accepted[j],
                ) by {
                    assert(out.accepted[i] == w.accepted[i]);
                    if j < w.accepted.len() {
                        assert(out.accepted[j] == w.accepted[j]);
                    }
                }
                assert forall|i: int| 0 <= i < out.accepted.len() implies resolution_of(
                    catalog,
                    (#[trigger] out.accepted[i]).name,
                ) is Some by {
                    if i < w.accepted.len() {
                        assert(out.accepted[i] == w.accepted[i]);
                    }
                }
            },
        }
    }
}

proof fn lemma_visit_all_keeps_order(
    catalog: Seq<CatalogEntryModel>,
    w: WalkModel,
    frontier: Seq<DependencyModel>,
    n: nat,
)
    requires
        orderly(catalog, w.accepted, w.unresolved),
    ensures
        orderly(
            catalog,
            visit_all(catalog, w, frontier, n).accepted,
            visit_all(catalog, w, frontier, n).unresolved,
        ),
        w.accepted.len() <= visit_all(catalog, w, frontier, n).accepted.len(),
    decreases n,
{
    if n > 0 {
        lemma_visit_all_keeps_order(catalog, w, frontier, (n - 1) as nat);
        lemma_visit_keeps_order(
            catalog,
            visit_all(catalog, w, frontier, (n - 1) as nat),
            frontier[n - 1],
        );
    }
}

proof fn lemma_walk_keeps_order(
    catalog: Seq<CatalogEntryModel>,
    accepted: Seq<DependencyModel>,
    unresolved: Seq<Seq<char>>,
    frontier: Seq<DependencyModel>,
    levels_left: nat,
    walked: nat,
)
    requires
        orderly(catalog, accepted, unresolved),
    ensures
        orderly(
            catalog,
            walk(catalog, accepted, unresolved, frontier, levels_left, walked).dependencies,
            walk(catalog, accepted, unresolved, frontier, levels_left, walked).unresolved,
        ),
        walked <= walk(catalog, accepted, unresolved, frontier, levels_left, walked).depth <= walked
            + levels_left,
        walk(catalog, accepted, unresolved, frontier, levels_left, walked).breadth
            == distinct_names(
            walk(catalog, accepted, unresolved, frontier, levels_left, walked).dependencies,
        ).len(),
        accepted.len() <= walk(
            catalog,
            accepted,
            unresolved,
            frontier,
            levels_left,
            walked,
        ).dependencies.len(),
    decreases levels_left,
{
    if !(levels_left == 0 || frontier.len() == 0) {
        let start = WalkModel { accepted: accepted, unresolved: unresolved, next: Seq::empty() };
        lemma_visit_all_keeps_order(catalog, start, frontier, frontier.len());
        let w = visit_all(catalog, start, frontier, frontier.len());
        lemma_walk_keeps_order(
            catalog,
            w.accepted,
            w.unresolved,
            w.next,
            (levels_left - 1) as nat,
            walked + 1,
        );
    }
}

/// A walk never goes deeper than allowed, accepts no requirement twice,
/// accepts only what could be resolved, and counts each name once. With a
/// depth of 0, or nothing declared, it finds nothing.
pub proof fn lemma_walk_is_orderly(
    catalog: Seq<CatalogEntryModel>,
    declared: Seq<DependencyModel>,
    max_depth: nat,
)
    ensures
        dependency_analysis_of(catalog, declared, max_depth).depth <= max_depth,
        orderly(
            catalog,
            dependency_analysis_of(catalog, declared, max_depth).dependencies,
            dependency_analysis_of(catalog, declared, max_depth).unresolved,
        ),
        dependency_analysis_of(catalog, declared, max_depth).breadth
            <= dependency_analysis_of(catalog, declared, max_depth).dependencies.len(),
        forall|name: Seq<char>| #[trigger]
            distinct_names(
                dependency_analysis_of(catalog, declared, max_depth).dependencies,
            ).contains(name) <==> names_one(
                dependency_analysis_of(catalog, declared, max_depth).dependencies,
                name,
            ),
        max_depth == 0 || declared.len() == 0 ==> dependency_analysis_of(
            catalog,
            declared,
            max_depth,
        ) == no_dependency_analysis(),
{
    let none = Seq::<DependencyModel>::empty();
    lemma_walk_keeps_order(catalog, none, Seq::empty(), declared, max_depth, 0);
    lemma_distinct_names_counts_names(
        dependency_analysis_of(catalog, declared, max_depth).dependencies,
    );
    assert(distinct_names(none) =~= Seq::<Seq<char>>::empty());
}

proof fn lemma_visit_keeps_requirements(
    catalog: Seq<CatalogEntryModel>,
    w: WalkModel,
    d: DependencyModel,
    e: DependencyModel,
)
    requires
        holds_requirement(w.accepted, e),
    ensures
        holds_requirement(visit(catalog, w, d).accepted, e),
{
    let out = visit(catalog, w, d);
    let i = choose|i: int| 0 <= i < w.accepted.len() && same_requirement(#[trigger] w.accepted[i], e);
    if out.accepted != w.accepted {
        assert(out.accepted == w.accepted.push(d));
    }
    assert(same_requirement(out.accepted[i], e));
}

proof fn lemma_visit_accepts(catalog: Seq<CatalogEntryModel>, w: WalkModel, d: DependencyModel)
    requires
        orderly(catalog, w.accepted, w.unresolved),
        resolution_of(catalog, d.name) is Some,
    ensures
        holds_requirement(visit(catalog, w, d).accepted, d),
{
    let out = visit(catalog, w, d);
    if holds_requirement(w.accepted, d) {
    } else if w.unresolved.contains(d.name) {
        let i = choose|i: int| 0 <= i < w.unresolved.len() && w.unresolved[i] == d.name;
        assert(resolution_of(catalog, w.unresolved[i]) is None);
    } else {
        assert(same_requirement(out.accepted[w.accepted.len() as int], d));
    }
}

proof fn lemma_visit_all_keeps_requirements(
    catalog: Seq<CatalogEntryModel>,
    w: WalkModel,
    frontier: Seq<DependencyModel>,
    n: nat,
    e: DependencyModel,
)
    requires
        holds_requirement(w.accepted, e),
    ensures
        holds_requirement(visit_all(catalog, w, frontier, n).accepted, e),
    decreases n,
{
    if n > 0 {
        lemma_visit_all_keeps_requirements(catalog, w, frontier, (n - 1) as nat, e);
        lemma_visit_keeps_requirements(
            catalog,
            visit_all(catalog, w, frontier, (n - 1) as nat),
            frontier[n - 1],
            e,
        );
    }
}

proof fn lemma_visit_all_accepts(
    catalog: Seq<CatalogEntryModel>,
    w: WalkModel,
    frontier: Seq<DependencyModel>,
    n: nat,
    k: int,
)
    requires
        orderly(catalog, w.accepted, w.unresolved),
        0 <= k < n <= frontier.len(),
        resolution_of(catalog, frontier[k].name) is Some,
    ensures
        holds_requirement(visit_all(catalog, w, frontier, n).accepted, frontier[k]),
    decreases n,
{
    let before = visit_all(catalog, w, frontier, (n - 1) as nat);
    if k == n - 1 {
        lemma_visit_all_keeps_order(catalog, w, frontier, (n - 1) as nat);
        lemma_visit_accepts(catalog, before, frontier[k]);
    } else {
        lemma_visit_all_accepts(catalog, w, frontier, (n - 1) as nat, k);
        lemma_visit_keeps_requirements(catalog, before, frontier[n - 1], frontier[k]);
    }
}

proof fn lemma_walk_keeps_requirements(
    catalog: Seq<CatalogEntryModel>,
    accepted: Seq<DependencyModel>,
    unresolved: Seq<Seq<char>>,
    frontier: Seq<DependencyModel>,
    levels_left: nat,
    walked: nat,
    e: DependencyModel,
)
    requires
        holds_requirement(accepted, e),
    ensures
        holds_requirement(
            walk(catalog, accepted, unresolved, frontier, levels_left, walked).dependencies,
            e,
        ),
    decreases levels_left,
{
    if !(levels_left == 0 || frontier.len() == 0) {
        let start = WalkModel { accepted: accepted, unresolved: unresolved, next: Seq::empty() };
        lemma_visit_all_keeps_requirements(catalog, start, frontier, frontier.len(), e);
        let w = visit_all(catalog, start, frontier, frontier.len());
        lemma_walk_keeps_requirements(
            catalog,
            w.accepted,
            w.unresolved,
            w.next,
            (levels_left - 1) as nat,
            walked + 1,
            e,
        );
    }
}

/// A walk of at least one level accepts every declared dependency that can be
/// resolved: the result holds a dependency of the same name and constraint.
pub proof fn lemma_declared_dependencies_are_accepted(
    catalog: Seq<CatalogEntryModel>,
    declared: Seq<DependencyModel>,
    max_depth: nat,
    k: int,
)
    requires
        max_depth >= 1,
        0 <= k < declared.len(),
        resolution_of(catalog, declared[k].name) is Some,
    ensures
        holds_requirement(dependency_analysis_of(catalog, declared, max_depth).dependencies, declared[k]),
{
    let start = WalkModel {
        accepted: Seq::<DependencyModel>::empty(),
        unresolved: Seq::<Seq<char>>::empty(),
        next: Seq::<DependencyModel>::empty(),
    };
    lemma_visit_all_accepts(catalog, start, declared, declared.len(), k);
    let w = visit_all(catalog, start, declared, declared.len());
    lemma_walk_keeps_requirements(
        catalog,
        w.accepted,
        w.unresolved,
        w.next,
        (max_depth - 1) as nat,
        1,
        declared[k],
    );
}

} // verus!
