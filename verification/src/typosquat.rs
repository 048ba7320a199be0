//! Detection of names that imitate popular package names.

use crate::distance::{distance_between, edit_distance, greater, lemma_distance_zero_iff_equal};
use crate::package::{coherent_verdict, no_resemblance, TyposquattingModel, TyposquattingRisk};
use crate::score::Score;
use crate::text::{chars_of, contains_text, texts};
use vstd::prelude::*;

verus! {

/// Similarity, in hundredths, from which a popular name counts as imitated.
pub const SIMILARITY_THRESHOLD: u32 = 75;

/// Similarity of two names in hundredths: the share of the longer name that
/// needs no edit, rounded down. Two empty names are fully similar.
pub open spec fn similarity(a: Seq<char>, b: Seq<char>) -> nat {
    let longest = greater(a.len(), b.len());
    if longest == 0 {
        100
    } else {
        ((100 * (longest - edit_distance(a, b))) / (longest as int)) as nat
    }
}

/// Whether `entry` is a popular name that `name` imitates: close enough, yet not `name` itself.
pub open spec fn is_lookalike(name: Seq<char>, entry: Seq<char>) -> bool {
    entry != name && similarity(name, entry) >= SIMILARITY_THRESHOLD
}

/// Where `entry` goes in a list ranked by falling similarity to `name`:
/// behind every name that is at least as similar.
pub open spec fn rank_position(name: Seq<char>, ranked: Seq<Seq<char>>, entry: Seq<char>) -> int
    decreases ranked.len(),
{
    if ranked.len() == 0 || similarity(name, ranked[0]) < similarity(name, entry) {
        0
    } else {
        1 + rank_position(name, ranked.drop_first(), entry)
    }
}

/// The look-alikes of `name` among `corpus`, each once, by falling similarity;
/// equally similar names keep the order of the corpus.
pub open spec fn lookalikes(name: Seq<char>, corpus: Seq<Seq<char>>) -> Seq<Seq<char>>
    decreases corpus.len(),
{
    if corpus.len() == 0 {
        Seq::empty()
    } else {
        let earlier = lookalikes(name, corpus.drop_last());
        let entry = corpus.last();
        if is_lookalike(name, entry) && !earlier.contains(entry) {
            earlier.insert(rank_position(name, earlier, entry), entry)
        } else {
            earlier
        }
    }
}

/// Whether `ranked` runs from the most to the least similar to `name`.
pub open spec fn by_falling_similarity(name: Seq<char>, ranked: Seq<Seq<char>>) -> bool {
    forall|i: int, j: int|
        0 <= i <= j < ranked.len() ==> similarity(name, #[trigger] ranked[i]) >= similarity(
            name,
            #[trigger] ranked[j],
        )
}

/// The verdict on `name` against `corpus`.
///
/// A name that is itself in the corpus is the popular package and imitates
/// nothing. Any other name is flagged exactly when it has look-alikes, with the
/// similarity of the closest one as confidence.
pub open spec fn verdict(name: Seq<char>, corpus: Seq<Seq<char>>) -> TyposquattingModel {
    let similar = lookalikes(name, corpus);
    if corpus.contains(name) || similar.len() == 0 {
        no_resemblance()
    } else {
        TyposquattingModel {
            flagged: true,
            similar: similar,
            confidence: similarity(name, similar[0]),
        }
    }
}

/// Similarity is a score, and is 100 exactly for equal names.
pub proof fn lemma_similarity_bounds(a: Seq<char>, b: Seq<char>)
    ensures
        similarity(a, b) <= 100,
        similarity(a, b) == 100 <==> a == b,
{
    lemma_distance_zero_iff_equal(a, b);
    let longest = greater(a.len(), b.len()) as int;
    let d = edit_distance(a, b) as int;
    if longest > 0 {
        assert((100 * (longest - d)) / longest <= 100) by (nonlinear_arith)
            requires
                0 <= d <= longest,
                longest > 0,
        ;
        assert(((100 * (longest - d)) / longest == 100) <==> d == 0) by (nonlinear_arith)
            requires
                0 <= d <= longest,
                longest > 0,
        ;
    } else {
        assert(a =~= b);
    }
}

/// Among names of one length, a smaller distance never gives a smaller similarity.
pub proof fn lemma_similarity_is_monotone(longest: nat, near: nat, far: nat)
    requires
        longest > 0,
        near <= far <= longest,
    ensures
        (100 * (longest - near)) / (longest as int) >= (100 * (longest - far)) / (longest as int),
{
    assert((100 * (longest - near)) / (longest as int) >= (100 * (longest - far)) / (
    longest as int)) by (nonlinear_arith)
        requires
            longest > 0,
            near <= far <= longest,
    ;
}

/// `rank_position` is the end of the run of names at least as similar as `entry`.
pub proof fn lemma_rank_position_splits(name: Seq<char>, ranked: Seq<Seq<char>>, entry: Seq<char>)
    ensures
        0 <= rank_position(name, ranked, entry) <= ranked.len(),
        forall|k: int|
            0 <= k < rank_position(name, ranked, entry) ==> similarity(name, #[trigger] ranked[k])
                >= similarity(name, entry),
        rank_position(name, ranked, entry) < ranked.len() ==> similarity(
            name,
            ranked[rank_position(name, ranked, entry)],
        ) < similarity(name, entry),
    decreases ranked.len(),
{
    if !(ranked.len() == 0 || similarity(name, ranked[0]) < similarity(name, entry)) {
        let rest = ranked.drop_first();
        lemma_rank_position_splits(name, rest, entry);
        let p = rank_position(name, rest, entry);
        assert forall|k: int| 0 <= k < p + 1 implies similarity(name, #[trigger] ranked[k])
            >= similarity(name, entry) by {
            if k > 0 {
                assert(ranked[k] == rest[k - 1]);
            }
        }
        if p + 1 < ranked.len() {
            assert(ranked[p + 1] == rest[p]);
        }
    }
}

/// The end of the run of names at least as similar as `entry` is `rank_position`.
proof fn lemma_rank_position_found(
    name: Seq<char>,
    ranked: Seq<Seq<char>>,
    entry: Seq<char>,
    p: int,
)
    requires
        0 <= p <= ranked.len(),
        forall|k: int| 0 <= k < p ==> similarity(name, #[trigger] ranked[k]) >= similarity(name, entry),
        p < ranked.len() ==> similarity(name, ranked[p]) < similarity(name, entry),
    ensures
        rank_position(name, ranked, entry) == p,
    decreases p,
{
    if p > 0 {
        let rest = ranked.drop_first();
        assert forall|k: int| 0 <= k < p - 1 implies similarity(name, #[trigger] rest[k])
            >= similarity(name, entry) by {
            assert(rest[k] == ranked[k + 1]);
        }
        if p - 1 < rest.len() {
            assert(rest[p - 1] == ranked[p]);
        }
        lemma_rank_position_found(name, rest, entry, p - 1);
        assert(similarity(name, ranked[0]) >= similarity(name, entry));
    }
}

/// The look-alikes are the corpus entries that `name` imitates, each listed once,
/// the most similar first; `name` itself is never among them.
pub proof fn lemma_lookalikes_are_the_imitated(name: Seq<char>, corpus: Seq<Seq<char>>)
    ensures
        forall|e: Seq<char>| #[trigger]
            lookalikes(name, corpus).contains(e) <==> corpus.contains(e) && is_lookalike(name, e),
        lookalikes(name, corpus).no_duplicates(),
        by_falling_similarity(name, lookalikes(name, corpus)),
        !lookalikes(name, corpus).contains(name),
        lookalikes(name, corpus).len() <= corpus.len(),
    decreases corpus.len(),
{
    let found = lookalikes(name, corpus);
    if corpus.len() == 0 {
        assert forall|e: Seq<char>| #[trigger]
            found.contains(e) <==> corpus.contains(e) && is_lookalike(name, e) by {}
    } else {
        let earlier = lookalikes(name, corpus.drop_last());
        let entry = corpus.last();
        let shorter = corpus.drop_last();
        lemma_lookalikes_are_the_imitated(name, shorter);
        assert forall|e: Seq<char>| corpus.contains(e) <==> shorter.contains(e) || e == entry by {
            if corpus.contains(e) {
                let i = choose|i: int| 0 <= i < corpus.len() && corpus[i] == e;
                if i < corpus.len() - 1 {
                    assert(shorter[i] == e);
                }
            }
            if shorter.contains(e) {
                let i = choose|i: int| 0 <= i < shorter.len() && shorter[i] == e;
                assert(corpus[i] == e);
            }
            if e == entry {
                assert(corpus[corpus.len() - 1] == e);
            }
        }
        if is_lookalike(name, entry) && !earlier.contains(entry) {
            let p = rank_position(name, earlier, entry);
            lemma_rank_position_splits(name, earlier, entry);
            earlier.insert_ensures(p, entry);
            assert forall|e: Seq<char>| found.contains(e) <==> earlier.contains(e) || e == entry by {
                if found.contains(e) {
                    let i = choose|i: int| 0 <= i < found.len() && found[i] == e;
                    if i < p {
                        assert(earlier[i] == e);
                    } else if i > p {
                        assert(found[(i - 1) + 1] == earlier[i - 1]);
                    }
                }
                if earlier.contains(e) {
                    let i = choose|i: int| 0 <= i < earlier.len() && earlier[i] == e;
                    if i < p {
                        assert(found[i] == e);
                    } else {
                        assert(found[i + 1] == e);
                    }
                }
                if e == entry {
                    assert(found[p] == e);
                }
            }
            assert forall|i: int, j: int| 0 <= i < found.len() && 0 <= j < found.len() && i != j implies found[i] != found[j] by {
                let oi = if i < p { i } else { i - 1 };
                let oj = if j < p { j } else { j - 1 };
                if i != p {
                    assert(found[i] == earlier[oi]) by {
                        if i > p {
                            assert(found[(i - 1) + 1] == earlier[i - 1]);
                        }
                    }
                }
                if j != p {
                    assert(found[j] == earlier[oj]) by {
                        if j > p {
                            assert(found[(j - 1) + 1] == earlier[j - 1]);
                        }
                    }
                }
            }
            assert forall|i: int, j: int| 0 <= i <= j < found.len() implies similarity(
                name,
                #[trigger] found[i],
            ) >= similarity(name, #[trigger] found[j]) by {
                let oi = if i < p { i } else { i - 1 };
                let oj = if j < p { j } else { j - 1 };
                if i > p {
                    assert(found[(i - 1) + 1] == earlier[i - 1]);
                }
                if j > p {
                    assert(found[(j - 1) + 1] == earlier[j - 1]);
                }
                if i < p {
                    assert(found[i] == earlier[i]);
                }
                if j < p {
                    assert(found[j] == earlier[j]);
                }
                if i == p && j > p {
                    assert(similarity(name, earlier[p]) >= similarity(name, earlier[j - 1]));
                }
            }
        }
    }
}

/// The verdict on any name is coherent, and never lists the name itself.
pub proof fn lemma_verdict_is_coherent(name: Seq<char>, corpus: Seq<Seq<char>>)
    ensures
        coherent_verdict(verdict(name, corpus)),
        !verdict(name, corpus).similar.contains(name),
        verdict(name, corpus).flagged ==> verdict(name, corpus).confidence >= SIMILARITY_THRESHOLD,
        corpus.contains(name) ==> !verdict(name, corpus).flagged,
{
    lemma_lookalikes_are_the_imitated(name, corpus);
    let similar = lookalikes(name, corpus);
    if !(corpus.contains(name) || similar.len() == 0) {
        lemma_similarity_bounds(name, similar[0]);
        assert(similar.contains(similar[0]));
    }
}

/// Computes the similarity of two names.
pub fn similarity_of(a: &Vec<char>, b: &Vec<char>) -> (r: Score)
    ensures
        r@ == similarity(a@, b@),
{
    let longest: usize = if a.len() >= b.len() {
        a.len()
    } else {
        b.len()
    };
    if longest == 0 {
        return Score::capped(100);
    }
    let d: usize = distance_between(a, b);
    proof {
        lemma_similarity_bounds(a@, b@);
        assert(100 * (longest - d) >= 0) by (nonlinear_arith)
            requires
                d <= longest,
        ;
        assert(100 * (longest - d) <= 100 * 0xffff_ffff_ffff_ffff) by (nonlinear_arith)
            requires
                d <= longest,
                longest <= 0xffff_ffff_ffff_ffff,
        ;
    }
    let kept: u128 = (longest - d) as u128;
    let hundredths: u128 = (100 * kept) / (longest as u128);
    Score::capped(hundredths as u64)
}

/// Lists the look-alikes of `name` among `corpus` and the similarity of each.
fn rank_lookalikes(name: &Vec<char>, corpus: &Vec<String>) -> (r: (Vec<String>, Vec<Score>))
    ensures
        texts(r.0@) == lookalikes(name@, texts(corpus@)),
        r.1.len() == r.0.len(),
        forall|k: int| 0 <= k < r.0.len() ==> (#[trigger] r.1[k])@ == similarity(name@, r.0[k]@),
{
    let mut names: Vec<String> = Vec::new();
    let mut scores: Vec<Score> = Vec::new();
    let mut i: usize = 0;
    assert(texts(corpus@).take(0) =~= Seq::empty());
    assert(texts(names@) =~= Seq::empty());
    while i < corpus.len()
        invariant
            i <= corpus.len(),
            texts(names@) == lookalikes(name@, texts(corpus@).take(i as int)),
            scores.len() == names.len(),
            forall|k: int|
                0 <= k < names.len() ==> (#[trigger] scores[k])@ == similarity(name@, names[k]@),
        decreases corpus.len() - i,
    {
        let ghost seen = texts(corpus@).take(i as int);
        let ghost earlier = texts(names@);
        let entry = &corpus[i];
        proof {
            let next = texts(corpus@).take(i + 1);
            assert(next.drop_last() =~= seen);
            assert(next.last() == entry@);
        }
        let letters = chars_of(entry.as_str());
        let score = similarity_of(name, &letters);
        let differs = !same_letters(name, &letters);
        if differs && score.value() >= SIMILARITY_THRESHOLD && !contains_text(&names, entry) {
            let mut p: usize = 0;
            while p < scores.len() && scores[p].value() >= score.value()
                invariant
                    p <= scores.len(),
                    scores.len() == names.len(),
                    score@ == similarity(name@, entry@),
                    forall|k: int|
                        0 <= k < names.len() ==> (#[trigger] scores[k])@ == similarity(
                            name@,
                            names[k]@,
                        ),
                    forall|k: int|
                        0 <= k < p ==> similarity(name@, #[trigger] texts(names@)[k])
                            >= similarity(name@, entry@),
                decreases scores.len() - p,
            {
                p += 1;
            }
            proof {
                lemma_rank_position_found(name@, earlier, entry@, p as int);
                earlier.insert_ensures(p as int, entry@);
            }
            let ghost old_names = names@;
            let ghost old_scores = scores@;
            names.insert(p, entry.clone());
            scores.insert(p, score);
            proof {
                old_names.insert_ensures(p as int, names@[p as int]);
                old_scores.insert_ensures(p as int, score);
                assert(texts(names@) =~= earlier.insert(p as int, entry@)) by {
                    assert forall|k: int| 0 <= k < names.len() implies texts(names@)[k]
                        == earlier.insert(p as int, entry@)[k] by {
                        if k > p {
                            assert(names@[(k - 1) + 1] == old_names[k - 1]);
                            assert(earlier.insert(p as int, entry@)[(k - 1) + 1] == earlier[k - 1]);
                        }
                    }
                }
                assert forall|k: int| 0 <= k < names.len() implies (#[trigger] scores[k])@
                    == similarity(name@, names[k]@) by {
                    if k > p {
                        assert(names@[(k - 1) + 1] == old_names[k - 1]);
                        assert(scores@[(k - 1) + 1] == old_scores[k - 1]);
                    }
                }
            }
        }
        i += 1;
    }
    assert(texts(corpus@).take(corpus.len() as int) =~= texts(corpus@));
    (names, scores)
}

/// Whether two names are the same.
fn same_letters(a: &Vec<char>, b: &Vec<char>) -> (r: bool)
    ensures
        r == (a@ == b@),
{
    if a.len() != b.len() {
        return false;
    }
    let mut i: usize = 0;
    while i < a.len()
        invariant
            i <= a.len(),
            a.len() == b.len(),
            forall|k: int| 0 <= k < i ==> a[k] == b[k],
        decreases a.len() - i,
    {
        if a[i] != b[i] {
            return false;
        }
        i += 1;
    }
    assert(a@ =~= b@);
    true
}

/// Judges whether `name` imitates one of the popular names in `corpus`.
///
/// The verdict lists the look-alikes of `name`, the closest first, and never
/// `name` itself; a name that is in the corpus is cleared.
pub fn detect_typosquatting(name: &str, corpus: &Vec<String>) -> (risk: TyposquattingRisk)
    ensures
        risk@ == verdict(name@, texts(corpus@)),
        !risk@.similar.contains(name@),
        texts(corpus@).contains(name@) ==> !risk@.flagged,
{
    proof {
        lemma_verdict_is_coherent(name@, texts(corpus@));
    }
    let owned: String = name.to_owned();
    let letters = chars_of(name);
    let (names, scores) = rank_lookalikes(&letters, corpus);
    if contains_text(corpus, &owned) || names.len() == 0 {
        TyposquattingRisk::none()
    } else {
        let top = scores[0];
        assert(texts(names@)[0] == names[0]@);
        match TyposquattingRisk::flagged(names, top) {
            Some(risk) => risk,
            None => TyposquattingRisk::none(),
        }
    }
}

} // verus!
