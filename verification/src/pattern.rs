//! Ordered chains of words in a text.
//!
//! A chain is a sequence of stages, each a set of alternative words. A text
//! holds the chain when it holds one word of each stage, in the order of the
//! stages and without overlap.

use crate::text::texts;
use vstd::prelude::*;

verus! {

/// Whether `word` stands in `text` at position `pos`.
pub open spec fn occurs_at(text: Seq<char>, pos: int, word: Seq<char>) -> bool {
    &&& 0 <= pos
    &&& pos + word.len() <= text.len()
    &&& text.subrange(pos, pos + word.len()) == word
}

/// Whether one of `words` stands in `text` at or behind `from` and ends at `end`.
pub open spec fn stage_ends_at(text: Seq<char>, from: int, words: Seq<Seq<char>>, end: int) -> bool {
    exists|p: int, w: int|
        from <= p && 0 <= w < words.len() && #[trigger] occurs_at(text, p, words[w]) && end == p
            + words[w].len()
}

/// Whether `text` holds, at or behind `from`, one word of each of `stages`, in
/// order and without overlap.
pub open spec fn holds_chain_from(text: Seq<char>, from: int, stages: Seq<Seq<Seq<char>>>) -> bool
    decreases stages.len(),
{
    if stages.len() == 0 {
        true
    } else {
        exists|end: int| #[trigger]
            stage_ends_at(text, from, stages[0], end) && holds_chain_from(
                text,
                end,
                stages.drop_first(),
            )
    }
}

/// Whether `text` holds the chain `stages`.
pub open spec fn holds_chain(text: Seq<char>, stages: Seq<Seq<Seq<char>>>) -> bool {
    holds_chain_from(text, 0, stages)
}

/// The stages of a chain as plain text.
pub open spec fn stage_texts(stages: Seq<Vec<String>>) -> Seq<Seq<Seq<char>>> {
    Seq::new(stages.len(), |i: int| texts(stages[i]@))
}

/// A chain found behind some position is found behind every earlier position too.
pub proof fn lemma_chain_from_earlier(
    text: Seq<char>,
    earlier: int,
    later: int,
    stages: Seq<Seq<Seq<char>>>,
)
    requires
        earlier <= later,
        holds_chain_from(text, later, stages),
    ensures
        holds_chain_from(text, earlier, stages),
{
    if stages.len() > 0 {
        let end = choose|end: int| #[trigger]
            stage_ends_at(text, later, stages[0], end) && holds_chain_from(
                text,
                end,
                stages.drop_first(),
            );
        let (p, w) = choose|p: int, w: int|
            later <= p && 0 <= w < stages[0].len() && #[trigger] occurs_at(text, p, stages[0][w])
                && end == p + stages[0][w].len();
        assert(earlier <= p && occurs_at(text, p, stages[0][w]));
        assert(stage_ends_at(text, earlier, stages[0], end));
    }
}

/// Whether `word` stands in `text` at position `pos`.
pub fn word_at(text: &Vec<char>, pos: usize, word: &Vec<char>) -> (r: bool)
    ensures
        r == occurs_at(text@, pos as int, word@),
{
    if pos > text.len() || word.len() > text.len() - pos {
        return false;
    }
    let mut k: usize = 0;
    while k < word.len()
        invariant
            k <= word.len(),
            pos + word.len() <= text.len(),
            forall|j: int| 0 <= j < k ==> text[pos + j] == word[j],
        decreases word.len() - k,
    {
        if text[pos + k] != word[k] {
            assert(text@.subrange(pos as int, pos + word.len())[k as int] != word@[k as int]);
            return false;
        }
        k += 1;
    }
    assert(text@.subrange(pos as int, pos + word.len()) =~= word@);
    true
}

/// The smaller of `best` and the ends of the words of `words` that stand in `text` at `pos`.
fn earliest_end_at(text: &Vec<char>, pos: usize, words: &Vec<Vec<char>>, best: Option<usize>) -> (r:
    Option<usize>)
    requires
        pos <= text.len(),
    ensures
        r matches Some(e) ==> (best == Some(e) || (pos <= e <= text.len() && exists|w: int|
            0 <= w < words.len() && #[trigger] occurs_at(text@, pos as int, word_texts(words@)[w])
                && e == pos + word_texts(words@)[w].len())),
        best matches Some(b) ==> (r matches Some(e) && e <= b),
        forall|w: int|
            0 <= w < words.len() && #[trigger] occurs_at(text@, pos as int, word_texts(words@)[w])
                ==> (r matches Some(e) && e <= pos + word_texts(words@)[w].len()),
{
    let ghost all = word_texts(words@);
    let mut found: Option<usize> = best;
    let mut w: usize = 0;
    while w < words.len()
        invariant
            w <= words.len(),
            pos <= text.len(),
            all == word_texts(words@),
            found matches Some(e) ==> (best == Some(e) || (pos <= e <= text.len() && exists|v: int|
                0 <= v < words.len() && #[trigger] occurs_at(text@, pos as int, all[v]) && e == pos
                    + all[v].len())),
            best matches Some(b) ==> (found matches Some(e) && e <= b),
            forall|v: int|
                0 <= v < w && #[trigger] occurs_at(text@, pos as int, all[v]) ==> (
                found matches Some(e) && e <= pos + all[v].len()),
        decreases words.len() - w,
    {
        if word_at(text, pos, &words[w]) {
            assert(all[w as int] == words[w as int]@);
            let end: usize = pos + words[w].len();
            let better = match found {
                Some(e) => end < e,
                None => true,
            };
            if better {
                found = Some(end);
                assert(occurs_at(text@, pos as int, all[w as int]));
            }
        }
        w += 1;
    }
    found
}

/// The end of the occurrence of one of `words` in `text`, at or behind `from`,
/// that ends first; `None` when none of them occurs there.
pub fn earliest_end(text: &Vec<char>, from: usize, words: &Vec<Vec<char>>) -> (r: Option<usize>)
    ensures
        r is None <==> forall|end: int| !stage_ends_at(text@, from as int, word_texts(words@), end),
        r matches Some(e) ==> {
            &&& from <= e <= text.len()
            &&& stage_ends_at(text@, from as int, word_texts(words@), e as int)
            &&& forall|end: int|
                stage_ends_at(text@, from as int, word_texts(words@), end) ==> e <= end
        },
{
    let ghost all = word_texts(words@);
    if from > text.len() {
        assert forall|end: int| !stage_ends_at(text@, from as int, all, end) by {
            if stage_ends_at(text@, from as int, all, end) {
                let (p, w) = choose|p: int, w: int|
                    from <= p && 0 <= w < all.len() && #[trigger] occurs_at(text@, p, all[w])
                        && end == p + all[w].len();
            }
        }
        return None;
    }
    let mut best: Option<usize> = None;
    let mut p: usize = from;
    while p < text.len()
        invariant
            from <= p <= text.len(),
            all == word_texts(words@),
            best matches Some(e) ==> from <= e <= text.len() && stage_ends_at(
                text@,
                from as int,
                all,
                e as int,
            ),
            forall|q: int, w: int|
                from <= q < p && 0 <= w < all.len() && #[trigger] occurs_at(text@, q, all[w]) ==> (
                best matches Some(e) && e <= q + all[w].len()),
        decreases text.len() - p,
    {
        best = earliest_end_at(text, p, words, best);
        p += 1;
    }
    let ghost before = best;
    best = earliest_end_at(text, p, words, best);
    proof {
        if let Some(e) = best {
            if before != Some(e) {
                let w = choose|w: int|
                    0 <= w < words.len() && #[trigger] occurs_at(text@, p as int, all[w]) && e == p
                        + all[w].len();
                assert(from <= p && occurs_at(text@, p as int, all[w]));
            }
            assert(stage_ends_at(text@, from as int, all, e as int));
        }
        assert forall|end: int| stage_ends_at(text@, from as int, all, end) implies (
        best matches Some(e) && e <= end) by {
            let (q, w) = choose|q: int, w: int|
                from <= q && 0 <= w < all.len() && #[trigger] occurs_at(text@, q, all[w]) && end
                    == q + all[w].len();
            assert(q <= text.len());
        }
    }
    best
}

/// The words of a stage as plain text.
pub open spec fn word_texts(words: Seq<Vec<char>>) -> Seq<Seq<char>> {
    Seq::new(words.len(), |i: int| words[i]@)
}

/// The stages of a chain, held as characters, as plain text.
pub open spec fn chain_texts(stages: Seq<Vec<Vec<char>>>) -> Seq<Seq<Seq<char>>> {
    Seq::new(stages.len(), |i: int| word_texts(stages[i]@))
}

/// Whether `text` holds the chain `stages`.
///
/// Each stage is matched at the occurrence that ends first, which leaves the
/// most room for the stages that follow.
pub fn text_holds_chain(text: &Vec<char>, stages: &Vec<Vec<Vec<char>>>) -> (r: bool)
    ensures
        r == holds_chain(text@, chain_texts(stages@)),
{
    let ghost all = chain_texts(stages@);
    let mut from: usize = 0;
    let mut k: usize = 0;
    assert(all.skip(0) =~= all);
    while k < stages.len()
        invariant
            k <= stages.len(),
            from <= text.len(),
            all == chain_texts(stages@),
            holds_chain(text@, all) == holds_chain_from(text@, from as int, all.skip(k as int)),
        decreases stages.len() - k,
    {
        let ghost rest = all.skip(k as int);
        proof {
            assert(rest[0] == word_texts(stages[k as int]@));
            assert(rest.drop_first() =~= all.skip(k + 1));
        }
        match earliest_end(text, from, &stages[k]) {
            None => {
                return false;
            },
            Some(e) => {
                proof {
                    if holds_chain_from(text@, from as int, rest) {
                        let end = choose|end: int| #[trigger]
                            stage_ends_at(text@, from as int, rest[0], end) && holds_chain_from(
                                text@,
                                end,
                                rest.drop_first(),
                            );
                        lemma_chain_from_earlier(text@, e as int, end, rest.drop_first());
                    }
                }
                from = e;
            },
        }
        k += 1;
    }
    assert(all.skip(stages.len() as int).len() == 0);
    true
}

} // verus!
