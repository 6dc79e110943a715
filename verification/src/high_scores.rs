use vstd::prelude::*;
use vstd::pervasive::VecAdditionalExecFns;

verus! {

/// Name for the text that serialising a score list to RON yields, and for
/// whether serialisation succeeds: a function of the scores alone.
pub uninterp spec fn ron_text_of_scores(scores: Seq<i32>) -> Option<Seq<char>>;

/// Name for the outcome of parsing a RON text as a score list: a function
/// of the text alone.
pub uninterp spec fn scores_of_ron_text(text: Seq<char>) -> Option<Seq<i32>>;

/// Relies on ron::to_string for a vector of integers: the produced text
/// depends on the scores alone; a failure is dropped to `None`.
#[verifier::external_body]
fn scores_to_ron(scores: &Vec<i32>) -> (r: Option<String>)
    ensures
        r matches Some(t) ==> ron_text_of_scores(scores@) == Some(t@),
        r is None ==> ron_text_of_scores(scores@) is None,
{
    ron::to_string(scores).ok()
}

/// Relies on ron::from_str for a vector of integers: the parse outcome
/// depends on the text alone; a failure is dropped to `None`.
#[verifier::external_body]
fn scores_from_ron(text: &str) -> (r: Option<Vec<i32>>)
    ensures
        r matches Some(v) ==> scores_of_ron_text(text@) == Some(v@),
        r is None ==> scores_of_ron_text(text@) is None,
{
    ron::from_str::<Vec<i32>>(text).ok()
}

/// The best (lowest) move counts seen so far, indexed by level.
#[derive(Clone, Debug, PartialEq, Eq)]
pub struct HighScores {
    pub scores: Vec<i32>,
}

impl Default for HighScores {
    /// No scores recorded yet.
    fn default() -> (s: Self)
        ensures
            s.scores@ == Seq::<i32>::empty(),
    {
        HighScores { scores: Vec::new() }
    }
}

impl HighScores {
    /// The scores a stored text stands for: the parsed list, or no scores at
    /// all when the text does not parse.
    pub open spec fn scores_of_text(text: Seq<char>) -> Seq<i32> {
        match scores_of_ron_text(text) {
            Some(v) => v,
            None => Seq::empty(),
        }
    }

    /// Rebuild the table from a stored text; an unparsable or empty text
    /// yields the empty table.
    pub fn from_text(text: &str) -> (s: Self)
        ensures
            s.scores@ == Self::scores_of_text(text@),
    {
        match scores_from_ron(text) {
            Some(v) => HighScores { scores: v },
            None => HighScores { scores: Vec::new() },
        }
    }

    /// The table serialised for storage; `None` when serialisation fails.
    pub fn to_file_text(&self) -> (r: Option<String>)
        ensures
            r matches Some(t) ==> ron_text_of_scores(self.scores@) == Some(t@),
            r is None ==> ron_text_of_scores(self.scores@) is None,
    {
        scores_to_ron(&self.scores)
    }

    /// Record `score` for `index` when it beats the stored one (any score
    /// beats a missing entry). Returns `None` exactly when the new score was
    /// recorded — the caller then persists the table — and the old score
    /// otherwise. An index past the one-past-the-end slot is not accepted.
    pub fn add_score_and_write(&mut self, index: usize, score: i32) -> (r: Option<i32>)
        requires
            index <= old(self).scores.len(),
        ensures
            index < old(self).scores.len() ==> {
                let cur = old(self).scores@[index as int];
                if score < cur {
                    r is None && final(self).scores@ == old(self).scores@.update(
                        index as int,
                        score,
                    )
                } else {
                    r == Some(cur) && final(self).scores@ == old(self).scores@
                }
            },
            index == old(self).scores.len() ==> {
                &&& final(self).scores@ == old(self).scores@.push(score)
                &&& if score < i32::MAX {
                    r is None
                } else {
                    r == Some(i32::MAX)
                }
            },
    {
        if index < self.scores.len() {
            let current = self.scores[index];
            if score < current {
                self.scores.set(index, score);
                None
            } else {
                Some(current)
            }
        } else {
            // a missing entry counts as the largest possible score
            self.scores.push(score);
            if score < i32::MAX {
                None
            } else {
                Some(i32::MAX)
            }
        }
    }

    /// The stored score of `level`, if one was recorded.
    pub fn get_high_score(&self, level: usize) -> (r: Option<i32>)
        ensures
            r == if level < self.scores.len() {
                Some(self.scores@[level as int])
            } else {
                None::<i32>
            },
    {
        if level < self.scores.len() {
            Some(self.scores[level])
        } else {
            None
        }
    }

    /// The next level to play among `0 .. level_count`: the first one with
    /// no recorded score, or the last level when every one is finished.
    pub fn find_next_level(&self, level_count: usize) -> (r: usize)
        requires
            level_count >= 1,
        ensures
            r == if self.scores.len() < level_count {
                self.scores@.len() as usize
            } else {
                (level_count - 1) as usize
            },
    {
        let mut i: usize = 0;
        let mut an_unfinished_level_exists = false;
        let mut level: usize = 0;
        while level < level_count
            invariant
                level <= level_count,
                i == if level <= self.scores.len() {
                    level as int
                } else {
                    self.scores.len() as int
                },
                an_unfinished_level_exists == (level > self.scores.len()),
            decreases level_count - level,
        {
            if self.get_high_score(level).is_some() {
                i = level + 1;
            } else {
                an_unfinished_level_exists = true;
            }
            level = level + 1;
        }
        if an_unfinished_level_exists {
            i
        } else {
            i - 1
        }
    }
}

} // verus!
