use vstd::prelude::*;

verus! {

/// One entry of the high-score list.
pub struct Score {
    pub player_name: String,
    pub score: i32,
}

/// The list is in descending order of score.
pub open spec fn ranked(list: Seq<Score>) -> bool {
    forall|i: int, j: int| 0 <= i <= j < list.len() ==> list[i].score >= list[j].score
}

/// How many entries of `list` have a score of at least `score`.
pub open spec fn rank_of(list: Seq<Score>, score: int) -> nat
    decreases list.len(),
{
    if list.len() == 0 {
        0
    } else {
        rank_of(list.drop_last(), score) + if list.last().score >= score {
            1nat
        } else {
            0nat
        }
    }
}

/// `list` with `entry` put behind the entries that score at least as much.
pub open spec fn insert_ranked(list: Seq<Score>, entry: Score) -> Seq<Score> {
    list.insert(rank_of(list, entry.score as int) as int, entry)
}

/// The entries of `list` in descending order of score, entries of equal
/// score in the order they had in `list`.
pub open spec fn sort_ranked(list: Seq<Score>) -> Seq<Score>
    decreases list.len(),
{
    if list.len() == 0 {
        list
    } else {
        insert_ranked(sort_ranked(list.drop_last()), list.last())
    }
}

/// No more entries are counted than there are.
pub proof fn lemma_rank_bounded(list: Seq<Score>, score: int)
    ensures
        rank_of(list, score) <= list.len(),
    decreases list.len(),
{
    if list.len() > 0 {
        lemma_rank_bounded(list.drop_last(), score);
    }
}

/// In a ranked list, exactly the entries before `rank_of` score at least
/// `score`.
pub proof fn lemma_rank_splits(list: Seq<Score>, score: int)
    requires
        ranked(list),
    ensures
        rank_of(list, score) <= list.len(),
        forall|i: int| 0 <= i < rank_of(list, score) ==> list[i].score >= score,
        forall|i: int| rank_of(list, score) <= i < list.len() ==> list[i].score < score,
    decreases list.len(),
{
    if list.len() > 0 {
        let init = list.drop_last();
        assert(ranked(init)) by {
            assert forall|i: int, j: int| 0 <= i <= j < init.len() implies init[i].score
                >= init[j].score by {
                assert(init[i] == list[i] && init[j] == list[j]);
            }
        }
        lemma_rank_splits(init, score);
        let k = rank_of(init, score) as int;
        if list.last().score >= score {
            // every entry before the last scores at least as much as the last
            assert forall|i: int| 0 <= i < init.len() implies init[i].score >= score by {
                assert(init[i] == list[i]);
                assert(list[i].score >= list[list.len() - 1].score);
            }
            if k < init.len() {
                assert(init[k].score < score);
                assert(false);
            }
        } else {
            assert forall|i: int| rank_of(list, score) <= i < list.len() implies list[i].score
                < score by {
                if i < init.len() {
                    assert(init[i] == list[i]);
                }
            }
        }
        assert forall|i: int| 0 <= i < rank_of(list, score) implies list[i].score >= score by {
            if i < init.len() {
                assert(init[i] == list[i]);
            }
        }
    }
}

/// Sorting keeps the number of entries.
pub proof fn lemma_sort_len(list: Seq<Score>)
    ensures
        sort_ranked(list).len() == list.len(),
    decreases list.len(),
{
    if list.len() > 0 {
        lemma_sort_len(list.drop_last());
        lemma_rank_bounded(sort_ranked(list.drop_last()), list.last().score as int);
    }
}

/// Putting an entry into a ranked list leaves it ranked.
pub proof fn lemma_insert_ranked(list: Seq<Score>, entry: Score)
    requires
        ranked(list),
    ensures
        ranked(insert_ranked(list, entry)),
{
    lemma_rank_splits(list, entry.score as int);
    let k = rank_of(list, entry.score as int) as int;
    let out = insert_ranked(list, entry);
    assert forall|i: int, j: int| 0 <= i <= j < out.len() implies out[i].score
        >= out[j].score by {
        if i < k {
            assert(out[i] == list[i]);
        } else if i > k {
            assert(out[i] == list[i - 1]);
        }
        if j < k {
            assert(out[j] == list[j]);
        } else if j > k {
            assert(out[j] == list[j - 1]);
        }
    }
}

/// A sorted list is ranked.
pub proof fn lemma_sort_is_ranked(list: Seq<Score>)
    ensures
        ranked(sort_ranked(list)),
    decreases list.len(),
{
    if list.len() > 0 {
        lemma_sort_is_ranked(list.drop_last());
        lemma_insert_ranked(sort_ranked(list.drop_last()), list.last());
    }
}

/// Sorting neither adds nor loses an entry.
pub proof fn lemma_sort_permutes(list: Seq<Score>)
    ensures
        sort_ranked(list).to_multiset() == list.to_multiset(),
    decreases list.len(),
{
    broadcast use vstd::seq_lib::group_to_multiset_ensures;

    if list.len() > 0 {
        let init = list.drop_last();
        let sorted = sort_ranked(init);
        lemma_sort_permutes(init);
        lemma_rank_bounded(sorted, list.last().score as int);
        let k = rank_of(sorted, list.last().score as int) as int;
        assert(sorted.insert(k, list.last()).to_multiset() == sorted.to_multiset().insert(
            list.last(),
        )) by {
            vstd::seq_lib::to_multiset_insert(sorted, k, list.last());
        }
        assert(list == init.push(list.last()));
    }
}

/// Sorting a ranked list changes nothing.
pub proof fn lemma_sort_keeps_ranked(list: Seq<Score>)
    requires
        ranked(list),
    ensures
        sort_ranked(list) == list,
    decreases list.len(),
{
    if list.len() > 0 {
        let init = list.drop_last();
        assert(ranked(init)) by {
            assert forall|i: int, j: int| 0 <= i <= j < init.len() implies init[i].score
                >= init[j].score by {
                assert(init[i] == list[i] && init[j] == list[j]);
            }
        }
        lemma_sort_keeps_ranked(init);
        lemma_rank_splits(init, list.last().score as int);
        let k = rank_of(init, list.last().score as int) as int;
        if k < init.len() {
            assert(init[k] == list[k]);
            assert(list[k].score >= list[list.len() - 1].score);
            assert(false);
        }
        assert(init.insert(k, list.last()) =~= list);
    }
}

/// Adding an entry to a ranked list and sorting again puts the entry behind
/// those that score at least as much, and moves nothing else.
pub proof fn lemma_add_to_ranked(list: Seq<Score>, entry: Score)
    requires
        ranked(list),
    ensures
        sort_ranked(list.push(entry)) == insert_ranked(list, entry),
{
    lemma_sort_keeps_ranked(list);
    assert(list.push(entry).drop_last() =~= list);
}

/// The high-score list, kept in descending order of score.
pub struct ScoreManager {
    scores: Vec<Score>,
}

impl View for ScoreManager {
    type V = Seq<Score>;

    closed spec fn view(&self) -> Seq<Score> {
        self.scores@
    }
}

impl ScoreManager {
    /// A manager of the scores that were stored before, ranked.
    pub fn new(stored: Vec<Score>) -> (manager: Self)
        ensures
            manager@ == sort_ranked(stored@),
            ranked(manager@),
            manager@.to_multiset() == stored@.to_multiset(),
    {
        let mut manager = ScoreManager { scores: stored };
        manager.sort_scores();
        manager
    }

    /// Adds an entry and ranks the list again. In a list that was ranked,
    /// the entry comes to stand behind those that score at least as much,
    /// and nothing else moves.
    pub fn add_score(&mut self, name: String, score: i32)
        ensures
            final(self)@ == sort_ranked(
                old(self)@.push(Score { player_name: name, score: score }),
            ),
            ranked(final(self)@),
            ranked(old(self)@) ==> final(self)@ == insert_ranked(
                old(self)@,
                Score { player_name: name, score: score },
            ),
    {
        let new_score = Score { player_name: name, score };
        proof {
            if ranked(self@) {
                lemma_add_to_ranked(self@, new_score);
            }
        }
        self.scores.push(new_score);
        self.sort_scores();
    }

    /// The number of entries among the first `end` that score at least
    /// `score`.
    fn rank_among(&self, end: usize, score: i32) -> (rank: usize)
        requires
            end <= self@.len(),
        ensures
            rank == rank_of(self@.take(end as int), score as int),
    {
        let mut rank: usize = 0;
        let mut i: usize = 0;
        while i < end
            invariant
                i <= end <= self.scores@.len(),
                rank <= i,
                rank == rank_of(self.scores@.take(i as int), score as int),
            decreases end - i,
        {
            proof {
                assert(self.scores@.take(i + 1).drop_last() =~= self.scores@.take(i as int));
            }
            if self.scores[i].score >= score {
                rank = rank + 1;
            }
            i = i + 1;
        }
        rank
    }

    /// Ranks the list: descending by score, entries of equal score in the
    /// order they had.
    pub fn sort_scores(&mut self)
        ensures
            final(self)@ == sort_ranked(old(self)@),
            ranked(final(self)@),
            final(self)@.to_multiset() == old(self)@.to_multiset(),
    {
        let n: usize = self.scores.len();
        let mut i: usize = 0;
        while i < n
            invariant
                i <= n == old(self).scores@.len(),
                self.scores@ == sort_ranked(old(self).scores@.take(i as int)) + old(
                    self,
                ).scores@.skip(i as int),
            decreases n - i,
        {
            let ghost before = old(self).scores@;
            let ghost done = sort_ranked(before.take(i as int));
            proof {
                lemma_sort_len(before.take(i as int));
                assert(before.take(i + 1).drop_last() =~= before.take(i as int));
            }
            let entry = self.scores.remove(i);
            assert(entry == before[i as int]);
            assert(self.scores@ =~= done + before.skip(i + 1));
            let rank: usize = self.rank_among(i, entry.score);
            proof {
                assert(self.scores@.take(i as int) =~= done);
                lemma_rank_bounded(done, entry.score as int);
            }
            self.scores.insert(rank, entry);
            assert(self.scores@ =~= sort_ranked(before.take(i + 1)) + before.skip(i + 1));
            i = i + 1;
        }
        proof {
            assert(old(self).scores@.take(n as int) =~= old(self).scores@);
            lemma_sort_is_ranked(old(self)@);
            lemma_sort_permutes(old(self)@);
        }
    }

    pub fn get_scores(&self) -> (scores: &Vec<Score>)
        ensures
            scores@ == self@,
    {
        &self.scores
    }
}

} // verus!
