//! Short-text opinions attached to posts.
//!
//! An opinion is a lower-cased snippet of at most twelve grapheme clusters
//! with a vote counter; each user holds at most one vote per opinion, and the
//! counter always equals the number of vote rows. Creating an opinion inserts
//! the row together with the creator's vote in one step, so an opinion never
//! exists with zero backing votes because of a partial failure; setting a
//! vote is an idempotent toggle like the relation toggles.

use vstd::prelude::*;

verus! {

use crate::error::Error;

/// The most grapheme clusters an opinion may hold.
pub const OPINION_MAX_LEN: usize = 12;

/// What `str::to_lowercase` returns for a string with these characters: the
/// Unicode lowercase mapping, a function of the characters alone.
pub uninterp spec fn lower_of(s: Seq<char>) -> Seq<char>;

/// How many extended grapheme clusters a string with these characters has: a
/// function of the characters alone.
pub uninterp spec fn grapheme_count(s: Seq<char>) -> nat;

/// Relies on `str::to_lowercase`: the result is the Unicode lowercase mapping
/// of the input, and it is empty exactly for an empty input (each character
/// maps to at least one character).
#[verifier::external_body]
fn to_lowercase(s: &str) -> (r: String)
    ensures
        r@ == lower_of(s@),
        (r@.len() == 0) == (s@.len() == 0),
{
    s.to_lowercase()
}

/// Relies on `UnicodeSegmentation::graphemes`: the number of extended
/// grapheme clusters, per Unicode segmentation of the characters alone; an
/// empty string has none.
#[verifier::external_body]
pub(crate) fn count_graphemes(s: &str) -> (r: usize)
    ensures
        r as nat == grapheme_count(s@),
        (r == 0) == (s@.len() == 0),
{
    unicode_segmentation::UnicodeSegmentation::graphemes(s, true).count()
}

/// Valid opinion text: non-empty, and at most `OPINION_MAX_LEN` grapheme
/// clusters once lower-cased.
pub open spec fn spec_opinion_valid(s: Seq<char>) -> bool {
    s.len() > 0 && grapheme_count(lower_of(s)) <= OPINION_MAX_LEN
}

/// One opinion as handed to readers: its text, its id, and whether the
/// viewing user has voted for it.
#[derive(Debug)]
pub struct Opinion {
    pub opinion: String,
    pub id: i64,
    pub voted: bool,
}

impl Opinion {
    /// Validates opinion text: rejects an empty input and one whose
    /// lower-cased form exceeds the grapheme bound; otherwise returns the
    /// lower-cased text.
    pub fn parse(from: &str) -> (r: Option<String>)
        ensures
            r is Some <==> spec_opinion_valid(from@),
            r is Some ==> r->0@ == lower_of(from@),
    {
        let new_string = to_lowercase(from);
        let count = count_graphemes(new_string.as_str());
        if from.is_empty() {
            return None;
        }
        if count > OPINION_MAX_LEN {
            return None;
        }
        Some(new_string)
    }
}

/// One stored opinion row.
pub struct OpinionRow {
    pub id: i64,
    pub post_id: i64,
    pub text: String,
    pub votes: u64,
}

/// How many of `votes` are votes for opinion `id`.
pub open spec fn vote_count(votes: Seq<(i64, i64)>, id: i64) -> nat
    decreases votes.len(),
{
    if votes.len() == 0 {
        0
    } else {
        vote_count(votes.drop_last(), id) + (if votes.last().1 == id {
            1nat
        } else {
            0nat
        })
    }
}

/// The opinions of all posts, with their vote rows (user id, opinion id).
pub struct OpinionBoard {
    rows: Vec<OpinionRow>,
    votes: Vec<(i64, i64)>,
    next_id: i64,
}

impl OpinionBoard {
    /// The stored opinion rows, in insertion order.
    pub closed spec fn rows(self) -> Seq<OpinionRow> {
        self.rows@
    }

    /// The stored vote rows.
    pub closed spec fn votes(self) -> Seq<(i64, i64)> {
        self.votes@
    }

    /// The id the next created opinion gets.
    pub closed spec fn spec_next_id(self) -> int {
        self.next_id as int
    }

    /// Whether `user` has voted for opinion `id`.
    pub open spec fn has_vote(self, user: i64, id: i64) -> bool {
        self.votes().contains((user, id))
    }

    /// Well-formed: opinion ids are distinct and below the id counter, vote
    /// rows are distinct and refer to issued ids, and every row's vote
    /// counter equals the number of its vote rows.
    pub open spec fn wf(self) -> bool {
        &&& 0 <= self.spec_next_id()
        &&& forall|i: int, j: int|
            0 <= i < j < self.rows().len() ==> self.rows()[i].id != self.rows()[j].id
        &&& forall|i: int| 0 <= i < self.rows().len() ==> 0 <= (#[trigger] self.rows()[i]).id
            < self.spec_next_id()
        &&& self.votes().no_duplicates()
        &&& forall|i: int| 0 <= i < self.votes().len() ==> 0 <= (#[trigger] self.votes()[i]).1
            < self.spec_next_id()
        &&& forall|i: int| 0 <= i < self.rows().len() ==> (#[trigger] self.rows()[i]).votes as nat
            == vote_count(self.votes(), self.rows()[i].id)
    }

    /// An empty board.
    pub fn new() -> (b: OpinionBoard)
        ensures
            b.wf(),
            b.rows().len() == 0,
            b.votes().len() == 0,
            b.spec_next_id() == 0,
    {
        OpinionBoard { rows: Vec::new(), votes: Vec::new(), next_id: 0 }
    }

    fn find_row(&self, id: i64) -> (idx: Option<usize>)
        ensures
            match idx {
                Some(i) => i < self.rows().len() && self.rows()[i as int].id == id
                    && spec_find_row(self.rows(), id) == Some(self.rows()[i as int]),
                None => spec_find_row(self.rows(), id) is None,
            },
    {
        let n = self.rows.len();
        let mut i: usize = 0;
        proof {
            assert(self.rows@.skip(0) =~= self.rows@);
        }
        while i < n
            invariant
                n == self.rows@.len(),
                i <= n,
                forall|j: int| 0 <= j < i ==> (#[trigger] self.rows@[j]).id != id,
                spec_find_row(self.rows@, id) == spec_find_row(self.rows@.skip(i as int), id),
            decreases n - i,
        {
            proof {
                assert(self.rows@.skip(i as int)[0] == self.rows@[i as int]);
                assert(self.rows@.skip(i as int).drop_first() =~= self.rows@.skip(i as int + 1));
            }
            if self.rows[i].id == id {
                return Some(i);
            }
            i = i + 1;
        }
        proof {
            assert(self.rows@.skip(n as int) =~= Seq::<OpinionRow>::empty());
        }
        None
    }

    /// The vote counter of opinion `id`, if it is stored.
    pub fn votes_of(&self, id: i64) -> (r: Option<u64>)
        ensures
            match r {
                Some(v) => spec_find_row(self.rows(), id) is Some && spec_find_row(
                    self.rows(),
                    id,
                )->0.votes == v,
                None => spec_find_row(self.rows(), id) is None,
            },
    {
        match self.find_row(id) {
            Some(i) => Some(self.rows[i].votes),
            None => None,
        }
    }

    /// Whether `user` holds a vote on opinion `id`.
    pub fn voted(&self, user: i64, id: i64) -> (r: bool)
        ensures
            r == self.has_vote(user, id),
    {
        match self.find_vote(user, id) {
            Some(i) => {
                proof {
                    assert(self.votes().contains((user, id)));
                }
                true
            },
            None => false,
        }
    }

    /// The id the next created opinion gets.
    pub fn next_id(&self) -> (r: i64)
        ensures
            r == self.spec_next_id(),
    {
        self.next_id
    }

    /// The number of stored opinions.
    pub fn opinion_count(&self) -> (r: usize)
        ensures
            r == self.rows().len(),
    {
        self.rows.len()
    }

    fn find_vote(&self, user: i64, id: i64) -> (idx: Option<usize>)
        ensures
            match idx {
                Some(i) => i < self.votes().len() && self.votes()[i as int] == (user, id),
                None => !self.has_vote(user, id),
            },
    {
        let n = self.votes.len();
        let mut i: usize = 0;
        while i < n
            invariant
                n == self.votes@.len(),
                i <= n,
                forall|j: int| 0 <= j < i ==> self.votes@[j] != (user, id),
            decreases n - i,
        {
            let v = self.votes[i];
            if v.0 == user && v.1 == id {
                return Some(i);
            }
            i = i + 1;
        }
        None
    }
}

/// The first row with id `id`, scanning from the front.
pub open spec fn spec_find_row(rows: Seq<OpinionRow>, id: i64) -> Option<OpinionRow>
    decreases rows.len(),
{
    if rows.len() == 0 {
        None
    } else if rows[0].id == id {
        Some(rows[0])
    } else {
        spec_find_row(rows.drop_first(), id)
    }
}

/// The vote set after one `set_vote`: the `(user, opinion)` pair inserted
/// when `wants` and removed otherwise. A vote already in the desired state
/// changes nothing.
pub open spec fn spec_set_vote(votes: Set<(i64, i64)>, user: i64, id: i64, wants: bool) -> Set<
    (i64, i64),
> {
    if wants {
        votes.insert((user, id))
    } else {
        votes.remove((user, id))
    }
}

impl Opinion {
    /// Sets `user_id`'s vote on opinion `opinion_id` of post `post_id` to
    /// `wants_vote`, keeping the opinion's vote counter synchronized, in one
    /// indivisible transition. A vote already in the desired state is a
    /// successful no-op. Fails with `NotFound`, changing nothing, exactly
    /// when no opinion with that id exists on that post.
    pub fn set_vote(
        board: &mut OpinionBoard,
        post_id: i64,
        opinion_id: i64,
        user_id: i64,
        wants_vote: bool,
    ) -> (r: Result<(), Error>)
        requires
            old(board).wf(),
        ensures
            final(board).wf(),
            r is Ok <==> (spec_find_row(old(board).rows(), opinion_id) is Some && spec_find_row(
                old(board).rows(),
                opinion_id,
            )->0.post_id == post_id),
            r is Err ==> *final(board) == *old(board) && r == Result::<(), Error>::Err(
                Error::NotFound,
            ),
            final(board).votes().to_set() == spec_set_vote(
                old(board).votes().to_set(),
                user_id,
                opinion_id,
                if r is Ok {
                    wants_vote
                } else {
                    old(board).has_vote(user_id, opinion_id)
                },
            ),
            r is Ok ==> final(board).has_vote(user_id, opinion_id) == wants_vote,
            final(board).spec_next_id() == old(board).spec_next_id(),
            final(board).rows().len() == old(board).rows().len(),
            forall|k: int| 0 <= k < old(board).rows().len() ==> {
                let pre = #[trigger] old(board).rows()[k];
                let post = final(board).rows()[k];
                post.id == pre.id && post.post_id == pre.post_id && post.text == pre.text
                    && post.votes as int == pre.votes + (if r is Ok && pre.id == opinion_id && (old(
                    board,
                ).has_vote(user_id, opinion_id) != wants_vote) {
                    if wants_vote {
                        1int
                    } else {
                        -1int
                    }
                } else {
                    0int
                })
            },
    {
        let ridx = match board.find_row(opinion_id) {
            Some(i) => i,
            None => {
                proof {
                    assert(board.votes().to_set() =~= spec_set_vote(
                        board.votes().to_set(),
                        user_id,
                        opinion_id,
                        board.has_vote(user_id, opinion_id),
                    ));
                }
                return Err(Error::NotFound);
            },
        };
        if board.rows[ridx].post_id != post_id {
            proof {
                assert(board.votes().to_set() =~= spec_set_vote(
                    board.votes().to_set(),
                    user_id,
                    opinion_id,
                    board.has_vote(user_id, opinion_id),
                ));
            }
            return Err(Error::NotFound);
        }
        let found = board.find_vote(user_id, opinion_id);
        proof {
            if found is Some {
                assert(board.votes().contains((user_id, opinion_id)));
            }
        }
        if wants_vote == found.is_some() {
            proof {
                assert(board.votes().to_set() =~= spec_set_vote(
                    board.votes().to_set(),
                    user_id,
                    opinion_id,
                    wants_vote,
                ));
            }
            return Ok(());
        }
        let v = board.rows[ridx].votes;
        proof {
            assert(board.rows()[ridx as int].votes as nat == vote_count(
                board.votes(),
                board.rows()[ridx as int].id,
            ));
        }
        if wants_vote {
            board.votes.push((user_id, opinion_id));
            let n = board.votes.len();
            proof {
                crate::seq_facts::lemma_push_no_duplicates(
                    old(board).votes(),
                    (user_id, opinion_id),
                );
                crate::seq_facts::lemma_to_set_push(old(board).votes(), (user_id, opinion_id));
                lemma_vote_count_push_all(old(board).votes(), (user_id, opinion_id));
                lemma_vote_count_le_len(old(board).votes(), opinion_id);
                assert(n == board.votes@.len());
                assert(board.votes().contains((user_id, opinion_id))) by {
                    assert(board.votes().last() == (user_id, opinion_id));
                }
            }
            board.rows[ridx].votes = v + 1;
        } else {
            let vi = match found {
                Some(vi) => vi,
                None => {
                    proof {
                        assert(false);
                    }
                    0
                },
            };
            board.votes.remove(vi);
            proof {
                crate::seq_facts::lemma_remove_no_duplicates(old(board).votes(), vi as int);
                crate::seq_facts::lemma_to_set_remove(old(board).votes(), vi as int);
                lemma_vote_count_remove_all(old(board).votes(), vi as int);
                assert(!board.votes().contains((user_id, opinion_id)));
                assert(vote_count(board.votes(), opinion_id) + 1 == vote_count(
                    old(board).votes(),
                    opinion_id,
                ));
            }
            board.rows[ridx].votes = v - 1;
        }
        proof {
            assert forall|k: int| 0 <= k < board.rows().len() implies (
            #[trigger] board.rows()[k]).votes as nat == vote_count(
                board.votes(),
                board.rows()[k].id,
            ) by {
                if k != ridx as int {
                    assert(board.rows()[k] == old(board).rows()[k]);
                    assert(old(board).rows()[k].id != opinion_id);
                }
            }
        }
        Ok(())
    }
}

/// Strict ranking order on row indices: more votes first; equal votes are
/// broken by insertion order, the earlier row first.
pub open spec fn ranked_before(rows: Seq<OpinionRow>, i: int, j: int) -> bool {
    rows[i].votes > rows[j].votes || (rows[i].votes == rows[j].votes && i < j)
}

/// Whether `i` indexes an opinion of `post_id`.
pub open spec fn is_candidate(rows: Seq<OpinionRow>, post_id: i64, i: int) -> bool {
    0 <= i < rows.len() && rows[i].post_id == post_id
}

/// The indices of all opinions of `post_id`.
pub open spec fn cand_set(rows: Seq<OpinionRow>, post_id: i64) -> Set<int> {
    Set::new(|i: int| is_candidate(rows, post_id, i))
}

/// `sel` lists the `n` best-ranked opinions of `post_id`, best first — all of
/// them when the post has fewer than `n`. The ranking order is strict, so
/// the listing carries no arbitrary choices.
pub open spec fn is_top_selection(
    rows: Seq<OpinionRow>,
    post_id: i64,
    n: int,
    sel: Seq<int>,
) -> bool {
    &&& forall|k: int| 0 <= k < sel.len() ==> is_candidate(rows, post_id, #[trigger] sel[k])
    &&& forall|k1: int, k2: int| 0 <= k1 < k2 < sel.len() ==> ranked_before(
        rows,
        sel[k1],
        sel[k2],
    )
    &&& sel.len() <= n
    &&& (sel.len() < n ==> (forall|j: int| is_candidate(rows, post_id, j)
        ==> #[trigger] sel.contains(j)))
    &&& forall|k: int, j: int|
        #![trigger sel[k], sel.contains(j)]
        0 <= k < sel.len() && is_candidate(rows, post_id, j) && !sel.contains(j) ==> ranked_before(
            rows,
            sel[k],
            j,
        )
}

/// How each listed `Opinion` reflects the selected rows: same id, same text,
/// and `voted` says whether `viewer` holds a vote on it.
pub open spec fn listing_matches(
    rows: Seq<OpinionRow>,
    votes: Seq<(i64, i64)>,
    viewer: i64,
    sel: Seq<int>,
    out: Seq<Opinion>,
) -> bool {
    &&& out.len() == sel.len()
    &&& forall|k: int| 0 <= k < out.len() ==> {
        let row = rows[sel[k]];
        (#[trigger] out[k]).id == row.id && out[k].opinion@ == row.text@ && out[k].voted
            == votes.contains((viewer, row.id))
    }
}

impl OpinionBoard {
    fn top_indices(&self, post_id: i64, n: usize) -> (sel: Vec<usize>)
        ensures
            is_top_selection(
                self.rows(),
                post_id,
                n as int,
                sel@.map_values(|u: usize| u as int),
            ),
            forall|k: int| 0 <= k < sel@.len() ==> (#[trigger] sel@[k]) < self.rows().len(),
    {
        let rows_len = self.rows.len();
        let mut all: Vec<usize> = Vec::new();
        let mut i: usize = 0;
        while i < rows_len
            invariant
                rows_len == self.rows().len(),
                i <= rows_len,
                forall|k: int| 0 <= k < all@.len() ==> (#[trigger] all@[k]) < i,
                forall|k: int| 0 <= k < all@.len() ==> is_candidate(
                    self.rows(),
                    post_id,
                    #[trigger] all@[k] as int,
                ),
                forall|k1: int, k2: int| 0 <= k1 < k2 < all@.len() ==> ranked_before(
                    self.rows(),
                    all@[k1] as int,
                    all@[k2] as int,
                ),
                forall|j: usize| j < i && is_candidate(self.rows(), post_id, j as int)
                    ==> #[trigger] all@.contains(j),
            decreases rows_len - i,
        {
            if self.rows[i].post_id == post_id {
                let mine = self.rows[i].votes;
                let mut p: usize = 0;
                while p < all.len() && self.rows[all[p]].votes >= mine
                    invariant
                        p <= all@.len(),
                        rows_len == self.rows().len(),
                        i < rows_len,
                        mine == self.rows()[i as int].votes,
                        is_candidate(self.rows(), post_id, i as int),
                        forall|k: int| 0 <= k < all@.len() ==> (#[trigger] all@[k]) < i,
                        forall|k: int| 0 <= k < all@.len() ==> is_candidate(
                            self.rows(),
                            post_id,
                            #[trigger] all@[k] as int,
                        ),
                        forall|k1: int, k2: int| 0 <= k1 < k2 < all@.len() ==> ranked_before(
                            self.rows(),
                            all@[k1] as int,
                            all@[k2] as int,
                        ),
                        forall|j: usize| j < i && is_candidate(self.rows(), post_id, j as int)
                            ==> #[trigger] all@.contains(j),
                        forall|k: int| 0 <= k < p ==> (#[trigger] self.rows()[all@[k] as int]).votes
                            >= mine,
                    decreases all@.len() - p,
                {
                    p = p + 1;
                }
                let ghost before = all@;
                all.insert(p, i);
                proof {
                    crate::seq_facts::lemma_insert_contains(before, p as int, i);
                    assert forall|k: int| 0 <= k < all@.len() implies (#[trigger] all@[k]) < i
                        + 1 by {
                        if k < p {
                            assert(all@[k] == before[k]);
                        } else if k > p {
                            assert(all@[k] == before[k - 1]);
                        }
                    }
                    assert forall|k: int| 0 <= k < all@.len() implies is_candidate(
                        self.rows(),
                        post_id,
                        #[trigger] all@[k] as int,
                    ) by {
                        if k < p {
                            assert(all@[k] == before[k]);
                        } else if k > p {
                            assert(all@[k] == before[k - 1]);
                        }
                    }
                    assert forall|k1: int, k2: int| 0 <= k1 < k2 < all@.len() implies ranked_before(
                        self.rows(),
                        all@[k1] as int,
                        all@[k2] as int,
                    ) by {
                        if k1 < p {
                            assert(all@[k1] == before[k1]);
                        } else if k1 > p {
                            assert(all@[k1] == before[k1 - 1]);
                        }
                        if k2 < p {
                            assert(all@[k2] == before[k2]);
                        } else if k2 > p {
                            assert(all@[k2] == before[k2 - 1]);
                        }
                        if k1 == p && k2 > p {
                            assert(self.rows()[before[k2 - 1] as int].votes <= self.rows()[before[p
                                as int] as int].votes) by {
                                if k2 - 1 > p {
                                    assert(ranked_before(
                                        self.rows(),
                                        before[p as int] as int,
                                        before[k2 - 1] as int,
                                    ));
                                }
                            }
                        }
                    }
                    assert forall|j: usize| j < i + 1 && is_candidate(
                        self.rows(),
                        post_id,
                        j as int,
                    ) implies #[trigger] all@.contains(j) by {
                        if j < i {
                            assert(before.contains(j));
                        }
                    }
                }
            }
            i = i + 1;
        }
        let ghost full = all@;
        if all.len() > n {
            all.truncate(n);
        }
        proof {
            let sel = all@.map_values(|u: usize| u as int);
            assert(all@ =~= full.subrange(0, all@.len() as int));
            assert forall|k1: int, k2: int| 0 <= k1 < k2 < sel.len() implies ranked_before(
                self.rows(),
                sel[k1],
                sel[k2],
            ) by {
                assert(all@[k1] == full[k1]);
                assert(all@[k2] == full[k2]);
            }
            if sel.len() < n {
                assert forall|j: int| is_candidate(self.rows(), post_id, j)
                    implies #[trigger] sel.contains(j) by {
                    assert(full.contains(j as usize));
                    let k = choose|k: int| 0 <= k < full.len() && full[k] == j as usize;
                    assert(all@[k] == j as usize);
                    assert(sel[k] == j);
                }
            }
            assert forall|k: int, j: int|
                #![trigger sel[k], sel.contains(j)]
                0 <= k < sel.len() && is_candidate(self.rows(), post_id, j) && !sel.contains(
                    j,
                ) implies ranked_before(self.rows(), sel[k], j) by {
                assert(full.contains(j as usize));
                let m = choose|m: int| 0 <= m < full.len() && full[m] == j as usize;
                if m < sel.len() {
                    assert(sel[m] == j);
                    assert(sel.contains(j));
                } else {
                    if k < m {
                        assert(ranked_before(self.rows(), full[k] as int, full[m] as int));
                    }
                }
            }
        }
        all
    }

    /// The opinions of `post_id` ranked by vote count, most votes first and
    /// ties broken by insertion order, cut to the best `n`; `voted` says for
    /// each whether `viewer` holds a vote on it.
    pub fn top(&self, post_id: i64, n: usize, viewer: i64) -> (r: Vec<Opinion>)
        ensures
            (exists|sel: Seq<int>|
                #[trigger] is_top_selection(self.rows(), post_id, n as int, sel)
                    && listing_matches(self.rows(), self.votes(), viewer, sel, r@)),
    {
        let sel = self.top_indices(post_id, n);
        let ghost gsel = sel@.map_values(|u: usize| u as int);
        let mut out: Vec<Opinion> = Vec::new();
        let m = sel.len();
        let mut k: usize = 0;
        while k < m
            invariant
                m == sel@.len(),
                k <= m,
                out@.len() == k,
                gsel == sel@.map_values(|u: usize| u as int),
                forall|q: int| 0 <= q < sel@.len() ==> (#[trigger] sel@[q]) < self.rows().len(),
                forall|q: int| 0 <= q < k ==> {
                    let row = self.rows()[gsel[q]];
                    (#[trigger] out@[q]).id == row.id && out@[q].opinion@ == row.text@
                        && out@[q].voted == self.votes().contains((viewer, row.id))
                },
            decreases m - k,
        {
            let idx = sel[k];
            let text = self.rows[idx].text.clone();
            let id = self.rows[idx].id;
            let voted = match self.find_vote(viewer, id) {
                Some(_) => true,
                None => false,
            };
            proof {
                if voted {
                    assert(self.votes().contains((viewer, id)));
                }
            }
            out.push(Opinion { opinion: text, id, voted });
            k = k + 1;
        }
        proof {
            assert(is_top_selection(self.rows(), post_id, n as int, gsel));
            assert(listing_matches(self.rows(), self.votes(), viewer, gsel, out@));
        }
        out
    }
}

impl Opinion {
    /// The five highest-voted opinions of `post_id`, as `top` ranks them.
    pub fn get_post_opinions(board: &OpinionBoard, post_id: i64, viewer: i64) -> (r: Vec<Opinion>)
        ensures
            (exists|sel: Seq<int>|
                #[trigger] is_top_selection(board.rows(), post_id, 5, sel) && listing_matches(
                    board.rows(),
                    board.votes(),
                    viewer,
                    sel,
                    r@,
                )),
    {
        board.top(post_id, 5, viewer)
    }
}

/// Law: an opinion of a post that holds at most `n` opinions — in particular
/// one just created, with its creator's single auto-vote — appears in every
/// top-`n` selection for that post. (On a post already holding `n` opinions
/// that each outrank it, a new opinion is not listed: five opinions with two
/// votes each crowd out a sixth with one.)
pub proof fn lemma_created_opinion_listed(
    rows: Seq<OpinionRow>,
    post_id: i64,
    n: int,
    sel: Seq<int>,
    j: int,
)
    requires
        is_top_selection(rows, post_id, n, sel),
        is_candidate(rows, post_id, j),
        cand_set(rows, post_id).len() <= n,
    ensures
        sel.contains(j),
{
    if sel.len() < n {
        assert(sel.contains(j));
    } else if !sel.contains(j) {
        assert(sel.no_duplicates()) by {
            assert forall|k1: int, k2: int| 0 <= k1 < k2 < sel.len() implies sel[k1] != sel[k2] by {
                assert(ranked_before(rows, sel[k1], sel[k2]));
            }
        }
        sel.unique_seq_to_set();
        let cands = cand_set(rows, post_id);
        vstd::set_lib::lemma_int_range(0, rows.len() as int);
        vstd::set_lib::lemma_len_subset(cands, vstd::set_lib::set_int_range(0, rows.len() as int));
        let bigger = sel.to_set().insert(j);
        assert(sel.to_set().subset_of(cands)) by {
            assert forall|x: int| sel.to_set().contains(x) implies cands.contains(x) by {
                let k = choose|k: int| 0 <= k < sel.len() && sel[k] == x;
                assert(is_candidate(rows, post_id, sel[k]));
            }
        }
        vstd::set_lib::lemma_len_subset(sel.to_set(), cands);
        assert(bigger.subset_of(cands));
        vstd::set_lib::lemma_len_subset(bigger, cands);
        assert(bigger.len() == sel.to_set().len() + 1);
        assert(false);
    }
}

/// A vote count never exceeds the number of vote rows.
proof fn lemma_vote_count_le_len(votes: Seq<(i64, i64)>, id: i64)
    ensures
        vote_count(votes, id) <= votes.len(),
    decreases votes.len(),
{
    if votes.len() > 0 {
        lemma_vote_count_le_len(votes.drop_last(), id);
    }
}

proof fn lemma_vote_count_remove(votes: Seq<(i64, i64)>, i: int, id: i64)
    requires
        0 <= i < votes.len(),
    ensures
        vote_count(votes.remove(i), id) + (if votes[i].1 == id {
            1nat
        } else {
            0nat
        }) == vote_count(votes, id),
    decreases votes.len(),
{
    if i == votes.len() - 1 {
        assert(votes.remove(i) =~= votes.drop_last());
    } else {
        assert(votes.remove(i).drop_last() =~= votes.drop_last().remove(i));
        assert(votes.remove(i).last() == votes.last());
        lemma_vote_count_remove(votes.drop_last(), i, id);
    }
}

/// Removing a vote row lowers exactly the count of the opinion it names.
proof fn lemma_vote_count_remove_all(votes: Seq<(i64, i64)>, i: int)
    requires
        0 <= i < votes.len(),
    ensures
        forall|id: i64| #[trigger] vote_count(votes.remove(i), id) + (if votes[i].1 == id {
            1nat
        } else {
            0nat
        }) == vote_count(votes, id),
{
    assert forall|id: i64| #[trigger] vote_count(votes.remove(i), id) + (if votes[i].1 == id {
        1nat
    } else {
        0nat
    }) == vote_count(votes, id) by {
        lemma_vote_count_remove(votes, i, id);
    }
}

/// Creates an opinion on `post_id` for `actor_id`: validates the text, then
/// inserts the opinion with a vote counter of one together with the
/// creator's own vote, as one step. Fails with `Validation`, and changes
/// nothing, exactly when the text is invalid.
pub fn create(board: &mut OpinionBoard, post_id: i64, actor_id: i64, text: &str) -> (r: Result<
    i64,
    Error,
>)
    requires
        old(board).wf(),
        old(board).spec_next_id() < i64::MAX,
    ensures
        final(board).wf(),
        r is Ok <==> spec_opinion_valid(text@),
        r is Err ==> *final(board) == *old(board) && r == Result::<i64, Error>::Err(
            Error::Validation,
        ),
        r is Ok ==> {
            &&& r->Ok_0 == old(board).spec_next_id()
            &&& final(board).rows().drop_last() == old(board).rows()
            &&& final(board).rows().len() == old(board).rows().len() + 1
            &&& final(board).rows().last().id == old(board).spec_next_id()
            &&& final(board).rows().last().post_id == post_id
            &&& final(board).rows().last().text@ == lower_of(text@)
            &&& final(board).rows().last().votes == 1
            &&& final(board).votes() == old(board).votes().push(
                (actor_id, r->Ok_0),
            )
            &&& final(board).spec_next_id() == old(board).spec_next_id() + 1
        },
{
    let content = match Opinion::parse(text) {
        Some(c) => c,
        None => {
            return Err(Error::Validation);
        },
    };
    let id = board.next_id;
    let row = OpinionRow { id, post_id, text: content, votes: 1 };
    board.rows.push(row);
    board.votes.push((actor_id, id));
    board.next_id = id + 1;
    proof {
        let votes0 = old(board).votes();
        let votes1 = board.votes();
        assert(votes1.drop_last() =~= votes0);
        lemma_vote_count_push_all(votes0, (actor_id, id));
        lemma_vote_count_zero_when_unreferenced(votes0, id);
        assert(board.rows().drop_last() =~= old(board).rows());
        assert forall|i: int| 0 <= i < board.votes().len() implies board.votes()[i] != (
        actor_id,
        id,
        ) || i == board.votes().len() - 1 by {
            if i < board.votes().len() - 1 {
                assert(board.votes()[i] == votes0[i]);
            }
        }
        assert(board.votes().no_duplicates());
        assert forall|i: int| 0 <= i < board.rows().len() implies (
        #[trigger] board.rows()[i]).votes as nat == vote_count(board.votes(), board.rows()[i].id) by {
            if i < board.rows().len() - 1 {
                assert(board.rows()[i] == old(board).rows()[i]);
                assert(old(board).rows()[i].id != id);
            }
        }
    }
    Ok(id)
}

/// Appending a vote row raises exactly the count of the opinion it names.
proof fn lemma_vote_count_push_all(votes: Seq<(i64, i64)>, v: (i64, i64))
    ensures
        forall|id: i64| #[trigger] vote_count(votes.push(v), id) == vote_count(votes, id) + (
        if v.1 == id {
            1nat
        } else {
            0nat
        }),
{
    assert forall|id: i64| #[trigger] vote_count(votes.push(v), id) == vote_count(votes, id) + (
    if v.1 == id {
        1nat
    } else {
        0nat
    }) by {
        assert(votes.push(v).drop_last() =~= votes);
        assert(votes.push(v).last() == v);
    }
}

/// An opinion no vote row names has a vote count of zero.
proof fn lemma_vote_count_zero_when_unreferenced(votes: Seq<(i64, i64)>, id: i64)
    requires
        forall|i: int| 0 <= i < votes.len() ==> (#[trigger] votes[i]).1 != id,
    ensures
        vote_count(votes, id) == 0,
    decreases votes.len(),
{
    if votes.len() > 0 {
        assert(votes.last() == votes[votes.len() - 1]);
        assert(votes.drop_last() =~= votes.subrange(0, votes.len() - 1));
        lemma_vote_count_zero_when_unreferenced(votes.drop_last(), id);
    }
}

} // verus!
