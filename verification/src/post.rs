//! Posts: creation, content ingestion, and the like/bookmark toggles.
//!
//! Ingesting a post stores its row, links every tag of its content to a
//! deduplicated hashtag table, and keeps the reply counters synchronized:
//! each post's `total_replies` always equals the number of stored posts that
//! reply to it.

use vstd::prelude::*;

verus! {

use crate::error::Error;
use crate::toggle::{toggle_post, ToggleKind, ToggleStore};
use crate::tokenizer::spec_parse;

/// The two per-post boolean relations a user can toggle.
#[derive(Clone, Copy, Debug, PartialEq, Eq, Structural)]
pub enum PostBoolean {
    Like,
    Bookmark,
}

/// The relation kind a post boolean stands for.
pub open spec fn kind_of(b: PostBoolean) -> ToggleKind {
    match b {
        PostBoolean::Like => ToggleKind::Like,
        PostBoolean::Bookmark => ToggleKind::Bookmark,
    }
}

/// A highlighted slice of another post, shown with some context around it.
#[derive(Debug)]
pub struct PostCitation {
    /// The cited text with its context window.
    pub content_slice: String,
    /// Highlight start within `content_slice`.
    pub beginning: i32,
    /// Highlight end within `content_slice`.
    pub end: i32,
    /// Whether text was cut off before the window.
    pub ellipsis_left: bool,
    /// Whether text was cut off after the window.
    pub ellipsis_right: bool,
    pub post_id: i32,
    pub user_id: i32,
    pub displayname: String,
    pub handle: String,
}

/// One post row.
#[derive(Debug)]
pub struct Post {
    pub id: i64,
    /// The text content; tags and mentions are derived from it at ingestion.
    pub content: String,
    pub total_likes: i64,
    pub total_replies: i64,
    pub poster_id: i64,
    /// The post this one replies to, if any.
    pub replies_to: Option<i64>,
    pub citation: Option<PostCitation>,
    /// Creation time, milliseconds since the Unix epoch; zero until stored.
    pub created_at: i64,
}

/// How many of `posts` reply to the post with id `id`.
pub open spec fn reply_count(posts: Seq<Post>, id: i64) -> nat
    decreases posts.len(),
{
    if posts.len() == 0 {
        0
    } else {
        reply_count(posts.drop_last(), id) + (if posts.last().replies_to == Some(id) {
            1nat
        } else {
            0nat
        })
    }
}

/// Whether some post in `posts` has id `id`.
pub open spec fn contains_post_id(posts: Seq<Post>, id: i64) -> bool {
    exists|i: int| 0 <= i < posts.len() && (#[trigger] posts[i]).id == id
}

/// The texts of a hashtag table.
pub open spec fn tag_texts(tags: Seq<String>) -> Set<Seq<char>>
    decreases tags.len(),
{
    if tags.len() == 0 {
        Set::empty()
    } else {
        tag_texts(tags.drop_last()).insert(tags.last()@)
    }
}

/// The link table joined with the hashtag table: which post carries which
/// tag text.
pub open spec fn link_texts(links: Seq<(i64, usize)>, tags: Seq<String>) -> Set<(i64, Seq<char>)>
    decreases links.len(),
{
    if links.len() == 0 {
        Set::empty()
    } else {
        link_texts(links.drop_last(), tags).insert(
            (links.last().0, tags[links.last().1 as int]@),
        )
    }
}

/// The stored posts, the deduplicated hashtag table, and the links between
/// them.
pub struct PostStore {
    posts: Vec<Post>,
    next_post_id: i64,
    hashtags: Vec<String>,
    post_hashtags: Vec<(i64, usize)>,
}

impl PostStore {
    /// The stored posts, in insertion order.
    pub closed spec fn posts(self) -> Seq<Post> {
        self.posts@
    }

    /// The id the next stored post gets.
    pub closed spec fn spec_next_post_id(self) -> int {
        self.next_post_id as int
    }

    /// The distinct tag texts the store knows.
    pub closed spec fn tag_set(self) -> Set<Seq<char>> {
        tag_texts(self.hashtags@)
    }

    /// Which post carries which tag text.
    pub closed spec fn link_set(self) -> Set<(i64, Seq<char>)> {
        link_texts(self.post_hashtags@, self.hashtags@)
    }

    /// The post rows are well-formed: ids distinct and below the id counter,
    /// every reply counter equal to its reply-row count, and reply references
    /// to issued ids only.
    pub closed spec fn posts_wf(self) -> bool {
        &&& 0 <= self.next_post_id
        &&& forall|i: int, j: int|
            0 <= i < j < self.posts@.len() ==> self.posts@[i].id != self.posts@[j].id
        &&& forall|i: int| 0 <= i < self.posts@.len() ==> 0 <= (#[trigger] self.posts@[i]).id
            < self.next_post_id
        &&& forall|i: int| 0 <= i < self.posts@.len() ==> (#[trigger] self.posts@[i]).total_replies
            == reply_count(self.posts@, self.posts@[i].id)
        &&& forall|i: int| 0 <= i < self.posts@.len() ==> ((#[trigger] self.posts@[i]).replies_to
            matches Some(v) ==> 0 <= v < self.next_post_id)
    }

    /// The hashtag table and links are well-formed: tag texts distinct, and
    /// links referring into the hashtag table.
    pub closed spec fn tags_wf(self) -> bool {
        &&& forall|i: int, j: int|
            0 <= i < j < self.hashtags@.len() ==> self.hashtags@[i]@ != self.hashtags@[j]@
        &&& forall|i: int| 0 <= i < self.post_hashtags@.len() ==> (
        #[trigger] self.post_hashtags@[i]).1 < self.hashtags@.len()
    }

    /// Well-formed: post rows and hashtag table both well-formed.
    pub closed spec fn wf(self) -> bool {
        self.posts_wf() && self.tags_wf()
    }

    /// An empty store.
    pub fn new() -> (s: PostStore)
        ensures
            s.wf(),
            s.posts().len() == 0,
            s.spec_next_post_id() == 0,
            s.tag_set() == Set::<Seq<char>>::empty(),
            s.link_set() == Set::<(i64, Seq<char>)>::empty(),
    {
        PostStore {
            posts: Vec::new(),
            next_post_id: 0,
            hashtags: Vec::new(),
            post_hashtags: Vec::new(),
        }
    }

    /// The id the next stored post gets.
    pub fn next_id(&self) -> (r: i64)
        ensures
            r == self.spec_next_post_id(),
    {
        self.next_post_id
    }

    /// The number of stored posts.
    pub fn post_count(&self) -> (r: usize)
        ensures
            r == self.posts().len(),
    {
        self.posts.len()
    }

    /// The reply counter of the post with id `id`, if it is stored.
    pub fn total_replies_of(&self, id: i64) -> (r: Option<i64>)
        ensures
            match r {
                Some(v) => contains_post_id(self.posts(), id) && exists|i: int|
                    0 <= i < self.posts().len() && (#[trigger] self.posts()[i]).id == id
                        && self.posts()[i].total_replies == v,
                None => !contains_post_id(self.posts(), id),
            },
    {
        match self.find_post(id) {
            Some(i) => {
                proof {
                    assert((self.posts()[i as int]).id == id);
                    assert((self.posts()[i as int]).total_replies == self.posts@[i as int].total_replies);
                }
                Some(self.posts[i].total_replies)
            },
            None => None,
        }
    }

    /// Whether the store knows the tag text of `tag`.
    pub fn has_tag(&self, tag: &String) -> (r: bool)
        ensures
            r == self.tag_set().contains(tag@),
    {
        match self.find_hashtag(tag) {
            Some(i) => {
                proof {
                    lemma_tag_texts_contains(self.hashtags@, i as int);
                }
                true
            },
            None => {
                proof {
                    lemma_tag_texts_only(self.hashtags@, tag@);
                }
                false
            },
        }
    }

    /// Whether the post with id `pid` carries the tag text of `tag`.
    pub fn post_has_tag(&self, pid: i64, tag: &String) -> (r: bool)
        requires
            self.wf(),
        ensures
            r == self.link_set().contains((pid, tag@)),
    {
        let n = self.post_hashtags.len();
        let mut i: usize = 0;
        while i < n
            invariant
                self.wf(),
                n == self.post_hashtags@.len(),
                i <= n,
                forall|j: int| 0 <= j < i ==> !((#[trigger] self.post_hashtags@[j]).0 == pid
                    && self.hashtags@[self.post_hashtags@[j].1 as int]@ == tag@),
            decreases n - i,
        {
            let l = self.post_hashtags[i];
            proof {
                assert(l.1 < self.hashtags@.len());
            }
            if l.0 == pid && self.hashtags[l.1].eq(tag) {
                proof {
                    lemma_link_texts_contains(self.post_hashtags@, self.hashtags@, i as int);
                }
                return true;
            }
            i = i + 1;
        }
        proof {
            lemma_link_texts_only(self.post_hashtags@, self.hashtags@, (pid, tag@));
        }
        false
    }

    fn find_post(&self, id: i64) -> (idx: Option<usize>)
        ensures
            match idx {
                Some(i) => i < self.posts@.len() && self.posts@[i as int].id == id,
                None => !contains_post_id(self.posts@, id),
            },
    {
        let n = self.posts.len();
        let mut i: usize = 0;
        while i < n
            invariant
                n == self.posts@.len(),
                i <= n,
                forall|j: int| 0 <= j < i ==> (#[trigger] self.posts@[j]).id != id,
            decreases n - i,
        {
            if self.posts[i].id == id {
                return Some(i);
            }
            i = i + 1;
        }
        None
    }

    fn find_hashtag(&self, tag: &String) -> (idx: Option<usize>)
        ensures
            match idx {
                Some(i) => i < self.hashtags@.len() && self.hashtags@[i as int]@ == tag@,
                None => forall|j: int| 0 <= j < self.hashtags@.len() ==> (
                #[trigger] self.hashtags@[j])@ != tag@,
            },
    {
        let n = self.hashtags.len();
        let mut i: usize = 0;
        while i < n
            invariant
                n == self.hashtags@.len(),
                i <= n,
                forall|j: int| 0 <= j < i ==> (#[trigger] self.hashtags@[j])@ != tag@,
            decreases n - i,
        {
            if self.hashtags[i].eq(tag) {
                return Some(i);
            }
            i = i + 1;
        }
        None
    }

    fn has_link(&self, link: (i64, usize)) -> (r: bool)
        ensures
            r == self.post_hashtags@.contains(link),
    {
        let n = self.post_hashtags.len();
        let mut i: usize = 0;
        while i < n
            invariant
                n == self.post_hashtags@.len(),
                i <= n,
                forall|j: int| 0 <= j < i ==> self.post_hashtags@[j] != link,
            decreases n - i,
        {
            let l = self.post_hashtags[i];
            if l.0 == link.0 && l.1 == link.1 {
                return true;
            }
            i = i + 1;
        }
        false
    }
}

impl Post {
    /// A post as submitted, before the store assigns its id and creation
    /// time: counters zero, id zero.
    pub fn new(
        poster_id: i64,
        content: String,
        replies_to: Option<i64>,
        citation: Option<PostCitation>,
    ) -> (p: Post)
        ensures
            p.id == 0,
            p.content == content,
            p.total_likes == 0,
            p.total_replies == 0,
            p.poster_id == poster_id,
            p.replies_to == replies_to,
            p.citation == citation,
            p.created_at == 0,
    {
        Post {
            id: 0,
            content,
            total_likes: 0,
            total_replies: 0,
            poster_id,
            replies_to,
            citation,
            created_at: 0,
        }
    }

    /// The ordered tags and mentions of this post's content.
    pub fn hashtags_and_mentions(&self) -> (r: (Vec<String>, Vec<String>))
        ensures
            r.0.deep_view() == spec_parse(self.content@).tags,
            r.1.deep_view() == spec_parse(self.content@).mentions,
    {
        crate::tokenizer::parse(self.content.as_str())
    }

    /// Sets the like or bookmark relation between `toggler_id` and the post
    /// to `to`, with its counter, in one indivisible transition; returns
    /// whether anything changed.
    pub fn set_boolean(
        b: PostBoolean,
        store: &mut ToggleStore,
        to: bool,
        toggler_id: i64,
        post_id: i32,
    ) -> (changed: bool)
        requires
            old(store).wf(),
        ensures
            toggle_post(*old(store), *final(store), kind_of(b), toggler_id, post_id as i64, to),
            changed == (old(store).spec_has(kind_of(b), toggler_id, post_id as i64) != to),
    {
        let kind = match b {
            PostBoolean::Like => ToggleKind::Like,
            PostBoolean::Bookmark => ToggleKind::Bookmark,
        };
        store.toggle(kind, toggler_id, post_id as i64, to)
    }

    /// Stores the post: assigns it the next id, writes the row, bumps the
    /// replied-to post's reply counter, and links every tag of the content
    /// into the deduplicated hashtag table — one atomic unit. Fails with
    /// `NotFound`, changing nothing, exactly when the post replies to an id
    /// that is not stored.
    pub fn insert_into(self, store: &mut PostStore) -> (r: Result<i64, Error>)
        requires
            old(store).wf(),
            old(store).spec_next_post_id() < i64::MAX,
        ensures
            final(store).wf(),
            r is Ok <==> (self.replies_to is None || contains_post_id(
                old(store).posts(),
                self.replies_to->0,
            )),
            r is Err ==> *final(store) == *old(store) && r == Result::<i64, Error>::Err(
                Error::NotFound,
            ),
            r is Ok ==> {
                let pid = r->Ok_0;
                &&& pid == old(store).spec_next_post_id()
                &&& final(store).spec_next_post_id() == old(store).spec_next_post_id() + 1
                &&& final(store).posts().len() == old(store).posts().len() + 1
                &&& final(store).posts().last().id == pid
                &&& final(store).posts().last().content == self.content
                &&& final(store).posts().last().total_likes == 0
                &&& final(store).posts().last().total_replies == 0
                &&& final(store).posts().last().poster_id == self.poster_id
                &&& final(store).posts().last().replies_to == self.replies_to
                &&& final(store).posts().last().citation == self.citation
                &&& forall|k: int| 0 <= k < old(store).posts().len() ==> {
                    let pre = #[trigger] old(store).posts()[k];
                    let post = final(store).posts()[k];
                    post.id == pre.id && post.content == pre.content && post.total_likes
                        == pre.total_likes && post.poster_id == pre.poster_id && post.replies_to
                        == pre.replies_to && post.citation == pre.citation && post.created_at
                        == pre.created_at && post.total_replies as int == pre.total_replies + (
                    if self.replies_to == Some(pre.id) {
                        1int
                    } else {
                        0int
                    })
                }
                &&& final(store).tag_set() == old(store).tag_set().union(
                    spec_parse(self.content@).tags.to_set(),
                )
                &&& final(store).link_set() == old(store).link_set().union(
                    spec_parse(self.content@).tags.to_set().map(|t: Seq<char>| (pid, t)),
                )
            },
    {
        let (tags, _mentions) = self.hashtags_and_mentions();
        let parent = match self.replies_to {
            Some(rt) => match store.find_post(rt) {
                Some(i) => Some(i),
                None => {
                    return Err(Error::NotFound);
                },
            },
            None => None,
        };
        let pid = store.next_post_id;
        let row = Post {
            id: pid,
            content: self.content,
            total_likes: 0,
            total_replies: 0,
            poster_id: self.poster_id,
            replies_to: self.replies_to,
            citation: self.citation,
            created_at: self.created_at,
        };
        let ghost rt_spec = row.replies_to;
        store.posts.push(row);
        store.next_post_id = pid + 1;
        let ghost pushed_posts = store.posts@;
        proof {
            lemma_reply_count_push_all(old(store).posts@, pushed_posts.last());
            lemma_no_reference_means_zero(old(store).posts@, pid);
            lemma_posts_len_le_next(old(store).posts@, old(store).next_post_id as int);
        }
        if let Some(pi) = parent {
            let v = store.posts[pi].total_replies;
            proof {
                assert(store.posts@[pi as int].total_replies == reply_count(
                    old(store).posts@,
                    store.posts@[pi as int].id,
                ));
                lemma_reply_count_le_len(old(store).posts@, store.posts@[pi as int].id);
            }
            store.posts[pi].total_replies = v + 1;
        }
        proof {
            lemma_reply_count_same_refs(store.posts@, pushed_posts);
            assert forall|i: int| 0 <= i < store.posts@.len() implies (
            #[trigger] store.posts@[i]).total_replies == reply_count(
                store.posts@,
                store.posts@[i].id,
            ) by {
                assert(reply_count(store.posts@, store.posts@[i].id) == reply_count(
                    pushed_posts,
                    store.posts@[i].id,
                ));
                assert(reply_count(pushed_posts, store.posts@[i].id) == reply_count(
                    old(store).posts@,
                    store.posts@[i].id,
                ) + (if rt_spec == Some(store.posts@[i].id) {
                    1nat
                } else {
                    0nat
                }));
                if i == store.posts@.len() - 1 {
                    assert(store.posts@[i] == pushed_posts[i]);
                    assert(store.posts@[i].id == pid);
                    assert(store.posts@[i].total_replies == 0);
                    assert(rt_spec matches Some(v) ==> v < pid);
                    assert(reply_count(old(store).posts@, pid) == 0);
                    assert(store.posts@[i].total_replies == reply_count(
                        store.posts@,
                        store.posts@[i].id,
                    ));
                } else {
                    assert(store.posts@[i].id == old(store).posts@[i].id);
                    assert(old(store).posts@[i].total_replies == reply_count(
                        old(store).posts@,
                        old(store).posts@[i].id,
                    ));
                    match parent {
                        Some(pi) => {
                            assert(old(store).posts@[pi as int].id == rt_spec->0);
                            if i == pi as int {
                                assert(rt_spec == Some(store.posts@[i].id));
                                assert(store.posts@[i].total_replies == old(
                                    store,
                                ).posts@[i].total_replies + 1);
                            } else {
                                assert(old(store).posts@[i].id != rt_spec->0);
                                assert(store.posts@[i] == old(store).posts@[i]);
                            }
                            assert(store.posts@[i].total_replies == reply_count(
                                store.posts@,
                                store.posts@[i].id,
                            ));
                        },
                        None => {
                            assert(rt_spec is None);
                            assert(store.posts@[i] == old(store).posts@[i]);
                            assert(store.posts@[i].total_replies == reply_count(
                                store.posts@,
                                store.posts@[i].id,
                            ));
                        },
                    }
                }
            }
        }
        let ghost mid_posts = store.posts@;
        let ghost mid_next = store.next_post_id;
        let ghost dv = tags.deep_view();
        let mut t: usize = 0;
        let tags_len = tags.len();
        proof {
            assert(dv.subrange(0, 0) =~= Seq::<Seq<char>>::empty());
            assert(dv.subrange(0, 0).to_set() =~= Set::<Seq<char>>::empty());
            assert(store.tag_set() =~= old(store).tag_set().union(dv.subrange(0, 0).to_set()));
            assert(store.link_set() =~= old(store).link_set().union(
                dv.subrange(0, 0).to_set().map(|x: Seq<char>| (pid, x)),
            ));
        }
        while t < tags_len
            invariant
                tags_len == tags@.len(),
                t <= tags_len,
                dv == tags.deep_view(),
                store.posts@ == mid_posts,
                store.next_post_id == mid_next,
                store.tags_wf(),
                store.tag_set() == old(store).tag_set().union(dv.subrange(0, t as int).to_set()),
                store.link_set() == old(store).link_set().union(
                    dv.subrange(0, t as int).to_set().map(|x: Seq<char>| (pid, x)),
                ),
            decreases tags_len - t,
        {
            let tag = &tags[t];
            proof {
                assert(dv[t as int] == tag@);
            }
            let hidx = match store.find_hashtag(tag) {
                Some(i) => {
                    proof {
                        lemma_tag_texts_contains(store.hashtags@, i as int);
                    }
                    i
                },
                None => {
                    let ghost tags0 = store.hashtags@;
                    store.hashtags.push(tag.clone());
                    proof {
                        assert(store.hashtags@.drop_last() =~= tags0);
                        assert(tag_texts(store.hashtags@) =~= tag_texts(tags0).insert(tag@));
                        lemma_link_texts_tags_push(store.post_hashtags@, tags0, tag@);
                        assert forall|i: int, j: int|
                            0 <= i < j < store.hashtags@.len() implies store.hashtags@[i]@
                            != store.hashtags@[j]@ by {
                            if j < store.hashtags@.len() - 1 {
                                assert(store.hashtags@[i] == tags0[i]);
                                assert(store.hashtags@[j] == tags0[j]);
                            } else {
                                assert(store.hashtags@[i] == tags0[i]);
                                lemma_tag_texts_contains(tags0, i);
                            }
                        }
                        assert(store.hashtags@.last()@ == tag@);
                        lemma_tag_texts_contains(store.hashtags@, store.hashtags@.len() - 1);
                    }
                    store.hashtags.len() - 1
                },
            };
            proof {
                assert(store.tag_set().contains(tag@));
                assert(store.hashtags@[hidx as int]@ == tag@);
            }
            let link = (pid, hidx);
            if store.has_link(link) {
                proof {
                    let k = choose|k: int|
                        0 <= k < store.post_hashtags@.len() && store.post_hashtags@[k] == link;
                    lemma_link_texts_contains(store.post_hashtags@, store.hashtags@, k);
                    assert(store.link_set().contains((pid, tag@)));
                }
            } else {
                let ghost links0 = store.post_hashtags@;
                store.post_hashtags.push(link);
                proof {
                    assert(store.post_hashtags@.drop_last() =~= links0);
                    assert(link_texts(store.post_hashtags@, store.hashtags@) =~= link_texts(
                        links0,
                        store.hashtags@,
                    ).insert((pid, tag@)));
                    assert forall|i: int| 0 <= i < store.post_hashtags@.len() implies (
                    #[trigger] store.post_hashtags@[i]).1 < store.hashtags@.len() by {
                        if i < store.post_hashtags@.len() - 1 {
                            assert(store.post_hashtags@[i] == links0[i]);
                        }
                    }
                    lemma_link_texts_contains(
                        store.post_hashtags@,
                        store.hashtags@,
                        store.post_hashtags@.len() - 1,
                    );
                    assert(store.link_set().contains((pid, tag@)));
                }
            }
            proof {
                assert(dv.subrange(0, t + 1) =~= dv.subrange(0, t as int).push(dv[t as int]));
                crate::seq_facts::lemma_to_set_push(dv.subrange(0, t as int), dv[t as int]);
                assert(store.tag_set() =~= old(store).tag_set().union(
                    dv.subrange(0, t + 1).to_set(),
                ));
                assert forall|y: (i64, Seq<char>)| store.link_set().contains(y) implies old(
                    store,
                ).link_set().union(
                    dv.subrange(0, t + 1).to_set().map(|x: Seq<char>| (pid, x)),
                ).contains(y) by {
                    if !old(store).link_set().contains(y) && y != ((pid, tag@)) {
                        let x = choose|x: Seq<char>|
                            #[trigger] dv.subrange(0, t as int).to_set().contains(x) && (pid, x)
                                == y;
                        assert(dv.subrange(0, t + 1).to_set().contains(x));
                    } else if y == ((pid, tag@)) {
                        assert(dv.subrange(0, t + 1).to_set().contains(tag@));
                    }
                }
                assert forall|y: (i64, Seq<char>)| old(store).link_set().union(
                    dv.subrange(0, t + 1).to_set().map(|x: Seq<char>| (pid, x)),
                ).contains(y) implies store.link_set().contains(y) by {
                    if !old(store).link_set().contains(y) {
                        let x = choose|x: Seq<char>|
                            #[trigger] dv.subrange(0, t + 1).to_set().contains(x) && (pid, x)
                                == y;
                        if x != tag@ {
                            assert(dv.subrange(0, t as int).to_set().contains(x));
                            assert(dv.subrange(0, t as int).to_set().map(
                                |z: Seq<char>| (pid, z),
                            ).contains(y));
                        }
                    }
                }
                assert(store.link_set() =~= old(store).link_set().union(
                    dv.subrange(0, t + 1).to_set().map(|x: Seq<char>| (pid, x)),
                ));
            }
            t = t + 1;
        }
        proof {
            assert(dv.subrange(0, tags_len as int) =~= dv);
        }
        Ok(pid)
    }
}

/// A table position's text is among the table's texts.
proof fn lemma_tag_texts_contains(tags: Seq<String>, i: int)
    requires
        0 <= i < tags.len(),
    ensures
        tag_texts(tags).contains(tags[i]@),
    decreases tags.len(),
{
    if i == tags.len() - 1 {
    } else {
        lemma_tag_texts_contains(tags.drop_last(), i);
    }
}

/// Every text in the table's texts sits at some table position.
proof fn lemma_tag_texts_only(tags: Seq<String>, x: Seq<char>)
    requires
        forall|i: int| 0 <= i < tags.len() ==> (#[trigger] tags[i])@ != x,
    ensures
        !tag_texts(tags).contains(x),
    decreases tags.len(),
{
    if tags.len() > 0 {
        assert(tags.last() == tags[tags.len() - 1]);
        lemma_tag_texts_only(tags.drop_last(), x);
    }
}

/// Every pair in the joined link texts comes from some link.
proof fn lemma_link_texts_only(links: Seq<(i64, usize)>, tags: Seq<String>, y: (i64, Seq<char>))
    requires
        forall|j: int| 0 <= j < links.len() ==> !((#[trigger] links[j]).0 == y.0
            && tags[links[j].1 as int]@ == y.1),
    ensures
        !link_texts(links, tags).contains(y),
    decreases links.len(),
{
    if links.len() > 0 {
        assert(links.last() == links[links.len() - 1]);
        lemma_link_texts_only(links.drop_last(), tags, y);
    }
}

/// A link's joined pair is among the joined link texts.
proof fn lemma_link_texts_contains(links: Seq<(i64, usize)>, tags: Seq<String>, k: int)
    requires
        0 <= k < links.len(),
    ensures
        link_texts(links, tags).contains((links[k].0, tags[links[k].1 as int]@)),
    decreases links.len(),
{
    if k == links.len() - 1 {
    } else {
        lemma_link_texts_contains(links.drop_last(), tags, k);
    }
}

/// Growing the hashtag table does not change the join of existing links.
proof fn lemma_link_texts_tags_push(links: Seq<(i64, usize)>, tags: Seq<String>, t: Seq<char>)
    requires
        forall|i: int| 0 <= i < links.len() ==> (#[trigger] links[i]).1 < tags.len(),
    ensures
        forall|nt: String| nt@ == t ==> link_texts(links, tags.push(nt)) == link_texts(
            links,
            tags,
        ),
    decreases links.len(),
{
    assert forall|nt: String| nt@ == t implies link_texts(links, tags.push(nt)) == link_texts(
        links,
        tags,
    ) by {
        if links.len() > 0 {
            assert(links.drop_last().len() == links.len() - 1);
            lemma_link_texts_tags_push(links.drop_last(), tags, t);
            assert(tags.push(nt)[links.last().1 as int] == tags[links.last().1 as int]);
        }
    }
}

/// Appending a post raises exactly the reply count of the post it replies to.
proof fn lemma_reply_count_push_all(posts: Seq<Post>, p: Post)
    ensures
        forall|id: i64| #[trigger] reply_count(posts.push(p), id) == reply_count(posts, id) + (
        if p.replies_to == Some(id) {
            1nat
        } else {
            0nat
        }),
{
    assert forall|id: i64| #[trigger] reply_count(posts.push(p), id) == reply_count(posts, id) + (
    if p.replies_to == Some(id) {
        1nat
    } else {
        0nat
    }) by {
        assert(posts.push(p).drop_last() =~= posts);
        assert(posts.push(p).last() == p);
    }
}

/// A post nothing replies to has a reply count of zero.
proof fn lemma_no_reference_means_zero(posts: Seq<Post>, id: i64)
    requires
        forall|i: int| 0 <= i < posts.len() ==> (#[trigger] posts[i]).replies_to != Some(id),
    ensures
        reply_count(posts, id) == 0,
    decreases posts.len(),
{
    if posts.len() > 0 {
        assert(posts.last() == posts[posts.len() - 1]);
        lemma_no_reference_means_zero(posts.drop_last(), id);
    }
}

/// Reply counts depend only on the `replies_to` fields.
proof fn lemma_reply_count_same_refs(a: Seq<Post>, b: Seq<Post>)
    requires
        a.len() == b.len(),
        forall|i: int| 0 <= i < a.len() ==> a[i].replies_to == b[i].replies_to,
    ensures
        forall|id: i64| #[trigger] reply_count(a, id) == reply_count(b, id),
    decreases a.len(),
{
    if a.len() > 0 {
        assert(a.last().replies_to == b.last().replies_to);
        lemma_reply_count_same_refs(a.drop_last(), b.drop_last());
        assert forall|id: i64| #[trigger] reply_count(a, id) == reply_count(b, id) by {
            assert(reply_count(a.drop_last(), id) == reply_count(b.drop_last(), id));
        }
    }
}

/// A reply count never exceeds the number of posts.
proof fn lemma_reply_count_le_len(posts: Seq<Post>, id: i64)
    ensures
        reply_count(posts, id) <= posts.len(),
    decreases posts.len(),
{
    if posts.len() > 0 {
        lemma_reply_count_le_len(posts.drop_last(), id);
    }
}

/// With distinct ids all below `next`, there are at most `next` posts.
proof fn lemma_posts_len_le_next(posts: Seq<Post>, next: int)
    requires
        0 <= next,
        forall|i: int, j: int| 0 <= i < j < posts.len() ==> posts[i].id != posts[j].id,
        forall|i: int| 0 <= i < posts.len() ==> 0 <= (#[trigger] posts[i]).id < next,
    ensures
        posts.len() <= next,
{
    let ids = posts.map_values(|p: Post| p.id as int);
    assert(ids.no_duplicates());
    ids.unique_seq_to_set();
    vstd::set_lib::lemma_int_range(0, next);
    assert(ids.to_set().subset_of(vstd::set_lib::set_int_range(0, next))) by {
        assert forall|x: int| ids.to_set().contains(x) implies vstd::set_lib::set_int_range(
            0,
            next,
        ).contains(x) by {
            let i = choose|i: int| 0 <= i < ids.len() && ids[i] == x;
            assert(posts[i].id as int == x);
        }
    }
    vstd::set_lib::lemma_len_subset(ids.to_set(), vstd::set_lib::set_int_range(0, next));
}

} // verus!
