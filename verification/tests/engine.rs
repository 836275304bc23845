use content_engine::error::Error;
use content_engine::opinion::{create, Opinion, OpinionBoard};
use content_engine::post::{Post, PostBoolean, PostStore};
use content_engine::quota::{
    get_tomatoes, reset_daily_tomatoes, throw_tomato, throw_tomato_at_clock, QuotaState, WINDOW_MS,
};
use content_engine::toggle::{ToggleKind, ToggleStore};
use content_engine::tokenizer::parse;
use content_engine::user::User;

fn strs(v: &[&str]) -> Vec<String> {
    v.iter().map(|s| s.to_string()).collect()
}

#[test]
fn parse_empty_yields_nothing() {
    let (tags, mentions) = parse("");
    assert_eq!(tags, strs(&[]));
    assert_eq!(mentions, strs(&[]));
}

#[test]
fn parse_extracts_adjacent_tags_and_mentions() {
    let (tags, mentions) = parse("Hello #Tag1#Tag2 @User1 rest.");
    assert_eq!(tags, strs(&["tag1", "tag2"]));
    assert_eq!(mentions, strs(&["user1"]));
}

#[test]
fn parse_alternating_markers() {
    let (tags, mentions) = parse("#a@b#c");
    assert_eq!(tags, strs(&["a", "c"]));
    assert_eq!(mentions, strs(&["b"]));
}

#[test]
fn parse_without_markers_yields_nothing() {
    let (tags, mentions) = parse("no markers here");
    assert_eq!(tags, strs(&[]));
    assert_eq!(mentions, strs(&[]));
}

#[test]
fn parse_case_folds_tokens() {
    let (tags, mentions) = parse("#ABC @DeF");
    assert_eq!(tags, strs(&["abc"]));
    assert_eq!(mentions, strs(&["def"]));
}

#[test]
fn parse_commits_at_end_of_input() {
    let (tags, mentions) = parse("tail #tag");
    assert_eq!(tags, strs(&["tag"]));
    assert_eq!(mentions, strs(&[]));
}

#[test]
fn parse_bare_marker_writes_nothing() {
    let (tags, mentions) = parse("# @ ##");
    assert_eq!(tags, strs(&[]));
    assert_eq!(mentions, strs(&[]));
}

#[test]
fn parse_punctuation_terminates_token() {
    let (tags, mentions) = parse("#one,two @x.y");
    assert_eq!(tags, strs(&["one"]));
    assert_eq!(mentions, strs(&["x"]));
}

#[test]
fn parse_non_ascii_terminates_token() {
    let (tags, mentions) = parse("#t\u{e0}g1");
    assert_eq!(tags, strs(&["t"]));
    assert_eq!(mentions, strs(&[]));
}

#[test]
fn parse_marker_mid_word_starts_fresh_token() {
    let (tags, mentions) = parse("abc#def");
    assert_eq!(tags, strs(&["def"]));
    assert_eq!(mentions, strs(&[]));
}

#[test]
fn toggle_like_twice_is_once() {
    let mut store = ToggleStore::new();
    let first = store.toggle(ToggleKind::Like, 1, 2, true);
    assert!(first);
    assert!(store.has(ToggleKind::Like, 1, 2));
    assert_eq!(store.likes(2), 1);
    let second = store.toggle(ToggleKind::Like, 1, 2, true);
    assert!(!second);
    assert!(store.has(ToggleKind::Like, 1, 2));
    assert_eq!(store.likes(2), 1);
}

#[test]
fn toggle_like_then_unlike_restores_counter() {
    let mut store = ToggleStore::new();
    store.toggle(ToggleKind::Like, 9, 4, true);
    store.toggle(ToggleKind::Like, 7, 4, true);
    assert_eq!(store.likes(4), 2);
    store.toggle(ToggleKind::Like, 7, 4, false);
    assert_eq!(store.likes(4), 1);
    assert!(!store.has(ToggleKind::Like, 7, 4));
    assert!(store.has(ToggleKind::Like, 9, 4));
}

#[test]
fn repeated_enable_counts_once() {
    let mut store = ToggleStore::new();
    for _ in 0..5 {
        store.toggle(ToggleKind::Like, 1, 2, true);
    }
    assert_eq!(store.likes(2), 1);
    assert!(store.has(ToggleKind::Like, 1, 2));
}

#[test]
fn follow_updates_both_counters() {
    let mut store = ToggleStore::new();
    let changed = User::set_following(&mut store, 1, 2, true);
    assert!(changed);
    assert_eq!(store.followers(2), 1);
    assert_eq!(store.following(1), 1);
    assert_eq!(store.followers(1), 0);
    assert_eq!(store.following(2), 0);
    User::set_following(&mut store, 1, 2, false);
    assert_eq!(store.followers(2), 0);
    assert_eq!(store.following(1), 0);
}

#[test]
fn bookmark_touches_no_counter() {
    let mut store = ToggleStore::new();
    let changed = Post::set_boolean(PostBoolean::Bookmark, &mut store, true, 3, 8);
    assert!(changed);
    assert!(store.has(ToggleKind::Bookmark, 3, 8));
    assert_eq!(store.likes(8), 0);
}

#[test]
fn set_like_via_post_boolean() {
    let mut store = ToggleStore::new();
    Post::set_boolean(PostBoolean::Like, &mut store, true, 3, 8);
    assert_eq!(store.likes(8), 1);
    Post::set_boolean(PostBoolean::Like, &mut store, false, 3, 8);
    assert_eq!(store.likes(8), 0);
}

#[test]
fn opinion_parse_bounds() {
    assert_eq!(Opinion::parse("aaaaaaaaaaaa"), Some("aaaaaaaaaaaa".to_string()));
    assert_eq!(Opinion::parse("aaaaaaaaaaaaa"), None);
    assert_eq!(Opinion::parse(""), None);
    assert_eq!(Opinion::parse("GrEaT"), Some("great".to_string()));
}

#[test]
fn opinion_parse_counts_grapheme_clusters() {
    // Twelve thumbs-up emoji are twelve clusters (48 bytes), accepted.
    let twelve = "\u{1f44d}\u{1f44d}\u{1f44d}\u{1f44d}\u{1f44d}\u{1f44d}\u{1f44d}\u{1f44d}\u{1f44d}\u{1f44d}\u{1f44d}\u{1f44d}";
    assert_eq!(Opinion::parse(twelve), Some(twelve.to_string()));
    let thirteen = format!("{}{}", twelve, "\u{1f44d}");
    assert_eq!(Opinion::parse(&thirteen), None);
}

#[test]
fn create_auto_votes_and_tops() {
    let mut board = OpinionBoard::new();
    let id = create(&mut board, 10, 7, "Amazing").unwrap();
    assert_eq!(board.votes_of(id), Some(1));
    assert!(board.voted(7, id));
    let listing = Opinion::get_post_opinions(&board, 10, 7);
    assert_eq!(listing.len(), 1);
    assert_eq!(listing[0].id, id);
    assert_eq!(listing[0].opinion, "amazing");
    assert!(listing[0].voted);
}

#[test]
fn create_rejects_invalid_text() {
    let mut board = OpinionBoard::new();
    assert_eq!(create(&mut board, 10, 7, ""), Err(Error::Validation));
    assert_eq!(create(&mut board, 10, 7, "far far too long text"), Err(Error::Validation));
    assert_eq!(board.opinion_count(), 0);
}

#[test]
fn set_vote_toggles_and_counts() {
    let mut board = OpinionBoard::new();
    let id = create(&mut board, 10, 7, "nice").unwrap();
    Opinion::set_vote(&mut board, 10, id, 8, true).unwrap();
    assert_eq!(board.votes_of(id), Some(2));
    // Voting again is a no-op.
    Opinion::set_vote(&mut board, 10, id, 8, true).unwrap();
    assert_eq!(board.votes_of(id), Some(2));
    Opinion::set_vote(&mut board, 10, id, 8, false).unwrap();
    assert_eq!(board.votes_of(id), Some(1));
    assert!(!board.voted(8, id));
}

#[test]
fn set_vote_missing_opinion_is_not_found() {
    let mut board = OpinionBoard::new();
    assert_eq!(Opinion::set_vote(&mut board, 10, 5, 8, true), Err(Error::NotFound));
    let id = create(&mut board, 10, 7, "ok").unwrap();
    // Right id, wrong post.
    assert_eq!(Opinion::set_vote(&mut board, 11, id, 8, true), Err(Error::NotFound));
}

#[test]
fn top_orders_by_votes_then_insertion() {
    let mut board = OpinionBoard::new();
    let a = create(&mut board, 10, 1, "first").unwrap();
    let b = create(&mut board, 10, 2, "second").unwrap();
    let c = create(&mut board, 10, 3, "third").unwrap();
    create(&mut board, 99, 4, "elsewhere").unwrap();
    // b gets two extra votes, c one.
    Opinion::set_vote(&mut board, 10, b, 5, true).unwrap();
    Opinion::set_vote(&mut board, 10, b, 6, true).unwrap();
    Opinion::set_vote(&mut board, 10, c, 5, true).unwrap();
    let listing = board.top(10, 5, 1);
    let ids: Vec<i64> = listing.iter().map(|o| o.id).collect();
    assert_eq!(ids, vec![b, c, a]);
    let two = board.top(10, 2, 1);
    let ids2: Vec<i64> = two.iter().map(|o| o.id).collect();
    assert_eq!(ids2, vec![b, c]);
}

#[test]
fn top_breaks_ties_by_insertion_order() {
    let mut board = OpinionBoard::new();
    let a = create(&mut board, 3, 1, "one").unwrap();
    let b = create(&mut board, 3, 2, "two").unwrap();
    let listing = board.top(3, 5, 1);
    let ids: Vec<i64> = listing.iter().map(|o| o.id).collect();
    assert_eq!(ids, vec![a, b]);
}

#[test]
fn five_tomatoes_then_exhausted() {
    let mut q = QuotaState::new(0);
    let mut post: u64 = 0;
    for k in 0..5 {
        assert_eq!(throw_tomato(&mut q, 1000 + k, &mut post), Ok(()));
    }
    assert_eq!(post, 5);
    assert_eq!(q.tomatoes, 0);
    assert_eq!(throw_tomato(&mut q, 2000, &mut post), Err(Error::QuotaExhausted));
    assert_eq!(post, 5);
}

#[test]
fn window_resets_exactly_once() {
    let mut q = QuotaState::new(0);
    q.tomatoes = 0;
    // Exactly the window length has not yet elapsed.
    reset_daily_tomatoes(&mut q, WINDOW_MS);
    assert_eq!(q.tomatoes, 0);
    // One past the window refills and re-anchors.
    reset_daily_tomatoes(&mut q, WINDOW_MS + 1);
    assert_eq!(q.tomatoes, 5);
    assert_eq!(q.last_reset, WINDOW_MS + 1);
    // A concurrent check serialized right after sees a fresh window.
    let anchored = q.last_reset;
    reset_daily_tomatoes(&mut q, WINDOW_MS + 2);
    assert_eq!(q.tomatoes, 5);
    assert_eq!(q.last_reset, anchored);
}

#[test]
fn get_tomatoes_reports_remaining_and_deadline() {
    let mut q = QuotaState::new(1000);
    let mut post: u64 = 0;
    throw_tomato(&mut q, 2000, &mut post).unwrap();
    let (left, until) = get_tomatoes(&mut q, 3000);
    assert_eq!(left, 4);
    assert_eq!(until, (1000 + WINDOW_MS - 3000) / 1000);
}

#[test]
fn throw_tomato_at_clock_consumes_now() {
    // The last refill is at the epoch, so the real clock is past the window:
    // the throw refills to five and consumes one.
    let mut q = QuotaState::new(0);
    q.tomatoes = 0;
    let mut post: u64 = 0;
    assert_eq!(throw_tomato_at_clock(&mut q, &mut post), Ok(()));
    assert_eq!(q.tomatoes, 4);
    assert_eq!(post, 1);
}

#[test]
fn insert_links_folded_tags() {
    let mut store = PostStore::new();
    let post = Post::new(1, "Hello #Rust#Verus world".to_string(), None, None);
    let id = post.insert_into(&mut store).unwrap();
    assert_eq!(id, 0);
    assert_eq!(store.post_count(), 1);
    assert!(store.has_tag(&"rust".to_string()));
    assert!(store.has_tag(&"verus".to_string()));
    assert!(!store.has_tag(&"Rust".to_string()));
    assert!(!store.has_tag(&"hello".to_string()));
    assert!(store.post_has_tag(0, &"rust".to_string()));
    assert!(!store.post_has_tag(1, &"rust".to_string()));
}

#[test]
fn insert_repeated_tag_links_once() {
    let mut store = PostStore::new();
    let post = Post::new(1, "#a #a #A".to_string(), None, None);
    let id = post.insert_into(&mut store).unwrap();
    assert!(store.post_has_tag(id, &"a".to_string()));
}

#[test]
fn reply_bumps_parent_counter() {
    let mut store = PostStore::new();
    let root = Post::new(1, "root".to_string(), None, None).insert_into(&mut store).unwrap();
    assert_eq!(store.total_replies_of(root), Some(0));
    let reply = Post::new(2, "reply".to_string(), Some(root), None).insert_into(&mut store);
    assert_eq!(reply, Ok(1));
    assert_eq!(store.total_replies_of(root), Some(1));
    Post::new(3, "another".to_string(), Some(root), None).insert_into(&mut store).unwrap();
    assert_eq!(store.total_replies_of(root), Some(2));
}

#[test]
fn reply_to_missing_post_is_not_found() {
    let mut store = PostStore::new();
    let r = Post::new(1, "dangling".to_string(), Some(99), None).insert_into(&mut store);
    assert_eq!(r, Err(Error::NotFound));
    assert_eq!(store.post_count(), 0);
}

#[test]
fn error_descriptions() {
    assert_eq!(Error::Validation.description(), "invalid content");
    assert_eq!(Error::NotFound.description(), "not found");
    assert_eq!(Error::QuotaExhausted.description(), "quota exhausted");
    assert_eq!(Error::Store.description(), "store error");
}
