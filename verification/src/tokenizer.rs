//! Tag and mention extraction from free-text content.
//!
//! A single left-to-right scan keeps one token buffer and a latched
//! collection state. `#` starts a tag, `@` starts a mention; a marker seen
//! while already collecting first commits the current buffer, so adjacent
//! markers (`#a#b`, `#a@x`) each yield a distinct token. Alphanumeric
//! characters are appended case-folded; any other character commits the
//! buffer and leaves collection mode. Committing an empty buffer writes
//! nothing.

use vstd::prelude::*;

verus! {

use crate::{spec_fold_char, spec_is_token_char};

/// What the scanner is currently collecting.
#[derive(Clone, Copy, PartialEq, Eq, Structural)]
pub enum Collecting {
    Idle,
    Tag,
    Mention,
}

/// Output of the scan so far: the committed tags and mentions, in order.
#[verifier::ext_equal]
pub struct ScanOut {
    pub tags: Seq<Seq<char>>,
    pub mentions: Seq<Seq<char>>,
}

/// Commits `buf` to the list selected by `st`; an empty buffer, or an idle
/// state, commits nothing.
pub open spec fn spec_commit(st: Collecting, buf: Seq<char>, out: ScanOut) -> ScanOut {
    if buf.len() > 0 {
        match st {
            Collecting::Idle => out,
            Collecting::Tag => ScanOut { tags: out.tags.push(buf), ..out },
            Collecting::Mention => ScanOut { mentions: out.mentions.push(buf), ..out },
        }
    } else {
        out
    }
}

/// The scan from position `i` to the end of `s`, starting in state `st` with
/// buffer `buf` and output `out`, including the final commit.
pub open spec fn spec_scan(
    s: Seq<char>,
    i: int,
    st: Collecting,
    buf: Seq<char>,
    out: ScanOut,
) -> ScanOut
    decreases s.len() - i,
{
    if i < 0 || i >= s.len() {
        spec_commit(st, buf, out)
    } else {
        let c = s[i];
        if c == '#' {
            spec_scan(s, i + 1, Collecting::Tag, Seq::empty(), spec_commit(st, buf, out))
        } else if c == '@' {
            spec_scan(s, i + 1, Collecting::Mention, Seq::empty(), spec_commit(st, buf, out))
        } else if spec_is_token_char(c) {
            if st is Idle {
                spec_scan(s, i + 1, st, buf, out)
            } else {
                spec_scan(s, i + 1, st, buf.push(spec_fold_char(c)), out)
            }
        } else {
            spec_scan(s, i + 1, Collecting::Idle, Seq::empty(), spec_commit(st, buf, out))
        }
    }
}

/// The tags and mentions of `s`: the scan of the whole text from an idle
/// start.
pub open spec fn spec_parse(s: Seq<char>) -> ScanOut {
    spec_scan(s, 0, Collecting::Idle, Seq::empty(), ScanOut { tags: Seq::empty(), mentions: Seq::empty() })
}

/// Extracts the ordered tag and mention tokens of `content`.
///
/// Deterministic and total: every input yields exactly the token lists that
/// `spec_parse` gives for its characters.
pub fn parse(content: &str) -> (r: (Vec<String>, Vec<String>))
    ensures
        r.0.deep_view() == spec_parse(content@).tags,
        r.1.deep_view() == spec_parse(content@).mentions,
{
    let n = content.unicode_len();
    let mut tags: Vec<String> = Vec::new();
    let mut mentions: Vec<String> = Vec::new();
    let mut buf = String::new();
    let mut st = Collecting::Idle;
    let mut i: usize = 0;

    proof {
        assert(buf@ =~= Seq::<char>::empty());
        assert(tags.deep_view() =~= Seq::<Seq<char>>::empty());
        assert(mentions.deep_view() =~= Seq::<Seq<char>>::empty());
        assert((ScanOut { tags: tags.deep_view(), mentions: mentions.deep_view() }) =~= (ScanOut {
            tags: Seq::empty(),
            mentions: Seq::empty(),
        }));
    }
    while i < n
        invariant
            n == content@.len(),
            i <= n,
            spec_parse(content@) == spec_scan(
                content@,
                i as int,
                st,
                buf@,
                ScanOut { tags: tags.deep_view(), mentions: mentions.deep_view() },
            ),
        decreases n - i,
    {
        let ghost prev = ScanOut { tags: tags.deep_view(), mentions: mentions.deep_view() };
        let ghost buf0 = buf@;
        let ghost st0 = st;
        let c = content.get_char(i);
        if c == '#' {
            commit(st, &mut buf, &mut tags, &mut mentions);
            st = Collecting::Tag;
        } else if c == '@' {
            commit(st, &mut buf, &mut tags, &mut mentions);
            st = Collecting::Mention;
        } else if crate::is_token_char(c) {
            if !matches!(st, Collecting::Idle) {
                crate::push_char(&mut buf, crate::fold_char(c));
            }
        } else {
            commit(st, &mut buf, &mut tags, &mut mentions);
            st = Collecting::Idle;
        }
        proof {
            if c == '#' || c == '@' || !spec_is_token_char(c) {
                assert(buf@ =~= Seq::<char>::empty());
            }
            assert(spec_scan(content@, i as int, st0, buf0, prev) == spec_scan(
                content@,
                i + 1,
                st,
                buf@,
                ScanOut { tags: tags.deep_view(), mentions: mentions.deep_view() },
            ));
        }
        i = i + 1;
    }
    commit(st, &mut buf, &mut tags, &mut mentions);
    (tags, mentions)
}

/// Commits the buffer to the list that `st` selects and clears it, exactly as
/// `spec_commit` says.
fn commit(st: Collecting, buf: &mut String, tags: &mut Vec<String>, mentions: &mut Vec<String>)
    ensures
        final(buf)@.len() == 0,
        (ScanOut { tags: final(tags).deep_view(), mentions: final(mentions).deep_view() })
            == spec_commit(
                st,
                old(buf)@,
                ScanOut { tags: old(tags).deep_view(), mentions: old(mentions).deep_view() },
            ),
{
    if !buf.as_str().is_empty() {
        match st {
            Collecting::Idle => {},
            Collecting::Tag => tags.push(buf.clone()),
            Collecting::Mention => mentions.push(buf.clone()),
        }
    }
    *buf = String::new();
    proof {
        assert(final(tags).deep_view() =~= spec_commit(
            st,
            old(buf)@,
            ScanOut { tags: old(tags).deep_view(), mentions: old(mentions).deep_view() },
        ).tags);
        assert(final(mentions).deep_view() =~= spec_commit(
            st,
            old(buf)@,
            ScanOut { tags: old(tags).deep_view(), mentions: old(mentions).deep_view() },
        ).mentions);
    }
}

} // verus!
