//! The decisions of the cleanup that deletes a sanctioned user's messages:
//! which channels to search first, which channels can be searched, and when
//! to stop in a channel.
use vstd::prelude::*;

use crate::deleted_messages::{timestamp_in_range, timestamp_is_valid};

verus! {

/// How many messages are fetched at a time from a channel.
pub const CHANNEL_FETCH_LIMIT: u8 = 100;

/// At most this many messages are deleted per channel and pass.
pub const SANCTION_CLEANUP_PER_CHANNEL_LIMIT: usize = 3;

/// The wait before the cleanup starts, in milliseconds.
pub const SANCTION_CLEANUP_DELAY_MS: u64 = 1200;

/// How many times the guild's channels are searched.
pub const SANCTION_CLEANUP_PASSES: usize = 2;

/// The wait between two passes, in milliseconds.
pub const SANCTION_CLEANUP_RETRY_DELAY_MS: u64 = 1800;

/// A timeout lasts one week, in seconds.
pub const TIMEOUT_SECONDS: i64 = 604800;

/// When the timeout of a user sanctioned at `now` ends: one week later, when
/// serenity accepts that time as a timestamp; `None` when it does not.
pub fn timeout_deadline(now: i64) -> (r: Option<i64>)
    requires
        -9223372036854775 <= now + TIMEOUT_SECONDS <= 9223372036854775,
    ensures
        r == (if timestamp_in_range((now + TIMEOUT_SECONDS) as i64) {
            Some((now + TIMEOUT_SECONDS) as i64)
        } else {
            None
        }),
{
    let until = now + TIMEOUT_SECONDS;
    if timestamp_is_valid(until) {
        Some(until)
    } else {
        None
    }
}

/// The kind of a guild channel, as far as the cleanup cares.
#[derive(Clone, Copy, Debug, PartialEq, Eq, Structural)]
pub enum ChannelKind {
    Text,
    News,
    PublicThread,
    PrivateThread,
    NewsThread,
    Other,
}

/// Whether messages of a channel of this kind can be searched and deleted:
/// text and news channels and their threads.
pub fn is_supported_channel(kind: ChannelKind) -> (r: bool)
    ensures
        r == (kind != ChannelKind::Other),
{
    match kind {
        ChannelKind::Text | ChannelKind::News | ChannelKind::PublicThread
        | ChannelKind::PrivateThread | ChannelKind::NewsThread => true,
        ChannelKind::Other => false,
    }
}

/// The elements of `s` that `others` contains, in order.
pub open spec fn kept_if_in(s: Seq<u64>, others: Seq<u64>) -> Seq<u64>
    decreases s.len(),
{
    if s.len() == 0 {
        Seq::empty()
    } else if others.contains(s.last()) {
        kept_if_in(s.drop_last(), others).push(s.last())
    } else {
        kept_if_in(s.drop_last(), others)
    }
}

/// The elements of `s` that `others` does not contain, in order.
pub open spec fn kept_if_not_in(s: Seq<u64>, others: Seq<u64>) -> Seq<u64>
    decreases s.len(),
{
    if s.len() == 0 {
        Seq::empty()
    } else if others.contains(s.last()) {
        kept_if_not_in(s.drop_last(), others)
    } else {
        kept_if_not_in(s.drop_last(), others).push(s.last())
    }
}

pub proof fn lemma_kept_if_in(s: Seq<u64>, others: Seq<u64>, c: u64)
    ensures
        s.contains(c) && others.contains(c) ==> kept_if_in(s, others).contains(c),
        s.contains(c) && !others.contains(c) ==> kept_if_not_in(s, others).contains(c),
    decreases s.len(),
{
    if s.len() > 0 && s.contains(c) {
        let t = s.drop_last();
        lemma_kept_if_in(t, others, c);
        if s.last() == c {
            let a = kept_if_in(t, others);
            let b = kept_if_not_in(t, others);
            if others.contains(c) {
                assert(a.push(c)[a.len() as int] == c);
            } else {
                assert(b.push(c)[b.len() as int] == c);
            }
        } else {
            let k = choose|k: int| 0 <= k < s.len() && s[k] == c;
            assert(k < s.len() - 1);
            assert(t[k] == c);
            let a = kept_if_in(t, others);
            let b = kept_if_not_in(t, others);
            if others.contains(c) {
                let i = choose|i: int| 0 <= i < a.len() && a[i] == c;
                if others.contains(s.last()) {
                    assert(a.push(s.last())[i] == c);
                }
            } else {
                let i = choose|i: int| 0 <= i < b.len() && b[i] == c;
                if !others.contains(s.last()) {
                    assert(b.push(s.last())[i] == c);
                }
            }
        }
    }
}

/// The cleanup searches every channel of the guild.
pub proof fn lemma_every_channel_is_searched(channels: Seq<u64>, detected: Seq<u64>, c: u64)
    requires
        channels.contains(c),
    ensures
        (kept_if_in(detected, channels) + kept_if_not_in(channels, detected)).contains(c),
{
    let a = kept_if_in(detected, channels);
    let b = kept_if_not_in(channels, detected);
    if detected.contains(c) {
        lemma_kept_if_in(detected, channels, c);
        let i = choose|i: int| 0 <= i < a.len() && a[i] == c;
        assert((a + b)[i] == c);
    } else {
        lemma_kept_if_in(channels, detected, c);
        let i = choose|i: int| 0 <= i < b.len() && b[i] == c;
        assert((a + b)[a.len() + i] == c);
    }
}

fn contains_id(v: &[u64], id: u64) -> (r: bool)
    ensures
        r == v@.contains(id),
{
    let mut i: usize = 0;
    while i < v.len()
        invariant
            i <= v@.len(),
            forall|k: int| 0 <= k < i ==> v@[k] != id,
        decreases v@.len() - i,
    {
        if v[i] == id {
            assert(v@[i as int] == id);
            return true;
        }
        i += 1;
    }
    false
}

/// The order in which the guild's channels are searched: the channels where
/// the spam was detected (those that still exist), then all the others.
pub fn prioritize_channels(channels: &[u64], detected_channels: &[u64]) -> (r: Vec<u64>)
    ensures
        r@ == kept_if_in(detected_channels@, channels@) + kept_if_not_in(
            channels@,
            detected_channels@,
        ),
{
    let mut first: Vec<u64> = Vec::new();
    let mut i: usize = 0;
    while i < detected_channels.len()
        invariant
            i <= detected_channels@.len(),
            first@ == kept_if_in(detected_channels@.take(i as int), channels@),
        decreases detected_channels@.len() - i,
    {
        assert(detected_channels@.take(i + 1).drop_last() =~= detected_channels@.take(i as int));
        if contains_id(channels, detected_channels[i]) {
            first.push(detected_channels[i]);
        }
        i += 1;
    }
    assert(detected_channels@.take(detected_channels@.len() as int) =~= detected_channels@);
    let mut rest: Vec<u64> = Vec::new();
    let mut j: usize = 0;
    while j < channels.len()
        invariant
            j <= channels@.len(),
            rest@ == kept_if_not_in(channels@.take(j as int), detected_channels@),
        decreases channels@.len() - j,
    {
        assert(channels@.take(j + 1).drop_last() =~= channels@.take(j as int));
        if !contains_id(detected_channels, channels[j]) {
            rest.push(channels[j]);
        }
        j += 1;
    }
    assert(channels@.take(channels@.len() as int) =~= channels@);
    let mut k: usize = 0;
    let ghost first_view = first@;
    while k < rest.len()
        invariant
            k <= rest@.len(),
            first@ == first_view + rest@.take(k as int),
        decreases rest@.len() - k,
    {
        first.push(rest[k]);
        k += 1;
        assert(rest@.take(k as int) =~= rest@.take(k - 1).push(rest@[k - 1]));
    }
    assert(rest@.take(rest@.len() as int) =~= rest@);
    first
}

/// Whether another pass follows pass number `pass` (counted from 0), after
/// the retry delay.
pub fn has_next_pass(pass: usize) -> (r: bool)
    ensures
        r == (pass + 1 < SANCTION_CLEANUP_PASSES),
{
    pass < SANCTION_CLEANUP_PASSES - 1
}

/// The cleanup of one channel: how many of the user's messages it deleted,
/// out of how many it may delete, and where the next page of the channel's
/// history starts (before which message).
pub struct ChannelCleanup {
    deleted: usize,
    limit: usize,
    before: Option<u64>,
}

impl ChannelCleanup {
    pub closed spec fn spec_deleted(&self) -> nat {
        self.deleted as nat
    }

    pub closed spec fn spec_limit(&self) -> nat {
        self.limit as nat
    }

    pub closed spec fn spec_before(&self) -> Option<u64> {
        self.before
    }

    /// A cleanup that may delete up to `limit` messages, and starts with the
    /// newest page of the channel.
    pub fn new(limit: usize) -> (r: Self)
        ensures
            r.spec_deleted() == 0,
            r.spec_limit() == limit,
            r.spec_before() is None,
    {
        ChannelCleanup { deleted: 0, limit, before: None }
    }

    /// The message before which the next page is fetched; `None` for the
    /// newest page.
    pub fn before(&self) -> (r: Option<u64>)
        ensures
            r == self.spec_before(),
    {
        self.before
    }

    /// Takes in a fetched page: the ids of its messages, newest first, or
    /// `None` when the fetch failed. The cleanup of the channel stops
    /// (`false`) when the fetch failed or the page is empty; otherwise the
    /// next page will start before the page's last message, and the page's
    /// messages are to be looked at (`true`).
    pub fn accept_page(&mut self, page: Option<&[u64]>) -> (go_on: bool)
        ensures
            final(self).spec_deleted() == old(self).spec_deleted(),
            final(self).spec_limit() == old(self).spec_limit(),
            match page {
                None => !go_on && final(self).spec_before() == old(self).spec_before(),
                Some(ids) => if ids@.len() == 0 {
                    !go_on && final(self).spec_before() == old(self).spec_before()
                } else {
                    go_on && final(self).spec_before() == Some(ids@.last())
                },
            },
    {
        match page {
            None => false,
            Some(ids) => {
                if ids.len() == 0 {
                    false
                } else {
                    self.before = Some(ids[ids.len() - 1]);
                    true
                }
            },
        }
    }

    /// Whether another page is to be fetched after a page was looked at
    /// without reaching the limit: when there is a message to fetch before.
    pub fn fetch_more(&self) -> (r: bool)
        ensures
            r == self.spec_before() is Some,
    {
        self.before.is_some()
    }

    /// How many messages were deleted.
    pub fn deleted(&self) -> (r: usize)
        ensures
            r == self.spec_deleted(),
    {
        self.deleted
    }

    /// Whether a message by `author_id` is one to delete.
    pub fn targets(&self, author_id: u64, user_id: u64) -> (r: bool)
        ensures
            r == (author_id == user_id),
    {
        author_id == user_id
    }

    /// Records one attempt to delete a message of the user; true when the
    /// cleanup of this channel is then done (the limit is reached).
    pub fn record_attempt(&mut self, deleted: bool) -> (done: bool)
        requires
            old(self).spec_deleted() < usize::MAX,
        ensures
            final(self).spec_limit() == old(self).spec_limit(),
            final(self).spec_before() == old(self).spec_before(),
            final(self).spec_deleted() == old(self).spec_deleted() + (if deleted {
                1nat
            } else {
                0nat
            }),
            done == (final(self).spec_deleted() >= final(self).spec_limit()),
    {
        if deleted {
            self.deleted += 1;
        }
        self.deleted >= self.limit
    }
}

} // verus!
