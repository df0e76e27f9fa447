//! Deciding whether a user's remembered messages make an incident.
use vstd::prelude::*;

use super::model::{
    matching, preview_of, Observation, ObservationView, ObservedMessage, ObservedView, TrackerView,
    UserTracker,
};

verus! {

/// A user posting the same message in too many channels.
pub struct SpamIncident {
    pub guild_id: u64,
    pub user_id: u64,
    pub trigger_message_id: u64,
    pub trigger_channel_id: u64,
    /// How many remembered messages repeat the trigger message.
    pub repeated_messages: usize,
    /// The channels of those messages, each once, in the order first seen.
    pub channels: Vec<u64>,
    pub first_detected_at: i64,
    pub last_detected_at: i64,
    pub preview: String,
}

pub struct IncidentView {
    pub guild_id: u64,
    pub user_id: u64,
    pub trigger_message_id: u64,
    pub trigger_channel_id: u64,
    pub repeated_messages: nat,
    pub channels: Seq<u64>,
    pub first_detected_at: i64,
    pub last_detected_at: i64,
    pub preview: Seq<char>,
}

impl View for SpamIncident {
    type V = IncidentView;

    open spec fn view(&self) -> IncidentView {
        IncidentView {
            guild_id: self.guild_id,
            user_id: self.user_id,
            trigger_message_id: self.trigger_message_id,
            trigger_channel_id: self.trigger_channel_id,
            repeated_messages: self.repeated_messages as nat,
            channels: self.channels@,
            first_detected_at: self.first_detected_at,
            last_detected_at: self.last_detected_at,
            preview: self.preview@,
        }
    }
}

/// The channels of `s`, each once, in the order they first appear.
pub open spec fn distinct_channels(s: Seq<ObservedView>) -> Seq<u64>
    decreases s.len(),
{
    if s.len() == 0 {
        Seq::empty()
    } else {
        let d = distinct_channels(s.drop_last());
        if d.contains(s.last().channel_id) {
            d
        } else {
            d.push(s.last().channel_id)
        }
    }
}

/// The earliest time in `s`, or `fallback` when `s` is empty.
pub open spec fn earliest(s: Seq<ObservedView>, fallback: i64) -> i64
    decreases s.len(),
{
    if s.len() == 0 {
        fallback
    } else if s.len() == 1 {
        s[0].observed_at
    } else {
        let e = earliest(s.drop_last(), fallback);
        if s.last().observed_at < e {
            s.last().observed_at
        } else {
            e
        }
    }
}

/// The incident that `o` completes in tracker `t`: the remembered messages
/// with `o`'s fingerprint, when they were posted in at least `threshold`
/// different channels.
pub open spec fn detected(t: TrackerView, o: ObservationView, threshold: nat) -> Option<
    IncidentView,
> {
    let m = matching(t.recent, o.fingerprint);
    let channels = distinct_channels(m);
    if channels.len() < threshold {
        None
    } else {
        Some(
            IncidentView {
                guild_id: o.guild_id,
                user_id: o.user_id,
                trigger_message_id: o.message_id,
                trigger_channel_id: o.channel_id,
                repeated_messages: m.len(),
                channels,
                first_detected_at: earliest(m, o.observed_at),
                last_detected_at: o.observed_at,
                preview: preview_of(o.fingerprint.content),
            },
        )
    }
}

pub open spec fn ref_views(s: Seq<&ObservedMessage>) -> Seq<ObservedView> {
    s.map_values(|m: &ObservedMessage| m@)
}

fn contains_channel(channels: &Vec<u64>, id: u64) -> (r: bool)
    ensures
        r == channels@.contains(id),
{
    let mut i: usize = 0;
    while i < channels.len()
        invariant
            i <= channels@.len(),
            forall|k: int| 0 <= k < i ==> channels@[k] != id,
        decreases channels@.len() - i,
    {
        if channels[i] == id {
            assert(channels@[i as int] == id);
            return true;
        }
        i += 1;
    }
    false
}

fn distinct_channels_of(messages: &Vec<&ObservedMessage>) -> (r: Vec<u64>)
    ensures
        r@ == distinct_channels(ref_views(messages@)),
{
    let ghost all = ref_views(messages@);
    let mut channels: Vec<u64> = Vec::new();
    let mut i: usize = 0;
    assert(all.take(0) =~= Seq::<ObservedView>::empty());
    while i < messages.len()
        invariant
            all == ref_views(messages@),
            i <= messages@.len(),
            channels@ == distinct_channels(all.take(i as int)),
        decreases messages@.len() - i,
    {
        let channel_id = messages[i].channel_id();
        assert(all.take(i + 1).drop_last() =~= all.take(i as int));
        assert(all.take(i + 1).last() == messages@[i as int]@);
        if !contains_channel(&channels, channel_id) {
            channels.push(channel_id);
        }
        i += 1;
    }
    assert(all.take(messages@.len() as int) =~= all);
    channels
}

fn earliest_of(messages: &Vec<&ObservedMessage>, fallback: i64) -> (r: i64)
    ensures
        r == earliest(ref_views(messages@), fallback),
{
    let ghost all = ref_views(messages@);
    let mut first: i64 = fallback;
    let mut i: usize = 0;
    while i < messages.len()
        invariant
            all == ref_views(messages@),
            i <= messages@.len(),
            first == earliest(all.take(i as int), fallback),
        decreases messages@.len() - i,
    {
        let t = messages[i].observed_at();
        assert(all.take(i + 1).drop_last() =~= all.take(i as int));
        assert(all.take(i + 1).last() == messages@[i as int]@);
        if i == 0 {
            assert(all.take(1)[0] == messages@[0]@);
            first = t;
        } else if t < first {
            first = t;
        }
        i += 1;
    }
    assert(all.take(messages@.len() as int) =~= all);
    first
}

/// The incident that `observation` completes in `tracker`, if its
/// matching messages span at least `distinct_channels_threshold` channels.
pub fn detect_incident(
    tracker: &UserTracker,
    observation: &Observation,
    distinct_channels_threshold: usize,
) -> (r: Option<SpamIncident>)
    ensures
        match r {
            None => detected(tracker@, observation@, distinct_channels_threshold as nat) is None,
            Some(i) => detected(tracker@, observation@, distinct_channels_threshold as nat) == Some(
                i@,
            ),
        },
{
    let matching_messages = tracker.matching_messages(&observation.fingerprint);
    assert(ref_views(matching_messages@) == matching(tracker@.recent, observation@.fingerprint));
    let channels = distinct_channels_of(&matching_messages);
    if channels.len() < distinct_channels_threshold {
        return None;
    }
    let repeated_messages = matching_messages.len();
    let first_detected_at = earliest_of(&matching_messages, observation.observed_at);
    Some(
        SpamIncident {
            guild_id: observation.guild_id,
            user_id: observation.user_id,
            trigger_message_id: observation.message_id,
            trigger_channel_id: observation.channel_id,
            repeated_messages,
            channels,
            first_detected_at,
            last_detected_at: observation.observed_at,
            preview: observation.fingerprint.preview(),
        },
    )
}

} // verus!
