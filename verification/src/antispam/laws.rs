//! What the anti-spam filter promises of every observation.
use vstd::prelude::*;

use super::config::AntiSpamConfig;
use super::detector::{distinct_channels, earliest, IncidentView};
use super::model::{
    acted, descriptor, elapsed, fingerprint_of, image_descriptors_of, is_image, matching,
    normalized, observed_from, on_cooldown, pruned, recorded, within_window,
    FingerprintView, ObservationView, ObservedView, TrackerView, ACTION_COOLDOWN_SECONDS,
};
use super::{filter_step, observe_step};
use crate::message::{AttachmentInfo, MessageInfo};
use crate::text::lemma_sorted_version_of_permutation;
use vstd::set::Set;

verus! {

pub proof fn lemma_within_window_subset(s: Seq<ObservedView>, now: i64, window: i64)
    ensures
        forall|x: ObservedView| #[trigger]
            within_window(s, now, window).contains(x) ==> s.contains(x) && elapsed(
                now,
                x.observed_at,
            ) <= window,
    decreases s.len(),
{
    if s.len() > 0 {
        let t = s.drop_last();
        lemma_within_window_subset(t, now, window);
        assert forall|x: ObservedView| #[trigger]
            within_window(s, now, window).contains(x) implies s.contains(x) && elapsed(
            now,
            x.observed_at,
        ) <= window by {
            let w = within_window(t, now, window);
            if elapsed(now, s.last().observed_at) <= window && x == s.last() {
                assert(s[s.len() - 1] == x);
            } else {
                if elapsed(now, s.last().observed_at) <= window {
                    let k = choose|k: int| 0 <= k < w.push(s.last()).len() && w.push(s.last())[k] == x;
                    assert(k < w.len());
                    assert(w[k] == x);
                }
                assert(w.contains(x));
                let j = choose|j: int| 0 <= j < t.len() && t[j] == x;
                assert(s[j] == x);
            }
        }
    }
}

pub proof fn lemma_matching_subset(s: Seq<ObservedView>, fp: FingerprintView)
    ensures
        forall|x: ObservedView| #[trigger]
            matching(s, fp).contains(x) ==> s.contains(x) && x.fingerprint == fp,
    decreases s.len(),
{
    if s.len() > 0 {
        let t = s.drop_last();
        lemma_matching_subset(t, fp);
        assert forall|x: ObservedView| #[trigger] matching(s, fp).contains(x) implies s.contains(x)
            && x.fingerprint == fp by {
            let m = matching(t, fp);
            if s.last().fingerprint == fp && x == s.last() {
                assert(s[s.len() - 1] == x);
            } else {
                if s.last().fingerprint == fp {
                    let k = choose|k: int| 0 <= k < m.push(s.last()).len() && m.push(s.last())[k] == x;
                    assert(k < m.len());
                    assert(m[k] == x);
                }
                assert(m.contains(x));
                let j = choose|j: int| 0 <= j < t.len() && t[j] == x;
                assert(s[j] == x);
            }
        }
    }
}

/// The distinct channels of `s` hold no channel twice, are no more than
/// the messages, and are exactly the channels of the messages.
pub proof fn lemma_distinct_channels(s: Seq<ObservedView>)
    ensures
        distinct_channels(s).no_duplicates(),
        distinct_channels(s).len() <= s.len(),
        forall|c: u64| #[trigger]
            distinct_channels(s).contains(c) <==> exists|k: int|
                0 <= k < s.len() && s[k].channel_id == c,
    decreases s.len(),
{
    if s.len() > 0 {
        let t = s.drop_last();
        lemma_distinct_channels(t);
        let d = distinct_channels(t);
        assert forall|c: u64| #[trigger]
            distinct_channels(s).contains(c) <==> exists|k: int|
                0 <= k < s.len() && s[k].channel_id == c by {
            if distinct_channels(s).contains(c) {
                if d.contains(c) {
                    let k = choose|k: int| 0 <= k < t.len() && t[k].channel_id == c;
                    assert(s[k].channel_id == c);
                } else {
                    let i = choose|i: int|
                        0 <= i < d.push(s.last().channel_id).len() && d.push(
                            s.last().channel_id,
                        )[i] == c;
                    assert(i == d.len());
                    assert(s[s.len() - 1].channel_id == c);
                }
            }
            if exists|k: int| 0 <= k < s.len() && s[k].channel_id == c {
                let k = choose|k: int| 0 <= k < s.len() && s[k].channel_id == c;
                if k < s.len() - 1 {
                    assert(t[k].channel_id == c);
                    assert(d.contains(c));
                    if !d.contains(s.last().channel_id) {
                        let i = choose|i: int| 0 <= i < d.len() && d[i] == c;
                        assert(d.push(s.last().channel_id)[i] == c);
                    }
                } else {
                    if !d.contains(s.last().channel_id) {
                        assert(d.push(s.last().channel_id)[d.len() as int] == c);
                    }
                }
            }
        }
        if !d.contains(s.last().channel_id) {
            let e = d.push(s.last().channel_id);
            assert forall|i: int, j: int| 0 <= i < e.len() && 0 <= j < e.len() && i != j implies e[i]
                != e[j] by {
                if i < d.len() && j < d.len() {
                } else if i == d.len() {
                    assert(d[j] == e[j]);
                } else {
                    assert(d[i] == e[i]);
                }
            }
        }
    }
}

/// The earliest time of a non-empty sequence is at most each of its times.
pub proof fn lemma_earliest_is_lowest(s: Seq<ObservedView>, fallback: i64)
    requires
        s.len() > 0,
    ensures
        forall|k: int| 0 <= k < s.len() ==> earliest(s, fallback) <= #[trigger] s[k].observed_at,
    decreases s.len(),
{
    if s.len() > 1 {
        let t = s.drop_last();
        lemma_earliest_is_lowest(t, fallback);
        assert forall|k: int| 0 <= k < s.len() implies earliest(s, fallback) <= #[trigger] s[k].observed_at by {
            if k < s.len() - 1 {
                assert(s[k] == t[k]);
            }
        }
    }
}

/// Every incident is as reported: the trigger is the observed message, its
/// channels are distinct, at least as many as the threshold and no more
/// than the repeated messages, they include the trigger's channel, the
/// first detection is not after the last one (the trigger's time), and the
/// user's tracker then remembers nothing and starts its cooldown.
pub proof fn lemma_incident_is_well_formed(
    config: AntiSpamConfig,
    t: TrackerView,
    o: ObservationView,
)
    ensures
        observe_step(config, t, o).1 matches Some(i) ==> {
            &&& i.guild_id == o.guild_id
            &&& i.user_id == o.user_id
            &&& i.trigger_message_id == o.message_id
            &&& i.trigger_channel_id == o.channel_id
            &&& i.channels.no_duplicates()
            &&& i.channels.len() >= config.distinct_channels_threshold
            &&& i.channels.len() <= i.repeated_messages
            &&& i.channels.contains(o.channel_id)
            &&& i.first_detected_at <= i.last_detected_at
            &&& i.last_detected_at == o.observed_at
            &&& observe_step(config, t, o).0 == acted(o.observed_at)
        },
{
    let p = pruned(t, o.observed_at, config.duplicate_window_seconds);
    if !on_cooldown(p, o.observed_at) {
        let r = recorded(p, o);
        let m = matching(r.recent, o.fingerprint);
        assert(r.recent.drop_last() =~= p.recent);
        assert(m == matching(p.recent, o.fingerprint).push(observed_from(o)));
        lemma_distinct_channels(m);
        lemma_earliest_is_lowest(m, o.observed_at);
        assert(m[m.len() - 1] == observed_from(o));
        assert(m[m.len() - 1].channel_id == o.channel_id);
    }
}

/// While the cooldown of an earlier action lasts, observations produce no
/// incident and the cooldown is kept.
pub proof fn lemma_no_incident_during_cooldown(
    config: AntiSpamConfig,
    t: TrackerView,
    o: ObservationView,
    acted_at: i64,
)
    requires
        t.last_action_at == Some(acted_at),
        elapsed(o.observed_at, acted_at) <= ACTION_COOLDOWN_SECONDS,
    ensures
        observe_step(config, t, o).1 is None,
        observe_step(config, t, o).0.last_action_at == Some(acted_at),
{
}

/// Right after an incident at time `a`, the same user triggers no incident
/// with a message seen at most the cooldown later.
pub proof fn lemma_incident_starts_cooldown(
    config: AntiSpamConfig,
    t: TrackerView,
    first: ObservationView,
    next: ObservationView,
)
    requires
        observe_step(config, t, first).1 is Some,
        elapsed(next.observed_at, first.observed_at) <= ACTION_COOLDOWN_SECONDS,
    ensures
        observe_step(config, observe_step(config, t, first).0, next).1 is None,
{
    lemma_incident_is_well_formed(config, t, first);
    lemma_no_incident_during_cooldown(
        config,
        observe_step(config, t, first).0,
        next,
        first.observed_at,
    );
}

/// A message whose earlier copies were all posted in its own channel is no
/// incident, when the threshold is at least 2.
pub proof fn lemma_one_channel_is_no_incident(config: AntiSpamConfig, t: TrackerView, o: ObservationView)
    requires
        config.distinct_channels_threshold >= 2,
        forall|k: int|
            0 <= k < t.recent.len() && (#[trigger] t.recent[k]).fingerprint == o.fingerprint
                ==> t.recent[k].channel_id == o.channel_id,
    ensures
        observe_step(config, t, o).1 is None,
{
    let p = pruned(t, o.observed_at, config.duplicate_window_seconds);
    if !on_cooldown(p, o.observed_at) {
        let r = recorded(p, o);
        let m = matching(r.recent, o.fingerprint);
        lemma_within_window_subset(t.recent, o.observed_at, config.duplicate_window_seconds);
        lemma_matching_subset(r.recent, o.fingerprint);
        lemma_distinct_channels(m);
        let d = distinct_channels(m);
        assert forall|i: int| 0 <= i < d.len() implies #[trigger] d[i] == o.channel_id by {
            assert(d.contains(d[i]));
            let k = choose|k: int| 0 <= k < m.len() && m[k].channel_id == d[i];
            assert(m.contains(m[k]));
            let x = m[k];
            assert(r.recent.contains(x));
            let j = choose|j: int| 0 <= j < r.recent.len() && r.recent[j] == x;
            if j < p.recent.len() {
                assert(r.recent[j] == p.recent[j]);
                assert(p.recent.contains(x));
                assert(t.recent.contains(x));
                let q = choose|q: int| 0 <= q < t.recent.len() && t.recent[q] == x;
                assert(t.recent[q].fingerprint == o.fingerprint);
            } else {
                assert(r.recent[j] == observed_from(o));
            }
        }
        if d.len() >= 2 {
            assert(d[0] == o.channel_id && d[1] == o.channel_id);
        }
    }
}

/// Messages seen more than the window before an observation never count:
/// when all remembered messages are that old, the observation is no
/// incident, for a threshold of at least 2.
pub proof fn lemma_old_messages_do_not_count(config: AntiSpamConfig, t: TrackerView, o: ObservationView)
    requires
        config.distinct_channels_threshold >= 2,
        forall|k: int|
            0 <= k < t.recent.len() ==> elapsed(o.observed_at, (#[trigger] t.recent[k]).observed_at)
                > config.duplicate_window_seconds,
    ensures
        observe_step(config, t, o).1 is None,
{
    let p = pruned(t, o.observed_at, config.duplicate_window_seconds);
    lemma_within_window_subset(t.recent, o.observed_at, config.duplicate_window_seconds);
    if p.recent.len() > 0 {
        assert(p.recent.contains(p.recent[0]));
        let q = choose|q: int| 0 <= q < t.recent.len() && t.recent[q] == p.recent[0];
        assert(false);
    }
    lemma_one_channel_is_no_incident(config, TrackerView { recent: Seq::empty(), ..p }, o);
    assert(pruned(TrackerView { recent: Seq::empty(), ..p }, o.observed_at, config.duplicate_window_seconds).recent =~= p.recent);
}

proof fn lemma_within_window_keeps(s: Seq<ObservedView>, now: i64, window: i64, x: ObservedView)
    requires
        s.contains(x),
        elapsed(now, x.observed_at) <= window,
    ensures
        within_window(s, now, window).contains(x),
    decreases s.len(),
{
    let t = s.drop_last();
    let w = within_window(t, now, window);
    if x == s.last() {
        assert(w.push(s.last())[w.len() as int] == x);
    } else {
        let k = choose|k: int| 0 <= k < s.len() && s[k] == x;
        assert(k < s.len() - 1);
        assert(t[k] == x);
        lemma_within_window_keeps(t, now, window, x);
        if elapsed(now, s.last().observed_at) <= window {
            let i = choose|i: int| 0 <= i < w.len() && w[i] == x;
            assert(w.push(s.last())[i] == x);
        }
    }
}

proof fn lemma_matching_keeps(s: Seq<ObservedView>, fp: FingerprintView, x: ObservedView)
    requires
        s.contains(x),
        x.fingerprint == fp,
    ensures
        matching(s, fp).contains(x),
    decreases s.len(),
{
    let t = s.drop_last();
    let m = matching(t, fp);
    if x == s.last() {
        assert(m.push(s.last())[m.len() as int] == x);
    } else {
        let k = choose|k: int| 0 <= k < s.len() && s[k] == x;
        assert(k < s.len() - 1);
        assert(t[k] == x);
        lemma_matching_keeps(t, fp, x);
        if s.last().fingerprint == fp {
            let i = choose|i: int| 0 <= i < m.len() && m[i] == x;
            assert(m.push(s.last())[i] == x);
        }
    }
}

/// The channels where the user posted the message of `o` within the window
/// before it: `o`'s own channel, and the channels of the remembered copies
/// seen at most `window` seconds earlier.
pub open spec fn copy_channels(t: TrackerView, o: ObservationView, window: i64) -> Set<u64> {
    Set::new(
        |c: u64|
            c == o.channel_id || exists|k: int|
                0 <= k < t.recent.len() && (#[trigger] t.recent[k]).fingerprint == o.fingerprint
                    && elapsed(o.observed_at, t.recent[k].observed_at) <= window
                    && t.recent[k].channel_id == c,
    )
}

/// What the filter is for. Outside a cooldown, an observation is an
/// incident exactly when copies of its message seen within the window were
/// posted in at least the threshold of channels, its own channel included;
/// the incident's channels are then exactly those channels.
pub proof fn lemma_incident_iff_enough_channels(
    config: AntiSpamConfig,
    t: TrackerView,
    o: ObservationView,
)
    requires
        t.last_action_at matches Some(a) ==> elapsed(o.observed_at, a) > ACTION_COOLDOWN_SECONDS,
    ensures
        copy_channels(t, o, config.duplicate_window_seconds).finite(),
        observe_step(config, t, o).1 is Some <==> copy_channels(
            t,
            o,
            config.duplicate_window_seconds,
        ).len() >= config.distinct_channels_threshold,
        observe_step(config, t, o).1 matches Some(i) ==> i.channels.to_set() == copy_channels(
            t,
            o,
            config.duplicate_window_seconds,
        ),
{
    broadcast use vstd::seq_lib::seq_to_set_is_finite;

    let w = config.duplicate_window_seconds;
    let p = pruned(t, o.observed_at, w);
    assert(!on_cooldown(p, o.observed_at));
    let r = recorded(p, o);
    let m0 = matching(p.recent, o.fingerprint);
    let m = matching(r.recent, o.fingerprint);
    assert(r.recent.drop_last() =~= p.recent);
    assert(m == m0.push(observed_from(o)));
    lemma_distinct_channels(m);
    let d = distinct_channels(m);
    let cs = copy_channels(t, o, w);
    lemma_within_window_subset(t.recent, o.observed_at, w);
    lemma_matching_subset(p.recent, o.fingerprint);
    assert forall|c: u64| d.to_set().contains(c) <==> cs.contains(c) by {
        if d.contains(c) {
            let k = choose|k: int| 0 <= k < m.len() && m[k].channel_id == c;
            if k < m.len() - 1 {
                let x = m0[k];
                assert(m[k] == x);
                assert(m0.contains(x));
                assert(p.recent.contains(x));
                let j = choose|j: int| 0 <= j < t.recent.len() && t.recent[j] == x;
                assert(t.recent[j].fingerprint == o.fingerprint);
            }
        }
        if cs.contains(c) {
            if c == o.channel_id {
                assert(m[m.len() - 1].channel_id == c);
            } else {
                let j = choose|j: int|
                    0 <= j < t.recent.len() && (#[trigger] t.recent[j]).fingerprint
                        == o.fingerprint && elapsed(o.observed_at, t.recent[j].observed_at) <= w
                        && t.recent[j].channel_id == c;
                let x = t.recent[j];
                assert(t.recent.contains(x));
                lemma_within_window_keeps(t.recent, o.observed_at, w, x);
                lemma_matching_keeps(p.recent, o.fingerprint, x);
                let i = choose|i: int| 0 <= i < m0.len() && m0[i] == x;
                assert(m[i] == x);
            }
        }
    }
    assert(d.to_set() =~= cs);
    d.unique_seq_to_set();
}

/// The image descriptors of `b` are those of `b` without its `j`-th
/// attachment, and that attachment's descriptor when it is an image.
proof fn lemma_image_descriptors_remove(b: Seq<AttachmentInfo>, j: int)
    requires
        0 <= j < b.len(),
    ensures
        image_descriptors_of(b).to_multiset() == (if is_image(b[j]) {
            image_descriptors_of(b.remove(j)).to_multiset().insert(descriptor(b[j]))
        } else {
            image_descriptors_of(b.remove(j)).to_multiset()
        }),
    decreases b.len(),
{
    broadcast use vstd::seq_lib::group_to_multiset_ensures;

    let t = b.drop_last();
    if j == b.len() - 1 {
        assert(b.remove(j) =~= t);
    } else {
        lemma_image_descriptors_remove(t, j);
        let c = b.remove(j);
        assert(c.drop_last() =~= t.remove(j));
        assert(c.last() == b.last());
        assert(t[j] == b[j]);
        if is_image(b.last()) {
            assert(image_descriptors_of(b) == image_descriptors_of(t).push(descriptor(b.last())));
            assert(image_descriptors_of(c) == image_descriptors_of(t.remove(j)).push(
                descriptor(b.last()),
            ));
            if is_image(b[j]) {
                assert(image_descriptors_of(b).to_multiset() =~= image_descriptors_of(
                    c,
                ).to_multiset().insert(descriptor(b[j])));
            }
        } else {
            assert(image_descriptors_of(b) == image_descriptors_of(t));
            assert(image_descriptors_of(c) == image_descriptors_of(t.remove(j)));
        }
    }
}

/// Attachments in another order have the same image descriptors, in
/// another order.
proof fn lemma_image_descriptors_permutation(a: Seq<AttachmentInfo>, b: Seq<AttachmentInfo>)
    requires
        a.to_multiset() == b.to_multiset(),
    ensures
        image_descriptors_of(a).to_multiset() == image_descriptors_of(b).to_multiset(),
    decreases a.len(),
{
    broadcast use vstd::seq_lib::group_to_multiset_ensures;

    if a.len() == 0 {
        assert(a.to_multiset().len() == 0);
        assert(b.to_multiset().len() == b.len());
        assert(a =~= b);
    } else {
        let x = a.last();
        let t = a.drop_last();
        assert(a =~= t.push(x));
        assert(b.to_multiset().count(x) > 0);
        let j = choose|j: int| 0 <= j < b.len() && b[j] == x;
        let c = b.remove(j);
        assert(t.to_multiset() =~= a.to_multiset().remove(x));
        lemma_image_descriptors_permutation(t, c);
        lemma_image_descriptors_remove(b, j);
    }
}

/// The order of a message's attachments does not matter: two messages with
/// the same normalized text and the same attachments, in whatever order,
/// have the same fingerprint, so copies whose images were attached in
/// another order still count as the same message.
pub proof fn lemma_fingerprint_ignores_attachment_order(m1: MessageInfo, m2: MessageInfo)
    requires
        normalized(m1.content@) == normalized(m2.content@),
        m1.attachments@.to_multiset() == m2.attachments@.to_multiset(),
    ensures
        fingerprint_of(m1) == fingerprint_of(m2),
{
    lemma_image_descriptors_permutation(m1.attachments@, m2.attachments@);
    lemma_sorted_version_of_permutation(
        image_descriptors_of(m1.attachments@),
        image_descriptors_of(m2.attachments@),
    );
}

/// The outcomes of observing `os` in order with one user's tracker, which
/// starts as `t`, and the tracker after them.
pub open spec fn run_tracker(config: AntiSpamConfig, t: TrackerView, os: Seq<ObservationView>) -> (
    TrackerView,
    Seq<Option<IncidentView>>,
)
    decreases os.len(),
{
    if os.len() == 0 {
        (t, Seq::empty())
    } else {
        let before = run_tracker(config, t, os.drop_last());
        let step = observe_step(config, before.0, os.last());
        (step.0, before.1.push(step.1))
    }
}

/// The `k`-th outcome of a run is the step of the `k`-th observation on the
/// tracker left by the ones before it.
pub proof fn lemma_run_tracker_at(
    config: AntiSpamConfig,
    t: TrackerView,
    os: Seq<ObservationView>,
    k: int,
)
    requires
        0 <= k < os.len(),
    ensures
        run_tracker(config, t, os).1.len() == os.len(),
        run_tracker(config, t, os).1[k] == observe_step(
            config,
            run_tracker(config, t, os.take(k)).0,
            os[k],
        ).1,
        run_tracker(config, t, os.take(k + 1)).0 == observe_step(
            config,
            run_tracker(config, t, os.take(k)).0,
            os[k],
        ).0,
    decreases os.len(),
{
    lemma_run_tracker_len(config, t, os);
    let p = os.take(k + 1);
    assert(p.drop_last() =~= os.take(k));
    assert(p.last() == os[k]);
    if k < os.len() - 1 {
        lemma_run_tracker_at(config, t, os.drop_last(), k);
        assert(os.drop_last().take(k) =~= os.take(k));
        assert(os.drop_last().take(k + 1) =~= os.take(k + 1));
        assert(os.drop_last()[k] == os[k]);
    } else {
        assert(os.drop_last() =~= os.take(k));
    }
}

pub proof fn lemma_run_tracker_len(config: AntiSpamConfig, t: TrackerView, os: Seq<ObservationView>)
    ensures
        run_tracker(config, t, os).1.len() == os.len(),
    decreases os.len(),
{
    if os.len() > 0 {
        lemma_run_tracker_len(config, t, os.drop_last());
    }
}

proof fn lemma_earliest_above(s: Seq<ObservedView>, fallback: i64, low: int)
    requires
        s.len() > 0,
        forall|k: int| 0 <= k < s.len() ==> #[trigger] s[k].observed_at > low,
    ensures
        earliest(s, fallback) > low,
    decreases s.len(),
{
    if s.len() > 1 {
        let t = s.drop_last();
        assert forall|k: int| 0 <= k < t.len() implies #[trigger] t[k].observed_at > low by {
            assert(t[k] == s[k]);
        }
        lemma_earliest_above(t, fallback, low);
        assert(s[s.len() - 1] == s.last());
    }
}

/// What a tracker keeps after an incident at time `a`, once observations up
/// to time `now` were seen: nothing from before the end of the cooldown,
/// and the cooldown itself until something later replaced it.
pub open spec fn after_incident(t: TrackerView, a: int, now: int) -> bool {
    &&& forall|k: int| 0 <= k < t.recent.len() ==> #[trigger] t.recent[k].observed_at > a
        + ACTION_COOLDOWN_SECONDS
    &&& t.last_action_at == Some(a as i64) ==> t.recent.len() == 0
    &&& t.last_action_at matches Some(b) ==> (b == a || b > a + ACTION_COOLDOWN_SECONDS)
    &&& t.last_action_at != Some(a as i64) ==> now > a + ACTION_COOLDOWN_SECONDS
}

proof fn lemma_after_incident_step(
    config: AntiSpamConfig,
    t: TrackerView,
    o: ObservationView,
    a: i64,
    now: i64,
)
    requires
        after_incident(t, a as int, now as int),
        now <= o.observed_at,
        a <= o.observed_at,
    ensures
        after_incident(observe_step(config, t, o).0, a as int, o.observed_at as int),
        o.observed_at <= a + ACTION_COOLDOWN_SECONDS ==> observe_step(config, t, o).1 is None,
        observe_step(config, t, o).1 matches Some(i) ==> i.first_detected_at > a
            + ACTION_COOLDOWN_SECONDS,
{
    let w = config.duplicate_window_seconds;
    let p = pruned(t, o.observed_at, w);
    lemma_within_window_subset(t.recent, o.observed_at, w);
    assert forall|k: int| 0 <= k < p.recent.len() implies #[trigger] p.recent[k].observed_at > a
        + ACTION_COOLDOWN_SECONDS by {
        assert(p.recent.contains(p.recent[k]));
        let j = choose|j: int| 0 <= j < t.recent.len() && t.recent[j] == p.recent[k];
        assert(t.recent[j].observed_at > a + ACTION_COOLDOWN_SECONDS);
    }
    if t.last_action_at == Some(a) {
        assert(p.recent.len() == 0) by {
            assert(t.recent.len() == 0);
            assert(t.recent =~= Seq::<ObservedView>::empty());
        }
    }
    if !on_cooldown(p, o.observed_at) {
        assert(p.last_action_at is None);
        assert(o.observed_at > a + ACTION_COOLDOWN_SECONDS);
        let r = recorded(p, o);
        assert forall|k: int| 0 <= k < r.recent.len() implies #[trigger] r.recent[k].observed_at
            > a + ACTION_COOLDOWN_SECONDS by {
            if k < p.recent.len() {
                assert(r.recent[k] == p.recent[k]);
            }
        }
        let m = matching(r.recent, o.fingerprint);
        assert(r.recent.drop_last() =~= p.recent);
        assert(m == matching(p.recent, o.fingerprint).push(observed_from(o)));
        lemma_matching_subset(r.recent, o.fingerprint);
        assert forall|k: int| 0 <= k < m.len() implies #[trigger] m[k].observed_at > a
            + ACTION_COOLDOWN_SECONDS by {
            assert(m.contains(m[k]));
            let j = choose|j: int| 0 <= j < r.recent.len() && r.recent[j] == m[k];
            assert(r.recent[j].observed_at > a + ACTION_COOLDOWN_SECONDS);
        }
        lemma_earliest_above(m, o.observed_at, a + ACTION_COOLDOWN_SECONDS);
    }
}

proof fn lemma_after_incident_run(
    config: AntiSpamConfig,
    t: TrackerView,
    os: Seq<ObservationView>,
    i: int,
    k: int,
)
    requires
        0 <= i < k <= os.len(),
        forall|x: int, y: int| 0 <= x <= y < os.len() ==> #[trigger] os[x].observed_at
            <= #[trigger] os[y].observed_at,
        run_tracker(config, t, os).1[i] is Some,
    ensures
        after_incident(
            run_tracker(config, t, os.take(k)).0,
            os[i].observed_at as int,
            os[k - 1].observed_at as int,
        ),
    decreases k - i,
{
    let a = os[i].observed_at;
    if k == i + 1 {
        lemma_run_tracker_at(config, t, os, i);
        lemma_incident_is_well_formed(config, run_tracker(config, t, os.take(i)).0, os[i]);
        assert(run_tracker(config, t, os.take(k)).0 == acted(a));
    } else {
        lemma_after_incident_run(config, t, os, i, k - 1);
        lemma_run_tracker_at(config, t, os, k - 1);
        assert(os[k - 2].observed_at <= os[k - 1].observed_at);
        assert(os[i].observed_at <= os[k - 1].observed_at);
        lemma_after_incident_step(
            config,
            run_tracker(config, t, os.take(k - 1)).0,
            os[k - 1],
            a,
            os[k - 2].observed_at,
        );
    }
}

/// The cooldown over any number of calls. Along observations of one user
/// whose times never go back, after an incident every observation up to
/// the end of its cooldown is no incident, and the next incident counts no
/// message seen up to the end of that cooldown: it starts later.
pub proof fn lemma_cooldown_over_any_calls(
    config: AntiSpamConfig,
    t: TrackerView,
    os: Seq<ObservationView>,
    i: int,
    j: int,
)
    requires
        0 <= i < j < os.len(),
        forall|x: int, y: int| 0 <= x <= y < os.len() ==> #[trigger] os[x].observed_at
            <= #[trigger] os[y].observed_at,
        run_tracker(config, t, os).1[i] is Some,
    ensures
        run_tracker(config, t, os).1[i] matches Some(first) && first.last_detected_at
            == os[i].observed_at,
        os[j].observed_at <= os[i].observed_at + ACTION_COOLDOWN_SECONDS ==> run_tracker(
            config,
            t,
            os,
        ).1[j] is None,
        run_tracker(config, t, os).1[j] matches Some(next) ==> next.first_detected_at
            > os[i].observed_at + ACTION_COOLDOWN_SECONDS,
{
    lemma_run_tracker_at(config, t, os, i);
    lemma_incident_is_well_formed(config, run_tracker(config, t, os.take(i)).0, os[i]);
    lemma_after_incident_run(config, t, os, i, j);
    lemma_run_tracker_at(config, t, os, j);
    assert(os[j - 1].observed_at <= os[j].observed_at);
    assert(os[i].observed_at <= os[j].observed_at);
    lemma_after_incident_step(
        config,
        run_tracker(config, t, os.take(j)).0,
        os[j],
        os[i].observed_at,
        os[j - 1].observed_at,
    );
}

/// The observations of `os` that belong to user `u` of guild `g`, in order.
pub open spec fn of_user(os: Seq<ObservationView>, g: u64, u: u64) -> Seq<ObservationView>
    decreases os.len(),
{
    if os.len() == 0 {
        Seq::empty()
    } else if os.last().guild_id == g && os.last().user_id == u {
        of_user(os.drop_last(), g, u).push(os.last())
    } else {
        of_user(os.drop_last(), g, u)
    }
}

/// The outcomes of observing `os` in order with the whole filter, whose
/// trackers start as `f`, and the trackers after them.
pub open spec fn run_filter(
    config: AntiSpamConfig,
    f: spec_fn(u64, u64) -> TrackerView,
    os: Seq<ObservationView>,
) -> (spec_fn(u64, u64) -> TrackerView, Seq<Option<IncidentView>>)
    decreases os.len(),
{
    if os.len() == 0 {
        (f, Seq::empty())
    } else {
        let before = run_filter(config, f, os.drop_last());
        let step = filter_step(config, before.0, os.last());
        (step.0, before.1.push(step.1))
    }
}

proof fn lemma_of_user_prefix_len(os: Seq<ObservationView>, g: u64, u: u64, k: int)
    requires
        0 <= k <= os.len(),
    ensures
        of_user(os.take(k), g, u).len() <= of_user(os, g, u).len(),
        k < os.len() && os[k].guild_id == g && os[k].user_id == u ==> of_user(os.take(k), g, u).len()
            < of_user(os, g, u).len(),
    decreases os.len(),
{
    if k == os.len() {
        assert(os.take(k) =~= os);
    } else {
        let t = os.drop_last();
        assert(t.take(k) =~= os.take(k));
        if k < t.len() {
            lemma_of_user_prefix_len(t, g, u, k);
            assert(t[k] == os[k]);
        } else {
            assert(os.take(k) =~= t);
            assert(os.take(k + 1) =~= os);
        }
    }
}

/// Other users never change the outcome for a user: the filter observing
/// every observation of `os` in order answers each observation of user `u`
/// of guild `g` as that user's tracker alone answers when it observes only
/// that user's observations, and ends with that tracker.
pub proof fn lemma_users_are_independent(
    config: AntiSpamConfig,
    f: spec_fn(u64, u64) -> TrackerView,
    os: Seq<ObservationView>,
    g: u64,
    u: u64,
)
    ensures
        run_filter(config, f, os).1.len() == os.len(),
        run_filter(config, f, os).0(g, u) == run_tracker(config, f(g, u), of_user(os, g, u)).0,
        forall|k: int|
            0 <= k < os.len() && os[k].guild_id == g && os[k].user_id == u ==> #[trigger] run_filter(
                config,
                f,
                os,
            ).1[k] == run_tracker(config, f(g, u), of_user(os, g, u)).1[of_user(
                os.take(k),
                g,
                u,
            ).len() as int],
    decreases os.len(),
{
    if os.len() > 0 {
        let t = os.drop_last();
        let o = os.last();
        lemma_users_are_independent(config, f, t, g, u);
        let mine = of_user(t, g, u);
        lemma_run_tracker_len(config, f(g, u), mine);
        let before = run_filter(config, f, t);
        assert forall|k: int|
            0 <= k < os.len() && os[k].guild_id == g && os[k].user_id == u implies #[trigger] run_filter(
                config,
                f,
                os,
            ).1[k] == run_tracker(config, f(g, u), of_user(os, g, u)).1[of_user(
                os.take(k),
                g,
                u,
            ).len() as int] by {
            if k == os.len() - 1 {
                assert(os.take(k) =~= t);
                assert(of_user(os, g, u).drop_last() =~= mine);
            } else {
                assert(os.take(k) =~= t.take(k));
                assert(t[k] == os[k]);
                lemma_of_user_prefix_len(t, g, u, k);
                if o.guild_id == g && o.user_id == u {
                    assert(of_user(os, g, u).drop_last() =~= mine);
                }
            }
        }
        if o.guild_id == g && o.user_id == u {
            assert(of_user(os, g, u).drop_last() =~= mine);
        }
    }
}

} // verus!
