//! The anti-spam filter: it notices a user posting the same image message
//! in several channels within a short window, and says what to do then.
pub mod alert;
pub mod cleanup;
pub mod config;
pub mod detector;
pub mod enforce;
pub mod laws;
pub mod model;

use std::collections::HashMap;
use vstd::prelude::*;

use crate::message::MessageInfo;
use config::AntiSpamConfig;
use detector::{detect_incident, detected, IncidentView, SpamIncident};
use model::{
    acted, empty_tracker, on_cooldown, pruned, recorded, Observation, ObservationView,
    TrackerView, UserTracker,
};

verus! {

/// One observation seen by a user's tracker: the new tracker and the
/// incident, if the observation completes one. The tracker first forgets
/// what is older than the window; during a cooldown nothing else happens;
/// otherwise the message is remembered, and an incident resets the tracker
/// and starts a cooldown.
pub open spec fn observe_step(config: AntiSpamConfig, t: TrackerView, o: ObservationView) -> (
    TrackerView,
    Option<IncidentView>,
) {
    let p = pruned(t, o.observed_at, config.duplicate_window_seconds);
    if on_cooldown(p, o.observed_at) {
        (p, None)
    } else {
        let r = recorded(p, o);
        match detected(r, o, config.distinct_channels_threshold as nat) {
            None => (r, None),
            Some(incident) => (acted(o.observed_at), Some(incident)),
        }
    }
}

/// One observation seen by the whole filter, whose trackers are `f`: the
/// observed user's tracker takes one `observe_step`, every other tracker
/// stays as it was.
pub open spec fn filter_step(
    config: AntiSpamConfig,
    f: spec_fn(u64, u64) -> TrackerView,
    o: ObservationView,
) -> (spec_fn(u64, u64) -> TrackerView, Option<IncidentView>) {
    let step = observe_step(config, f(o.guild_id, o.user_id), o);
    (
        |g: u64, u: u64|
            if g == o.guild_id && u == o.user_id {
                step.0
            } else {
                f(g, u)
            },
        step.1,
    )
}

pub open spec fn incident_view(r: Option<SpamIncident>) -> Option<IncidentView> {
    match r {
        Some(i) => Some(i@),
        None => None,
    }
}

/// The filter: its settings and a tracker per user and guild.
pub struct AntiSpam {
    config: AntiSpamConfig,
    state: HashMap<u64, HashMap<u64, UserTracker>>,
}

/// Runs one observation on one tracker.
fn observe_tracker(tracker: &mut UserTracker, config: AntiSpamConfig, observation: &Observation) -> (r:
    Option<SpamIncident>)
    ensures
        (final(tracker)@, incident_view(r)) == observe_step(config, old(tracker)@, observation@),
{
    tracker.prune(observation.observed_at, config.duplicate_window_seconds);
    if tracker.is_on_cooldown(observation.observed_at) {
        return None;
    }
    tracker.record(observation);
    match detect_incident(tracker, observation, config.distinct_channels_threshold) {
        None => None,
        Some(incident) => {
            tracker.mark_action(observation.observed_at);
            Some(incident)
        },
    }
}

impl AntiSpam {
    pub closed spec fn spec_config(&self) -> AntiSpamConfig {
        self.config
    }

    /// What the filter remembers of `user` in `guild`.
    pub closed spec fn tracker_of(&self, guild: u64, user: u64) -> TrackerView {
        if self.state@.contains_key(guild) && self.state@[guild]@.contains_key(user) {
            self.state@[guild]@[user]@
        } else {
            empty_tracker()
        }
    }

    /// The trackers of all users.
    pub closed spec fn trackers(&self) -> spec_fn(u64, u64) -> TrackerView {
        |g: u64, u: u64| self.tracker_of(g, u)
    }

    /// A filter with the given settings that has seen nothing.
    pub fn new(config: AntiSpamConfig) -> (r: Self)
        ensures
            r.spec_config() == config,
            forall|g: u64, u: u64| #[trigger] r.tracker_of(g, u) == empty_tracker(),
    {
        AntiSpam { config, state: HashMap::new() }
    }

    /// The filter's settings.
    pub fn config(&self) -> (r: AntiSpamConfig)
        ensures
            r == self.spec_config(),
    {
        self.config
    }

    /// Looks at one observation: the incident it completes, if any. Only
    /// the tracker of the observation's user and guild changes.
    pub fn observe(&mut self, observation: Observation) -> (r: Option<SpamIncident>)
        ensures
            final(self).spec_config() == old(self).spec_config(),
            (final(self).tracker_of(observation.guild_id, observation.user_id), incident_view(r))
                == observe_step(
                old(self).spec_config(),
                old(self).tracker_of(observation.guild_id, observation.user_id),
                observation@,
            ),
            forall|g: u64, u: u64|
                !(g == observation.guild_id && u == observation.user_id)
                    ==> #[trigger] final(self).tracker_of(g, u) == old(self).tracker_of(g, u),
            final(self).trackers() == filter_step(
                old(self).spec_config(),
                old(self).trackers(),
                observation@,
            ).0,
            incident_view(r) == filter_step(old(self).spec_config(), old(self).trackers(), observation@).1,
    {
        broadcast use vstd::std_specs::hash::group_hash_axioms;

        let g = observation.guild_id;
        let u = observation.user_id;
        let ghost old_state = self.state@;
        let mut users = match self.state.remove(&g) {
            Some(m) => m,
            None => HashMap::new(),
        };
        let ghost old_users = users@;
        let mut tracker = match users.remove(&u) {
            Some(t) => t,
            None => UserTracker::new(),
        };
        assert(tracker@ == old(self).tracker_of(g, u));
        let r = observe_tracker(&mut tracker, self.config, &observation);
        users.insert(u, tracker);
        self.state.insert(g, users);
        proof {
            assert forall|g2: u64, u2: u64|
                !(g2 == g && u2 == u) implies #[trigger] self.tracker_of(g2, u2) == old(
                self,
            ).tracker_of(g2, u2) by {
                if g2 != g {
                    assert(self.state@[g2] == old_state[g2]);
                } else {
                    assert(self.state@[g]@ == old_users.remove(u).insert(u, tracker));
                }
            }
            assert(self.trackers() =~= filter_step(
                old(self).spec_config(),
                old(self).trackers(),
                observation@,
            ).0);
        }
        r
    }

    /// Looks at a message: the incident it completes, if any. Messages from
    /// bots, webhooks, outside guilds or without images are ignored.
    pub fn observe_message(&mut self, message: &MessageInfo) -> (r: Option<SpamIncident>)
        ensures
            final(self).spec_config() == old(self).spec_config(),
            match Observation::spec_from_message(*message) {
                None => r is None && final(self).trackers() == old(self).trackers() && forall|
                    g: u64,
                    u: u64,
                | #[trigger] final(self).tracker_of(g, u) == old(self).tracker_of(g, u),
                Some(o) => {
                    &&& (final(self).tracker_of(o.guild_id, o.user_id), incident_view(r))
                        == observe_step(
                        old(self).spec_config(),
                        old(self).tracker_of(o.guild_id, o.user_id),
                        o,
                    )
                    &&& forall|g: u64, u: u64|
                        !(g == o.guild_id && u == o.user_id)
                            ==> #[trigger] final(self).tracker_of(g, u) == old(self).tracker_of(g, u)
                    &&& final(self).trackers() == filter_step(
                        old(self).spec_config(),
                        old(self).trackers(),
                        o,
                    ).0
                    &&& incident_view(r) == filter_step(old(self).spec_config(), old(self).trackers(), o).1
                },
            },
    {
        match Observation::from_message(message) {
            None => None,
            Some(observation) => self.observe(observation),
        }
    }
}

} // verus!
