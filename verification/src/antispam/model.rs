//! What the anti-spam filter remembers of each user, and how it recognizes
//! the same message posted again.
use vstd::prelude::*;

use crate::message::{AttachmentInfo, MessageInfo};
use crate::numbers::{decimal, push_decimal};
use crate::text::{
    chars_of, extend_chars, is_whitespace, is_ws, lemma_sorted_version, sort_strings, sorted_version, lowercase,
    starts_with, starts_with_chars, string_of, string_views, sub_chars, to_lowercase,
};

verus! {

/// After acting on a user, their messages are ignored for this many seconds.
pub const ACTION_COOLDOWN_SECONDS: i64 = 60;

/// The longest preview of a message's text, in characters.
pub const PREVIEW_MAX_CHARS: usize = 120;

// ---------------------------------------------------------------------------
// Time
// ---------------------------------------------------------------------------

/// `now - past` in seconds, saturating at the bounds of `i64`
/// (`i64::saturating_sub`).
pub open spec fn elapsed(now: i64, past: i64) -> i64 {
    let d = now as int - past as int;
    if d > i64::MAX as int {
        i64::MAX
    } else if d < i64::MIN as int {
        i64::MIN
    } else {
        d as i64
    }
}

/// The seconds from `past` to `now`, saturating.
pub fn elapsed_seconds(now: i64, past: i64) -> (r: i64)
    ensures
        r == elapsed(now, past),
{
    let d = now as i128 - past as i128;
    if d > i64::MAX as i128 {
        i64::MAX
    } else if d < i64::MIN as i128 {
        i64::MIN
    } else {
        d as i64
    }
}

// ---------------------------------------------------------------------------
// Message text
// ---------------------------------------------------------------------------

/// The number of non-whitespace characters at the start of `s`.
pub open spec fn word_len(s: Seq<char>) -> nat
    decreases s.len(),
{
    if s.len() > 0 && !is_ws(s[0]) {
        1 + word_len(s.drop_first())
    } else {
        0
    }
}

pub proof fn lemma_word_len_bound(s: Seq<char>)
    ensures
        word_len(s) <= s.len(),
        s.len() > 0 && !is_ws(s[0]) ==> word_len(s) > 0,
    decreases s.len(),
{
    if s.len() > 0 && !is_ws(s[0]) {
        lemma_word_len_bound(s.drop_first());
    }
}

pub proof fn lemma_word_len_at(s: Seq<char>, k: int)
    requires
        0 <= k <= s.len(),
        forall|i: int| 0 <= i < k ==> !is_ws(#[trigger] s[i]),
        k == s.len() || is_ws(s[k]),
    ensures
        word_len(s) == k,
    decreases k,
{
    if k > 0 {
        let t = s.drop_first();
        assert forall|i: int| 0 <= i < k - 1 implies !is_ws(#[trigger] t[i]) by {
            assert(t[i] == s[i + 1]);
        }
        if k - 1 < t.len() {
            assert(t[k - 1] == s[k]);
        }
        lemma_word_len_at(t, k - 1);
    }
}

/// The whitespace-separated words of `s` (`str::split_whitespace`).
pub open spec fn words(s: Seq<char>) -> Seq<Seq<char>>
    decreases s.len(),
{
    if s.len() == 0 {
        Seq::empty()
    } else if is_ws(s[0]) {
        words(s.drop_first())
    } else {
        let n = word_len(s);
        proof {
            lemma_word_len_bound(s);
        }
        seq![s.take(n as int)] + words(s.skip(n as int))
    }
}

/// The words of `ws` joined by single spaces.
pub open spec fn join_spaced(ws: Seq<Seq<char>>) -> Seq<char>
    decreases ws.len(),
{
    if ws.len() == 0 {
        Seq::empty()
    } else if ws.len() == 1 {
        ws[0]
    } else {
        join_spaced(ws.drop_last()) + seq![' '] + ws.last()
    }
}

/// A message's text as the filter compares it: its words lowercased and
/// joined by single spaces.
pub open spec fn normalized(s: Seq<char>) -> Seq<char> {
    join_spaced(words(s).map_values(|w: Seq<char>| lowercase(w)))
}

pub fn normalize_content(content: &str) -> (r: String)
    ensures
        r@ == normalized(content@),
{
    let chars = chars_of(content);
    let mut out: Vec<char> = Vec::new();
    let ghost mut done: Seq<Seq<char>> = Seq::empty();
    let mut any_word = false;
    let mut i: usize = 0;
    assert(chars@.skip(0) =~= chars@);
    assert(done + words(content@) =~= words(content@));
    while i < chars.len()
        invariant
            chars@ == content@,
            i <= chars@.len(),
            words(content@) == done + words(chars@.skip(i as int)),
            any_word == (done.len() > 0),
            out@ == join_spaced(done.map_values(|w: Seq<char>| lowercase(w))),
        decreases chars@.len() - i,
    {
        let ghost rest = chars@.skip(i as int);
        assert(rest[0] == chars@[i as int]);
        if is_whitespace(chars[i]) {
            assert(rest.drop_first() =~= chars@.skip(i + 1));
            i += 1;
        } else {
            let mut j = i + 1;
            while j < chars.len() && !is_whitespace(chars[j])
                invariant
                    i < j <= chars@.len(),
                    forall|k: int| i <= k < j ==> !is_ws(#[trigger] chars@[k]),
                decreases chars@.len() - j,
            {
                j += 1;
            }
            proof {
                assert forall|k: int| 0 <= k < j - i implies !is_ws(#[trigger] rest[k]) by {
                    assert(rest[k] == chars@[i + k]);
                }
                if j - i < rest.len() {
                    assert(rest[j - i] == chars@[j as int]);
                }
                lemma_word_len_at(rest, j - i);
                assert(rest.skip(j - i) =~= chars@.skip(j as int));
            }
            let word = sub_chars(&chars, i, j);
            assert(word@ =~= rest.take(j - i));
            let lower = to_lowercase(string_of(&word).as_str());
            let ghost old_done = done;
            let ghost old_lowered = done.map_values(|w: Seq<char>| lowercase(w));
            if any_word {
                out.push(' ');
            }
            any_word = true;
            extend_chars(&mut out, &chars_of(lower.as_str()));
            proof {
                done = done.push(word@);
                let lowered = done.map_values(|w: Seq<char>| lowercase(w));
                assert(lowered =~= old_lowered.push(lowercase(word@)));
                assert(lowered.drop_last() =~= old_lowered);
                assert(old_done + words(rest) =~= done + words(chars@.skip(j as int)));
                if old_done.len() == 0 {
                    assert(out@ =~= join_spaced(lowered));
                } else {
                    assert(out@ =~= join_spaced(lowered));
                }
            }
            i = j;
        }
    }
    assert(chars@.skip(i as int) =~= Seq::<char>::empty());
    assert(done + Seq::<Seq<char>>::empty() =~= done);
    string_of(&out)
}

/// `s` cut to its first `max` characters followed by `...` when it is longer.
pub open spec fn truncated(s: Seq<char>, max: nat) -> Seq<char> {
    if s.len() <= max {
        s
    } else {
        s.take(max as int) + "..."@
    }
}

pub fn truncate_text(content: &str, max_chars: usize) -> (r: String)
    ensures
        r@ == truncated(content@, max_chars as nat),
{
    let chars = chars_of(content);
    if chars.len() <= max_chars {
        return string_of(&chars);
    }
    let mut head = sub_chars(&chars, 0, max_chars);
    head.push('.');
    head.push('.');
    head.push('.');
    proof {
        reveal_strlit("...");
        assert(head@ =~= content@.take(max_chars as int) + "..."@);
    }
    string_of(&head)
}

// ---------------------------------------------------------------------------
// Attachments
// ---------------------------------------------------------------------------

/// An attachment is an image when its content type says `image/...`, or,
/// without a content type, when it has both a width and a height.
pub open spec fn is_image(a: AttachmentInfo) -> bool {
    match a.content_type {
        Some(ct) => starts_with(ct@, "image/"@),
        None => a.width is Some && a.height is Some,
    }
}

pub fn is_image_attachment(a: &AttachmentInfo) -> (r: bool)
    ensures
        r == is_image(*a),
{
    match &a.content_type {
        Some(ct) => starts_with_chars(&chars_of(ct.as_str()), &chars_of("image/")),
        None => a.width.is_some() && a.height.is_some(),
    }
}

/// `filename:size:width:height:content-type` of an image, lowercased, with 0
/// for a missing width or height and `unknown` for a missing content type.
pub open spec fn descriptor(a: AttachmentInfo) -> Seq<char> {
    lowercase(a.filename@) + ":"@ + decimal(a.size as nat) + ":"@ + decimal(
        (match a.width {
            Some(w) => w,
            None => 0u32,
        }) as nat,
    ) + ":"@ + decimal(
        (match a.height {
            Some(h) => h,
            None => 0u32,
        }) as nat,
    ) + ":"@ + lowercase(
        match a.content_type {
            Some(ct) => ct@,
            None => "unknown"@,
        },
    )
}

pub fn image_descriptor(a: &AttachmentInfo) -> (r: String)
    ensures
        r@ == descriptor(*a),
{
    proof {
        reveal_strlit(":");
    }
    let mut out = chars_of(to_lowercase(a.filename.as_str()).as_str());
    out.push(':');
    push_decimal(&mut out, a.size as u64);
    out.push(':');
    let w: u32 = match a.width {
        Some(w) => w,
        None => 0,
    };
    push_decimal(&mut out, w as u64);
    out.push(':');
    let h: u32 = match a.height {
        Some(h) => h,
        None => 0,
    };
    push_decimal(&mut out, h as u64);
    out.push(':');
    let ct = match &a.content_type {
        Some(ct) => to_lowercase(ct.as_str()),
        None => to_lowercase("unknown"),
    };
    extend_chars(&mut out, &chars_of(ct.as_str()));
    assert(out@ =~= descriptor(*a));
    string_of(&out)
}

/// The descriptors of the image attachments among `atts`, in order.
pub open spec fn image_descriptors_of(atts: Seq<AttachmentInfo>) -> Seq<Seq<char>>
    decreases atts.len(),
{
    if atts.len() == 0 {
        Seq::empty()
    } else if is_image(atts.last()) {
        image_descriptors_of(atts.drop_last()).push(descriptor(atts.last()))
    } else {
        image_descriptors_of(atts.drop_last())
    }
}

// ---------------------------------------------------------------------------
// Fingerprints
// ---------------------------------------------------------------------------

/// What makes two messages "the same": their normalized text and the sorted
/// descriptors of their images.
pub struct MessageFingerprint {
    pub normalized_content: String,
    pub image_descriptors: Vec<String>,
}

pub struct FingerprintView {
    pub content: Seq<char>,
    pub images: Seq<Seq<char>>,
}

impl View for MessageFingerprint {
    type V = FingerprintView;

    open spec fn view(&self) -> FingerprintView {
        FingerprintView {
            content: self.normalized_content@,
            images: string_views(self.image_descriptors@),
        }
    }
}

/// The preview of a message's normalized text in alerts.
pub open spec fn preview_of(content: Seq<char>) -> Seq<char> {
    if content.len() == 0 {
        "(sin texto)"@
    } else {
        truncated(content, PREVIEW_MAX_CHARS as nat)
    }
}

fn copy_strings(v: &Vec<String>) -> (r: Vec<String>)
    ensures
        string_views(r@) == string_views(v@),
{
    let mut out: Vec<String> = Vec::new();
    let mut i: usize = 0;
    while i < v.len()
        invariant
            i <= v@.len(),
            string_views(out@) =~= string_views(v@.take(i as int)),
        decreases v@.len() - i,
    {
        let c = v[i].clone();
        assert(c == v@[i as int]);
        let ghost o0 = out@;
        out.push(c);
        assert(v@.take(i + 1) =~= v@.take(i as int).push(v@[i as int]));
        assert(string_views(out@) =~= string_views(o0).push(c@));
        i += 1;
    }
    assert(v@.take(v@.len() as int) =~= v@);
    out
}

/// The fingerprint of a message: its normalized text and the descriptors of
/// its images, sorted.
pub open spec fn fingerprint_of(message: MessageInfo) -> FingerprintView {
    FingerprintView {
        content: normalized(message.content@),
        images: sorted_version(image_descriptors_of(message.attachments@)),
    }
}

impl MessageFingerprint {
    /// The fingerprint of a message with at least one image attachment;
    /// `None` for a message without images, which the filter ignores.
    pub fn from_message(message: &MessageInfo) -> (r: Option<Self>)
        ensures
            match r {
                None => image_descriptors_of(message.attachments@).len() == 0,
                Some(f) => {
                    &&& image_descriptors_of(message.attachments@).len() > 0
                    &&& f@ == fingerprint_of(*message)
                },
            },
    {
        let mut descriptors: Vec<String> = Vec::new();
        let mut i: usize = 0;
        while i < message.attachments.len()
            invariant
                i <= message.attachments@.len(),
                string_views(descriptors@) == image_descriptors_of(
                    message.attachments@.take(i as int),
                ),
            decreases message.attachments@.len() - i,
        {
            let a = &message.attachments[i];
            assert(message.attachments@.take(i + 1).drop_last() =~= message.attachments@.take(
                i as int,
            ));
            if is_image_attachment(a) {
                let d = image_descriptor(a);
                let ghost before = string_views(descriptors@);
                descriptors.push(d);
                assert(string_views(descriptors@) =~= before.push(d@));
            }
            i += 1;
        }
        assert(message.attachments@.take(message.attachments@.len() as int)
            =~= message.attachments@);
        if descriptors.len() == 0 {
            return None;
        }
        let sorted = sort_strings(descriptors);
        proof {
            lemma_sorted_version(
                string_views(sorted@),
                image_descriptors_of(message.attachments@),
            );
        }
        Some(MessageFingerprint {
            normalized_content: normalize_content(message.content.as_str()),
            image_descriptors: sorted,
        })
    }

    /// The text shown for this message in alerts: its normalized text cut
    /// at 120 characters, or `(sin texto)` when it has none.
    pub fn preview(&self) -> (r: String)
        ensures
            r@ == preview_of(self@.content),
    {
        if self.normalized_content.as_str().unicode_len() == 0 {
            return String::from_str("(sin texto)");
        }
        truncate_text(self.normalized_content.as_str(), PREVIEW_MAX_CHARS)
    }

    /// Whether two fingerprints are equal.
    pub fn same_as(&self, other: &MessageFingerprint) -> (r: bool)
        ensures
            r == (self@ == other@),
    {
        if self.normalized_content != other.normalized_content {
            return false;
        }
        if self.image_descriptors.len() != other.image_descriptors.len() {
            assert(string_views(self.image_descriptors@).len() != string_views(
                other.image_descriptors@,
            ).len());
            return false;
        }
        let mut i: usize = 0;
        while i < self.image_descriptors.len()
            invariant
                self.image_descriptors@.len() == other.image_descriptors@.len(),
                i <= self.image_descriptors@.len(),
                forall|k: int|
                    0 <= k < i ==> #[trigger] self.image_descriptors@[k]@
                        == other.image_descriptors@[k]@,
            decreases self.image_descriptors@.len() - i,
        {
            if self.image_descriptors[i] != other.image_descriptors[i] {
                assert(string_views(self.image_descriptors@)[i as int] != string_views(
                    other.image_descriptors@,
                )[i as int]);
                return false;
            }
            i += 1;
        }
        assert(string_views(self.image_descriptors@) =~= string_views(other.image_descriptors@));
        true
    }

    /// A copy of this fingerprint.
    pub fn duplicate(&self) -> (r: Self)
        ensures
            r@ == self@,
    {
        MessageFingerprint {
            normalized_content: self.normalized_content.clone(),
            image_descriptors: copy_strings(&self.image_descriptors),
        }
    }
}

// ---------------------------------------------------------------------------
// Observations and trackers
// ---------------------------------------------------------------------------

/// One message that the filter looks at.
pub struct Observation {
    pub guild_id: u64,
    pub user_id: u64,
    pub channel_id: u64,
    pub message_id: u64,
    pub observed_at: i64,
    pub fingerprint: MessageFingerprint,
}

pub struct ObservationView {
    pub guild_id: u64,
    pub user_id: u64,
    pub channel_id: u64,
    pub message_id: u64,
    pub observed_at: i64,
    pub fingerprint: FingerprintView,
}

impl View for Observation {
    type V = ObservationView;

    open spec fn view(&self) -> ObservationView {
        ObservationView {
            guild_id: self.guild_id,
            user_id: self.user_id,
            channel_id: self.channel_id,
            message_id: self.message_id,
            observed_at: self.observed_at,
            fingerprint: self.fingerprint@,
        }
    }
}

impl Observation {
    /// The observation of a message: none for bots, webhooks, messages
    /// outside a guild, and messages without images.
    pub open spec fn spec_from_message(message: MessageInfo) -> Option<ObservationView> {
        if message.author_is_bot || message.from_webhook || message.guild_id is None
            || image_descriptors_of(message.attachments@).len() == 0 {
            None
        } else {
            Some(
                ObservationView {
                    guild_id: message.guild_id->0,
                    user_id: message.author_id,
                    channel_id: message.channel_id,
                    message_id: message.id,
                    observed_at: message.created_at,
                    fingerprint: fingerprint_of(message),
                },
            )
        }
    }

    /// The observation of a message: none for bots, webhooks, messages
    /// outside a guild, and messages without images.
    pub fn from_message(message: &MessageInfo) -> (r: Option<Self>)
        ensures
            match r {
                None => Self::spec_from_message(*message) is None,
                Some(o) => Self::spec_from_message(*message) == Some(o@),
            },
    {
        if message.author_is_bot || message.from_webhook {
            return None;
        }
        let guild_id = match message.guild_id {
            Some(g) => g,
            None => return None,
        };
        let fingerprint = match MessageFingerprint::from_message(message) {
            Some(f) => f,
            None => return None,
        };
        Some(Observation {
            guild_id,
            user_id: message.author_id,
            channel_id: message.channel_id,
            message_id: message.id,
            observed_at: message.created_at,
            fingerprint,
        })
    }
}

/// A message that the filter remembers for a user.
pub struct ObservedMessage {
    channel_id: u64,
    observed_at: i64,
    fingerprint: MessageFingerprint,
}

pub struct ObservedView {
    pub channel_id: u64,
    pub observed_at: i64,
    pub fingerprint: FingerprintView,
}

impl View for ObservedMessage {
    type V = ObservedView;

    closed spec fn view(&self) -> ObservedView {
        ObservedView {
            channel_id: self.channel_id,
            observed_at: self.observed_at,
            fingerprint: self.fingerprint@,
        }
    }
}

impl ObservedMessage {
    pub fn channel_id(&self) -> (r: u64)
        ensures
            r == self@.channel_id,
    {
        self.channel_id
    }

    pub fn observed_at(&self) -> (r: i64)
        ensures
            r == self@.observed_at,
    {
        self.observed_at
    }

    pub fn fingerprint(&self) -> (r: &MessageFingerprint)
        ensures
            r@ == self@.fingerprint,
    {
        &self.fingerprint
    }
}

pub open spec fn observed_views(s: Seq<ObservedMessage>) -> Seq<ObservedView> {
    s.map_values(|m: ObservedMessage| m@)
}

/// What the filter remembers of one user in one guild.
pub struct UserTracker {
    recent_messages: std::collections::VecDeque<ObservedMessage>,
    last_action_at: Option<i64>,
}

pub struct TrackerView {
    pub recent: Seq<ObservedView>,
    pub last_action_at: Option<i64>,
}

impl View for UserTracker {
    type V = TrackerView;

    closed spec fn view(&self) -> TrackerView {
        TrackerView {
            recent: observed_views(self.recent_messages@),
            last_action_at: self.last_action_at,
        }
    }
}

/// A tracker that has seen nothing.
pub open spec fn empty_tracker() -> TrackerView {
    TrackerView { recent: Seq::empty(), last_action_at: None }
}

/// The messages of `s` seen at most `window` seconds before `now`, in order.
pub open spec fn within_window(s: Seq<ObservedView>, now: i64, window: i64) -> Seq<ObservedView>
    decreases s.len(),
{
    if s.len() == 0 {
        Seq::empty()
    } else if elapsed(now, s.last().observed_at) <= window {
        within_window(s.drop_last(), now, window).push(s.last())
    } else {
        within_window(s.drop_last(), now, window)
    }
}

/// The tracker at `now`: messages older than the window are forgotten, and
/// so is an action older than the cooldown.
pub open spec fn pruned(t: TrackerView, now: i64, window: i64) -> TrackerView {
    TrackerView {
        recent: within_window(t.recent, now, window),
        last_action_at: match t.last_action_at {
            Some(last) => if elapsed(now, last) > ACTION_COOLDOWN_SECONDS {
                None
            } else {
                Some(last)
            },
            None => None,
        },
    }
}

/// Whether the user was acted on at most the cooldown before `at`.
pub open spec fn on_cooldown(t: TrackerView, at: i64) -> bool {
    match t.last_action_at {
        Some(last) => elapsed(at, last) <= ACTION_COOLDOWN_SECONDS,
        None => false,
    }
}

/// The remembered form of an observation.
pub open spec fn observed_from(o: ObservationView) -> ObservedView {
    ObservedView {
        channel_id: o.channel_id,
        observed_at: o.observed_at,
        fingerprint: o.fingerprint,
    }
}

pub open spec fn recorded(t: TrackerView, o: ObservationView) -> TrackerView {
    TrackerView { recent: t.recent.push(observed_from(o)), last_action_at: t.last_action_at }
}

pub open spec fn acted(at: i64) -> TrackerView {
    TrackerView { recent: Seq::empty(), last_action_at: Some(at) }
}

/// The messages of `s` with fingerprint `fp`, in order.
pub open spec fn matching(s: Seq<ObservedView>, fp: FingerprintView) -> Seq<ObservedView>
    decreases s.len(),
{
    if s.len() == 0 {
        Seq::empty()
    } else if s.last().fingerprint == fp {
        matching(s.drop_last(), fp).push(s.last())
    } else {
        matching(s.drop_last(), fp)
    }
}

impl UserTracker {
    /// A tracker that has seen nothing.
    pub fn new() -> (r: Self)
        ensures
            r@ == empty_tracker(),
    {
        let r = UserTracker {
            recent_messages: std::collections::VecDeque::new(),
            last_action_at: None,
        };
        assert(observed_views(r.recent_messages@) =~= Seq::<ObservedView>::empty());
        r
    }

    /// Forgets the messages seen more than `window_seconds` before `now`,
    /// and an action taken more than the cooldown before `now`.
    pub fn prune(&mut self, now: i64, window_seconds: i64)
        ensures
            final(self)@ == pruned(old(self)@, now, window_seconds),
    {
        let ghost orig = observed_views(self.recent_messages@);
        let mut retained: std::collections::VecDeque<ObservedMessage> =
            std::collections::VecDeque::new();
        let n = self.recent_messages.len();
        let mut i: usize = 0;
        assert(orig.skip(0) =~= orig);
        assert(observed_views(retained@) =~= within_window(orig.take(0), now, window_seconds));
        while i < n
            invariant
                n == orig.len(),
                i <= n,
                observed_views(self.recent_messages@) == orig.skip(i as int),
                self.last_action_at == old(self).last_action_at,
                observed_views(retained@) == within_window(
                    orig.take(i as int),
                    now,
                    window_seconds,
                ),
            decreases n - i,
        {
            let ghost before = self.recent_messages@;
            assert(observed_views(before).len() == before.len());
            assert(before.len() == n - i);
            assert(observed_views(before)[0] == orig[i as int]);
            let popped = self.recent_messages.pop_front();
            let entry = popped.unwrap();
            assert(self.recent_messages@ =~= before.subrange(1, before.len() as int));
            proof {
                let now_left = self.recent_messages@;
                assert forall|k: int| 0 <= k < now_left.len() implies #[trigger] observed_views(
                    now_left,
                )[k] == orig.skip(i + 1)[k] by {
                    assert(now_left[k] == before[k + 1]);
                    assert(observed_views(before)[k + 1] == orig.skip(i as int)[k + 1]);
                }
            }
            assert(observed_views(self.recent_messages@) =~= orig.skip(i + 1));
            assert(orig.take(i + 1).drop_last() =~= orig.take(i as int));
            assert(orig.take(i + 1).last() == entry@);
            if elapsed_seconds(now, entry.observed_at) <= window_seconds {
                let ghost r0 = retained@;
                retained.push_back(entry);
                assert(observed_views(retained@) =~= observed_views(r0).push(entry@));
            }
            i += 1;
        }
        assert(orig.take(n as int) =~= orig);
        assert(observed_views(retained@) == within_window(orig, now, window_seconds));
        let last_action_at = match self.last_action_at {
            Some(last) => if elapsed_seconds(now, last) > ACTION_COOLDOWN_SECONDS {
                None
            } else {
                Some(last)
            },
            None => None,
        };
        self.recent_messages = retained;
        self.last_action_at = last_action_at;
        assert(self@.recent == within_window(orig, now, window_seconds));
        assert(orig == old(self)@.recent);
        assert(self@.last_action_at == pruned(old(self)@, now, window_seconds).last_action_at);
    }

    /// Whether the user was acted on at most the cooldown before `observed_at`.
    pub fn is_on_cooldown(&self, observed_at: i64) -> (r: bool)
        ensures
            r == on_cooldown(self@, observed_at),
    {
        match self.last_action_at {
            Some(last) => elapsed_seconds(observed_at, last) <= ACTION_COOLDOWN_SECONDS,
            None => false,
        }
    }

    /// Remembers an observed message.
    pub fn record(&mut self, observation: &Observation)
        ensures
            final(self)@ == recorded(old(self)@, observation@),
    {
        let ghost before = self.recent_messages@;
        self.recent_messages.push_back(
            ObservedMessage {
                channel_id: observation.channel_id,
                observed_at: observation.observed_at,
                fingerprint: observation.fingerprint.duplicate(),
            },
        );
        assert(observed_views(self.recent_messages@) =~= observed_views(before).push(
            observed_from(observation@),
        ));
    }

    /// The remembered messages with fingerprint `fingerprint`, in order.
    pub fn matching_messages(&self, fingerprint: &MessageFingerprint) -> (r: Vec<&ObservedMessage>)
        ensures
            r@.map_values(|m: &ObservedMessage| m@) == matching(self@.recent, fingerprint@),
    {
        let mut out: Vec<&ObservedMessage> = Vec::new();
        let n = self.recent_messages.len();
        let ghost all = observed_views(self.recent_messages@);
        let mut i: usize = 0;
        assert(out@.map_values(|m: &ObservedMessage| m@) =~= matching(all.take(0), fingerprint@));
        while i < n
            invariant
                n == all.len(),
                all == observed_views(self.recent_messages@),
                i <= n,
                out@.map_values(|m: &ObservedMessage| m@) == matching(
                    all.take(i as int),
                    fingerprint@,
                ),
            decreases n - i,
        {
            let m = &self.recent_messages[i];
            assert(all.take(i + 1).drop_last() =~= all.take(i as int));
            assert(all.take(i + 1).last() == m@);
            if m.fingerprint.same_as(fingerprint) {
                let ghost o0 = out@;
                out.push(m);
                assert(out@.map_values(|m: &ObservedMessage| m@) =~= o0.map_values(
                    |m: &ObservedMessage| m@,
                ).push(m@));
            }
            i += 1;
        }
        assert(all.take(n as int) =~= all);
        out
    }

    /// Records that the user was acted on at `observed_at`, forgetting their
    /// messages.
    pub fn mark_action(&mut self, observed_at: i64)
        ensures
            final(self)@ == acted(observed_at),
    {
        self.last_action_at = Some(observed_at);
        self.recent_messages.clear();
        assert(observed_views(self.recent_messages@) =~= Seq::<ObservedView>::empty());
    }
}

} // verus!
