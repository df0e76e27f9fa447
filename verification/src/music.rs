//! The decisions of the music commands: what a query asks for, which of
//! the loaded tracks are queued, and what the bot answers.
use vstd::prelude::*;

use crate::text::{chars_of, extend_chars, starts_with, starts_with_chars, string_of};

verus! {

/// Whether a play query is a link to load as is (it starts with `http`),
/// rather than words to search for.
pub fn is_direct_link(query: &str) -> (r: bool)
    ensures
        r == starts_with(query@, "http"@),
{
    starts_with_chars(&chars_of(query), &chars_of("http"))
}

/// What loading a query gave.
#[derive(Clone, Copy, Debug, PartialEq, Eq, Structural)]
pub enum LoadResult {
    /// One track.
    Track,
    /// Search results, this many.
    Search { results: usize },
    /// A playlist of this many tracks.
    Playlist { tracks: usize },
    /// Nothing usable (no data, or an error).
    Nothing,
}

/// What to do with the loaded tracks.
#[derive(Clone, Copy, Debug, PartialEq, Eq)]
pub enum TrackSelection {
    /// Queue the first `count` loaded tracks.
    Queue { count: usize },
    /// Queue nothing and answer this.
    Respond { message: &'static str },
}

pub open spec fn selection_spec(load: LoadResult) -> (Option<nat>, Seq<char>) {
    match load {
        LoadResult::Track => (Some(1), Seq::empty()),
        LoadResult::Search { results } => if results == 0 {
            (None, "No se encontraron resultados"@)
        } else {
            (Some(1), Seq::empty())
        },
        LoadResult::Playlist { tracks } => if tracks == 0 {
            (None, "La lista de reproducción está vacía"@)
        } else {
            (Some(tracks as nat), Seq::empty())
        },
        LoadResult::Nothing => (None, "No se encontraron resultados"@),
    }
}

/// How many tracks a load gave.
pub open spec fn loaded_tracks(load: LoadResult) -> nat {
    match load {
        LoadResult::Track => 1,
        LoadResult::Search { results } => results as nat,
        LoadResult::Playlist { tracks } => tracks as nat,
        LoadResult::Nothing => 0,
    }
}

/// Whatever was loaded is played: when a load gave tracks, at least one and
/// no more than it gave are queued (the track itself, the first search
/// result, or the whole playlist), and the answer is given only when the
/// load gave nothing. A single track and a search queue exactly one track.
pub proof fn lemma_loaded_tracks_are_queued(load: LoadResult)
    ensures
        loaded_tracks(load) > 0 ==> (selection_spec(load).0 matches Some(n) && 1 <= n
            <= loaded_tracks(load)),
        loaded_tracks(load) == 0 ==> selection_spec(load).0 is None,
        load is Playlist ==> (loaded_tracks(load) > 0 ==> selection_spec(load).0 == Some(
            loaded_tracks(load),
        )),
        load is Track ==> selection_spec(load).0 == Some(1nat),
        load is Search && loaded_tracks(load) > 0 ==> selection_spec(load).0 == Some(1nat),
{
}

/// A track is queued as is, a search queues its first result, a playlist
/// queues all its tracks; empty results are answered instead.
pub fn select_tracks(load: LoadResult) -> (r: TrackSelection)
    ensures
        match selection_spec(load) {
            (Some(n), _) => r == TrackSelection::Queue { count: n as usize },
            (None, m) => r matches TrackSelection::Respond { message } && message@ == m,
        },
{
    match load {
        LoadResult::Track => TrackSelection::Queue { count: 1 },
        LoadResult::Search { results } => if results == 0 {
            TrackSelection::Respond { message: "No se encontraron resultados" }
        } else {
            TrackSelection::Queue { count: 1 }
        },
        LoadResult::Playlist { tracks } => if tracks == 0 {
            TrackSelection::Respond { message: "La lista de reproducción está vacía" }
        } else {
            TrackSelection::Queue { count: tracks }
        },
        LoadResult::Nothing => TrackSelection::Respond { message: "No se encontraron resultados" },
    }
}

/// The title of the answer to a play command.
pub open spec fn song_heading_spec(is_playing: bool, title: Seq<char>) -> Seq<char> {
    if is_playing {
        title + " Añadido a la cola"@
    } else {
        "Reproduciendo "@ + title
    }
}

/// "Added to the queue" while something plays, "playing" otherwise.
pub fn song_heading(is_playing: bool, title: &str) -> (r: String)
    ensures
        r@ == song_heading_spec(is_playing, title@),
{
    if is_playing {
        let mut out = chars_of(title);
        extend_chars(&mut out, &chars_of(" Añadido a la cola"));
        string_of(&out)
    } else {
        let mut out = chars_of("Reproduciendo ");
        extend_chars(&mut out, &chars_of(title));
        string_of(&out)
    }
}

/// The description of the answer to a play command: who asked for it.
pub fn requester_line(author_name: &str) -> (r: String)
    ensures
        r@ == "**Solicitado por:** "@ + author_name@,
{
    let mut out = chars_of("**Solicitado por:** ");
    extend_chars(&mut out, &chars_of(author_name));
    string_of(&out)
}

/// Whether playback must be started after queueing: only when nothing was
/// playing.
pub fn must_start_playback(is_playing: bool) -> (r: bool)
    ensures
        r == !is_playing,
{
    !is_playing
}

/// The answer of `join` when it cannot join: the user is in no voice
/// channel, or the voice manager is missing. `None` when it can join.
pub fn join_refusal(user_in_voice: bool, has_voice_manager: bool) -> (r: Option<&'static str>)
    ensures
        !user_in_voice ==> (r matches Some(m) && m@ == "No estás en un canal de voz para unirme"@),
        user_in_voice && !has_voice_manager ==> (r matches Some(m) && m@
            == "No pude unirme a un canal de voz"@),
        user_in_voice && has_voice_manager ==> r is None,
{
    if !user_in_voice {
        Some("No estás en un canal de voz para unirme")
    } else if !has_voice_manager {
        Some("No pude unirme a un canal de voz")
    } else {
        None
    }
}

/// The answer of `leave` when the user is in no voice channel.
pub fn leave_refusal(user_in_voice: bool) -> (r: Option<&'static str>)
    ensures
        !user_in_voice ==> (r matches Some(m) && m@ == "No estoy en un canal de voz para salir"@),
        user_in_voice ==> r is None,
{
    if !user_in_voice {
        Some("No estoy en un canal de voz para salir")
    } else {
        None
    }
}

/// The answer of `resume`: nothing to resume without a player.
pub fn resume_reply(has_player: bool) -> (r: &'static str)
    ensures
        has_player ==> r@ == "▶️ Reanudando música"@,
        !has_player ==> r@ == "No hay nada pausado"@,
{
    if has_player {
        "▶️ Reanudando música"
    } else {
        "No hay nada pausado"
    }
}

} // verus!
