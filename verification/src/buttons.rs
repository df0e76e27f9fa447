//! The music player's buttons: what each button is, what pressing it does,
//! and which buttons a player message shows.
use vstd::prelude::*;

use crate::text::{chars_eq, chars_of};

verus! {

/// What a pressed button asks for, read from its custom id.
#[derive(Clone, Copy, Debug, PartialEq, Eq, Structural)]
pub enum ButtonAction {
    Skip,
    Stop,
    Pause,
    Resume,
    Close,
    Unknown,
}

/// The custom id of each button; `Unknown` is named after itself.
pub open spec fn custom_id_of(action: ButtonAction) -> Seq<char> {
    match action {
        ButtonAction::Skip => "skip"@,
        ButtonAction::Stop => "stop"@,
        ButtonAction::Pause => "pause"@,
        ButtonAction::Resume => "resume"@,
        ButtonAction::Close => "close"@,
        ButtonAction::Unknown => "Unknown"@,
    }
}

/// The action of the button with custom id `id`; any other id is `Unknown`.
pub open spec fn action_for_id(id: Seq<char>) -> ButtonAction {
    if id == "skip"@ {
        ButtonAction::Skip
    } else if id == "stop"@ {
        ButtonAction::Stop
    } else if id == "pause"@ {
        ButtonAction::Pause
    } else if id == "resume"@ {
        ButtonAction::Resume
    } else if id == "close"@ {
        ButtonAction::Close
    } else {
        ButtonAction::Unknown
    }
}

impl ButtonAction {
    /// The custom id that names this action.
    pub fn custom_id(self) -> (r: &'static str)
        ensures
            r@ == custom_id_of(self),
    {
        match self {
            ButtonAction::Skip => "skip",
            ButtonAction::Stop => "stop",
            ButtonAction::Pause => "pause",
            ButtonAction::Resume => "resume",
            ButtonAction::Close => "close",
            ButtonAction::Unknown => "Unknown",
        }
    }

    /// The action of a button's custom id (exact, case-sensitive match);
    /// `Unknown` for any other id.
    pub fn from_custom_id(id: &str) -> (r: ButtonAction)
        ensures
            r == action_for_id(id@),
    {
        let v = chars_of(id);
        if chars_eq(&v, &chars_of("skip")) {
            ButtonAction::Skip
        } else if chars_eq(&v, &chars_of("stop")) {
            ButtonAction::Stop
        } else if chars_eq(&v, &chars_of("pause")) {
            ButtonAction::Pause
        } else if chars_eq(&v, &chars_of("resume")) {
            ButtonAction::Resume
        } else if chars_eq(&v, &chars_of("close")) {
            ButtonAction::Close
        } else {
            ButtonAction::Unknown
        }
    }
}

/// Reading back a button's own custom id gives its action.
pub proof fn lemma_custom_id_round_trip(action: ButtonAction)
    ensures
        action_for_id(custom_id_of(action)) == action,
{
    reveal_strlit("skip");
    reveal_strlit("stop");
    reveal_strlit("pause");
    reveal_strlit("resume");
    reveal_strlit("close");
    reveal_strlit("Unknown");
    assert("stop"@ != "skip"@) by {
        assert("stop"@[1] != "skip"@[1]);
    }
    assert("pause"@ != "skip"@ && "pause"@ != "stop"@) by {
        assert("pause"@.len() != "skip"@.len());
    }
    assert("resume"@ != "skip"@ && "resume"@ != "stop"@ && "resume"@ != "pause"@) by {
        assert("resume"@.len() != "skip"@.len());
        assert("resume"@.len() != "pause"@.len());
    }
    assert("close"@ != "skip"@ && "close"@ != "stop"@ && "close"@ != "pause"@ && "close"@
        != "resume"@) by {
        assert("close"@.len() != "skip"@.len());
        assert("close"@[0] != "pause"@[0]);
        assert("close"@.len() != "resume"@.len());
    }
    assert("Unknown"@ != "skip"@ && "Unknown"@ != "stop"@ && "Unknown"@ != "pause"@ && "Unknown"@
        != "resume"@ && "Unknown"@ != "close"@) by {
        assert("Unknown"@.len() != "skip"@.len());
        assert("Unknown"@.len() != "pause"@.len());
        assert("Unknown"@.len() != "resume"@.len());
    }
}

/// A button of the player message.
#[derive(Clone, Copy, Debug, PartialEq, Eq)]
pub struct ButtonSpec {
    pub custom_id: &'static str,
    pub label: &'static str,
    pub emoji: char,
}

pub open spec fn stop_button() -> (Seq<char>, Seq<char>, char) {
    ("stop"@, "Detener"@, '⏹')
}

pub open spec fn skip_button() -> (Seq<char>, Seq<char>, char) {
    ("skip"@, "Saltar"@, '⏭')
}

pub open spec fn play_pause_button(is_paused: bool) -> (Seq<char>, Seq<char>, char) {
    if is_paused {
        ("resume"@, "Reanudar"@, '▶')
    } else {
        ("pause"@, "Pausar"@, '⏸')
    }
}

pub open spec fn button_view(b: ButtonSpec) -> (Seq<char>, Seq<char>, char) {
    (b.custom_id@, b.label@, b.emoji)
}

/// The row of player buttons: stop, then resume (when paused) or pause,
/// then skip.
pub fn generate_row(is_paused: bool) -> (r: Vec<ButtonSpec>)
    ensures
        r@.len() == 3,
        button_view(r@[0]) == stop_button(),
        button_view(r@[1]) == play_pause_button(is_paused),
        button_view(r@[2]) == skip_button(),
{
    let skip = ButtonSpec { custom_id: "skip", label: "Saltar", emoji: '⏭' };
    let stop = ButtonSpec { custom_id: "stop", label: "Detener", emoji: '⏹' };
    let play_pause = if is_paused {
        ButtonSpec { custom_id: "resume", label: "Reanudar", emoji: '▶' }
    } else {
        ButtonSpec { custom_id: "pause", label: "Pausar", emoji: '⏸' }
    };
    let mut row: Vec<ButtonSpec> = Vec::new();
    row.push(stop);
    row.push(play_pause);
    row.push(skip);
    row
}

/// The buttons of a row press to stop, to resume or pause as the player
/// state asks, and to skip.
pub proof fn lemma_row_buttons_act(is_paused: bool)
    ensures
        action_for_id(stop_button().0) == ButtonAction::Stop,
        action_for_id(skip_button().0) == ButtonAction::Skip,
        action_for_id(play_pause_button(is_paused).0) == (if is_paused {
            ButtonAction::Resume
        } else {
            ButtonAction::Pause
        }),
{
    lemma_custom_id_round_trip(ButtonAction::Stop);
    lemma_custom_id_round_trip(ButtonAction::Skip);
    lemma_custom_id_round_trip(ButtonAction::Resume);
    lemma_custom_id_round_trip(ButtonAction::Pause);
}

/// What the queue should do when a button is pressed.
#[derive(Clone, Copy, Debug, PartialEq, Eq, Structural)]
pub enum QueueOperation {
    Skip,
    Pause,
    Resume,
    Stop,
}

/// What the bot does for a pressed button.
#[derive(Clone, Copy, Debug, PartialEq, Eq)]
pub enum ButtonPlan {
    /// Delete the player message.
    DeleteMessage,
    /// Apply `operation` to the guild's queue and answer `message`; when
    /// `update_paused` is given, redraw the row for that paused state.
    Queue { operation: QueueOperation, message: &'static str, update_paused: Option<bool> },
    /// Do nothing.
    Ignore,
}

pub open spec fn button_plan_spec(action: ButtonAction) -> (QueueOperation, Seq<char>, Option<bool>) {
    match action {
        ButtonAction::Skip => (QueueOperation::Skip, "Se ha saltado la canción"@, None),
        ButtonAction::Pause => (QueueOperation::Pause, "Se ha pausado la canción"@, Some(true)),
        ButtonAction::Resume => (QueueOperation::Resume, "Se ha reanudado la canción"@, Some(false)),
        _ => (QueueOperation::Stop, "Se ha detenido la canción"@, None),
    }
}

/// What pressing the button of `action` does: close deletes the message,
/// unknown buttons are ignored, the others act on the queue.
pub fn plan_for_button(action: ButtonAction) -> (r: ButtonPlan)
    ensures
        action == ButtonAction::Close ==> r == ButtonPlan::DeleteMessage,
        action == ButtonAction::Unknown ==> r == ButtonPlan::Ignore,
        action != ButtonAction::Close && action != ButtonAction::Unknown ==> (match r {
            ButtonPlan::Queue { operation, message, update_paused } => (operation, message@,
                update_paused) == button_plan_spec(action),
            _ => false,
        }),
{
    match action {
        ButtonAction::Close => ButtonPlan::DeleteMessage,
        ButtonAction::Skip => ButtonPlan::Queue {
            operation: QueueOperation::Skip,
            message: "Se ha saltado la canción",
            update_paused: None,
        },
        ButtonAction::Pause => ButtonPlan::Queue {
            operation: QueueOperation::Pause,
            message: "Se ha pausado la canción",
            update_paused: Some(true),
        },
        ButtonAction::Resume => ButtonPlan::Queue {
            operation: QueueOperation::Resume,
            message: "Se ha reanudado la canción",
            update_paused: Some(false),
        },
        ButtonAction::Stop => ButtonPlan::Queue {
            operation: QueueOperation::Stop,
            message: "Se ha detenido la canción",
            update_paused: None,
        },
        ButtonAction::Unknown => ButtonPlan::Ignore,
    }
}

/// The message that refuses a queue button: skipping an empty queue, or
/// stopping a queue with at most one song. `None` when the action may run.
pub fn queue_refusal(action: ButtonAction, queue_len: usize) -> (r: Option<&'static str>)
    ensures
        (action == ButtonAction::Skip && queue_len == 0) ==> (r matches Some(m) && m@
            == "No hay canciones en la cola"@),
        (action == ButtonAction::Stop && queue_len <= 1) ==> (r matches Some(m) && m@
            == "No hay más canciones en la cola"@),
        !((action == ButtonAction::Skip && queue_len == 0) || (action == ButtonAction::Stop
            && queue_len <= 1)) ==> r is None,
{
    if (action == ButtonAction::Skip && queue_len == 0) || (action == ButtonAction::Stop
        && queue_len <= 1) {
        match action {
            ButtonAction::Skip => Some("No hay canciones en la cola"),
            ButtonAction::Stop => Some("No hay más canciones en la cola"),
            _ => Some("Error desconocido"),
        }
    } else {
        None
    }
}

/// Whether the bot answers with a message after the queue action: not
/// after pausing or resuming, whose answer is the redrawn row.
pub fn replies_after_action(action: ButtonAction) -> (r: bool)
    ensures
        r == !(action == ButtonAction::Pause || action == ButtonAction::Resume),
{
    !(action == ButtonAction::Pause || action == ButtonAction::Resume)
}

} // verus!
