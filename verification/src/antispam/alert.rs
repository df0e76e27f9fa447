//! The alert that moderators receive about an incident.
use vstd::prelude::*;

use super::config::AntiSpamConfig;
use super::detector::{IncidentView, SpamIncident};
use super::model::{elapsed, elapsed_seconds};
use crate::numbers::{decimal, i64_to_chars, push_decimal, signed_decimal};
use crate::text::{chars_of, extend_chars, string_of};

verus! {

/// `<#id>` for each channel, separated by `, `.
pub open spec fn channel_mentions(channels: Seq<u64>) -> Seq<char>
    decreases channels.len(),
{
    if channels.len() == 0 {
        Seq::empty()
    } else if channels.len() == 1 {
        "<#"@ + decimal(channels[0] as nat) + ">"@
    } else {
        channel_mentions(channels.drop_last()) + ", "@ + "<#"@ + decimal(channels.last() as nat)
            + ">"@
    }
}

/// What the alert says of the timeout: the error that kept it from being
/// applied, or until when it applies.
pub open spec fn timeout_status(until: Seq<char>, error: Option<Seq<char>>) -> Seq<char> {
    match error {
        Some(e) => "fallo al aplicar timeout: "@ + e,
        None => "timeout aplicado hasta "@ + until,
    }
}

/// The link to the message that triggered an incident.
pub open spec fn message_link(i: IncidentView) -> Seq<char> {
    "https://discord.com/channels/"@ + decimal(i.guild_id as nat) + "/"@ + decimal(
        i.trigger_channel_id as nat,
    ) + "/"@ + decimal(i.trigger_message_id as nat)
}

/// The text of the alert about incident `i`.
pub open spec fn alert_text(i: IncidentView, status: Seq<char>, deleted: nat) -> Seq<char> {
    "[AntiSpam]\nUsuario: <@"@ + decimal(i.user_id as nat) + ">\nEstado: "@ + status
        + "\nBorrado: mensajes borrados tras sancion: "@ + decimal(deleted)
        + "\nCanales detectados: "@ + channel_mentions(i.channels) + "\nRepeticiones: "@ + decimal(
        i.repeated_messages,
    ) + "\nVentana: "@ + signed_decimal(elapsed(i.last_detected_at, i.first_detected_at) as int)
        + " segundos\nContenido: "@ + i.preview + "\nMensaje detonante: "@ + message_link(i)
}

/// The seconds from the first to the last detection of an incident, capped
/// at the largest `i64`.
pub open spec fn window_seconds(i: IncidentView) -> nat {
    let d = i.last_detected_at - i.first_detected_at;
    if d > i64::MAX {
        i64::MAX as nat
    } else if d < 0 {
        0
    } else {
        d as nat
    }
}

/// The alert about an incident whose first detection is not after its
/// last reports the window as the seconds from the first to the last
/// detection, written without a sign.
pub proof fn lemma_alert_reports_the_window(i: IncidentView, status: Seq<char>, deleted: nat)
    requires
        i.first_detected_at <= i.last_detected_at,
    ensures
        exists|before: Seq<char>, after: Seq<char>|
            alert_text(i, status, deleted) == before + "\nVentana: "@ + decimal(window_seconds(i))
                + " segundos\nContenido: "@ + after,
{
    let before = "[AntiSpam]\nUsuario: <@"@ + decimal(i.user_id as nat) + ">\nEstado: "@ + status
        + "\nBorrado: mensajes borrados tras sancion: "@ + decimal(deleted)
        + "\nCanales detectados: "@ + channel_mentions(i.channels) + "\nRepeticiones: "@ + decimal(
        i.repeated_messages,
    );
    let after = i.preview + "\nMensaje detonante: "@ + message_link(i);
    assert(signed_decimal(elapsed(i.last_detected_at, i.first_detected_at) as int) == decimal(
        window_seconds(i),
    ));
    assert(alert_text(i, status, deleted) =~= before + "\nVentana: "@ + decimal(window_seconds(i))
        + " segundos\nContenido: "@ + after);
}

fn push_str(out: &mut Vec<char>, s: &str)
    ensures
        final(out)@ == old(out)@ + s@,
{
    extend_chars(out, &chars_of(s));
}

fn channel_mentions_exec(channels: &Vec<u64>) -> (r: Vec<char>)
    ensures
        r@ == channel_mentions(channels@),
{
    let mut out: Vec<char> = Vec::new();
    let mut i: usize = 0;
    assert(out@ =~= channel_mentions(channels@.take(0)));
    while i < channels.len()
        invariant
            i <= channels@.len(),
            out@ == channel_mentions(channels@.take(i as int)),
        decreases channels@.len() - i,
    {
        let ghost before = out@;
        if i > 0 {
            push_str(&mut out, ", ");
        }
        push_str(&mut out, "<#");
        push_decimal(&mut out, channels[i]);
        push_str(&mut out, ">");
        proof {
            let t = channels@.take(i + 1);
            assert(t.drop_last() =~= channels@.take(i as int));
            assert(t.last() == channels@[i as int]);
            if i == 0 {
                assert(before =~= Seq::<char>::empty());
                assert(out@ =~= channel_mentions(t));
            } else {
                assert(out@ =~= channel_mentions(t));
            }
        }
        i += 1;
    }
    assert(channels@.take(channels@.len() as int) =~= channels@);
    out
}

/// The alert for `incident`, sent to the configured alert channel: that
/// channel and the alert's text, or `None` when no alert channel is set.
/// `timeout_until` is how the end of the timeout is written; `deleted` is
/// how many of the user's messages were deleted.
pub fn alert_message(
    config: &AntiSpamConfig,
    incident: &SpamIncident,
    timeout_until: &str,
    timeout_error: Option<&str>,
    deleted_messages: usize,
) -> (r: Option<(u64, String)>)
    ensures
        match config.alert_channel_id {
            None => r is None,
            Some(channel) => r matches Some((c, text)) && c == channel && text@ == alert_text(
                incident@,
                timeout_status(
                    timeout_until@,
                    match timeout_error {
                        Some(e) => Some(e@),
                        None => None,
                    },
                ),
                deleted_messages as nat,
            ),
        },
{
    let channel = match config.alert_channel_id {
        None => return None,
        Some(c) => c,
    };
    let mut status: Vec<char> = Vec::new();
    match timeout_error {
        Some(e) => {
            push_str(&mut status, "fallo al aplicar timeout: ");
            push_str(&mut status, e);
        },
        None => {
            push_str(&mut status, "timeout aplicado hasta ");
            push_str(&mut status, timeout_until);
        },
    }
    let mut out: Vec<char> = Vec::new();
    push_str(&mut out, "[AntiSpam]\nUsuario: <@");
    push_decimal(&mut out, incident.user_id);
    push_str(&mut out, ">\nEstado: ");
    extend_chars(&mut out, &status);
    push_str(&mut out, "\nBorrado: mensajes borrados tras sancion: ");
    push_decimal(&mut out, deleted_messages as u64);
    push_str(&mut out, "\nCanales detectados: ");
    extend_chars(&mut out, &channel_mentions_exec(&incident.channels));
    push_str(&mut out, "\nRepeticiones: ");
    push_decimal(&mut out, incident.repeated_messages as u64);
    push_str(&mut out, "\nVentana: ");
    let window = elapsed_seconds(incident.last_detected_at, incident.first_detected_at);
    extend_chars(&mut out, &i64_to_chars(window));
    push_str(&mut out, " segundos\nContenido: ");
    push_str(&mut out, incident.preview.as_str());
    push_str(&mut out, "\nMensaje detonante: ");
    push_str(&mut out, "https://discord.com/channels/");
    push_decimal(&mut out, incident.guild_id);
    push_str(&mut out, "/");
    push_decimal(&mut out, incident.trigger_channel_id);
    push_str(&mut out, "/");
    push_decimal(&mut out, incident.trigger_message_id);
    proof {
        let st = timeout_status(
            timeout_until@,
            match timeout_error {
                Some(e) => Some(e@),
                None => None,
            },
        );
        assert(status@ == st);
        assert(out@ =~= alert_text(incident@, st, deleted_messages as nat));
    }
    Some((channel, string_of(&out)))
}

} // verus!
