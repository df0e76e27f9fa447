//! The log of deleted messages: which guild logs where, what is remembered
//! of a message, and the embeds posted when a message is deleted.
use std::collections::HashMap;
use vstd::prelude::*;
use serde_json::Value;
use serenity::model::Timestamp;

use crate::config::{
    content_of_line, content_of_line_chars, error_line, is_section_header, key_value, key_value_chars,
    section_header, section_name, u64_value, u64_value_exec, ConfigError, ConfigErrorView,
};
use crate::message::{AttachmentInfo, MessageInfo};
use crate::numbers::{
    decimal, i64_to_chars, lemma_u64_text_round_trip, parse_int, parse_u64, push_decimal,
    signed_decimal,
};
use crate::text::{
    chars_eq, chars_of, extend_chars, lines, split_lines, string_of, sub_chars, trim, trim_chars,
    trim_quotes, trim_quotes_chars,
};

verus! {

/// The database used when the file names none.
pub const DEFAULT_DATABASE_PATH: &'static str = "kitkat_deleted_messages.sqlite3";

/// The longest embed field, in characters.
pub const MAX_EMBED_FIELD_CHARS: usize = 1000;

// ---------------------------------------------------------------------------
// Configuration
// ---------------------------------------------------------------------------

/// Where each guild's deleted messages are logged, and where messages are kept.
pub struct DeletedMessageConfig {
    pub log_channels: HashMap<u64, u64>,
    pub database_path: String,
}

pub struct DeletedConfigView {
    pub log_channels: Map<u64, u64>,
    pub database_path: Seq<char>,
}

impl View for DeletedMessageConfig {
    type V = DeletedConfigView;

    open spec fn view(&self) -> DeletedConfigView {
        DeletedConfigView { log_channels: self.log_channels@, database_path: self.database_path@ }
    }
}

pub open spec fn default_deleted_config() -> DeletedConfigView {
    DeletedConfigView { log_channels: Map::empty(), database_path: DEFAULT_DATABASE_PATH@ }
}

/// The configuration given by lines `ls[i..]`: in `[deleted_messages]`,
/// `database_path` sets the database; in `[deleted_messages.log_channels]`,
/// each `guild_id = channel_id` sets a guild's log channel. Every line that
/// is not blank, a comment or a header must be `key = value`, whatever its
/// section.
pub open spec fn parse_deleted_from(
    ls: Seq<Seq<char>>,
    i: nat,
    config: DeletedConfigView,
    section: Seq<char>,
) -> Result<DeletedConfigView, ConfigErrorView>
    decreases ls.len() - i,
{
    if i >= ls.len() {
        Ok(config)
    } else {
        let line = content_of_line(ls[i as int]);
        let number = i + 1;
        if line.len() == 0 {
            parse_deleted_from(ls, i + 1, config, section)
        } else if is_section_header(line) {
            parse_deleted_from(ls, i + 1, config, section_name(line))
        } else {
            match key_value(line) {
                None => Err(ConfigErrorView::ExpectedKeyValue { line: number }),
                Some((key, value)) => if section == "deleted_messages"@ {
                    if key == "database_path"@ {
                        parse_deleted_from(
                            ls,
                            i + 1,
                            DeletedConfigView { database_path: trim_quotes(value), ..config },
                            section,
                        )
                    } else {
                        parse_deleted_from(ls, i + 1, config, section)
                    }
                } else if section == "deleted_messages.log_channels"@ {
                    match u64_value(key, number, "guild_id"@) {
                        Err(e) => Err(e),
                        Ok(guild) => if guild == 0 {
                            Err(ConfigErrorView::ZeroId { line: number, key: "guild_id"@ })
                        } else {
                            match u64_value(value, number, key) {
                                Err(e) => Err(e),
                                Ok(channel) => if channel == 0 {
                                    Err(ConfigErrorView::ZeroId { line: number, key })
                                } else {
                                    parse_deleted_from(
                                        ls,
                                        i + 1,
                                        DeletedConfigView {
                                            log_channels: config.log_channels.insert(
                                                guild,
                                                channel,
                                            ),
                                            ..config
                                        },
                                        section,
                                    )
                                },
                            }
                        },
                    }
                } else {
                    parse_deleted_from(ls, i + 1, config, section)
                },
            }
        }
    }
}

pub open spec fn parse_deleted(text: Seq<char>) -> Result<DeletedConfigView, ConfigErrorView> {
    parse_deleted_from(lines(text), 0, default_deleted_config(), Seq::empty())
}

/// The log channel of a guild, if it has one.
pub open spec fn log_channel_of(config: DeletedConfigView, guild_id: Option<u64>) -> Option<u64> {
    match guild_id {
        Some(g) => if config.log_channels.contains_key(g) {
            Some(config.log_channels[g])
        } else {
            None
        },
        None => None,
    }
}

impl Default for DeletedMessageConfig {
    /// No log channels, and the default database.
    fn default() -> (r: Self)
        ensures
            r@ == default_deleted_config(),
    {
        DeletedMessageConfig {
            log_channels: HashMap::new(),
            database_path: String::from_str(DEFAULT_DATABASE_PATH),
        }
    }
}

impl DeletedMessageConfig {

    /// Reads the deleted-message sections of a configuration file's text.
    pub fn parse(raw_config: &str) -> (r: Result<Self, ConfigError>)
        ensures
            match r {
                Ok(c) => parse_deleted(raw_config@) == Ok::<DeletedConfigView, ConfigErrorView>(c@),
                Err(e) => parse_deleted(raw_config@) == Err::<DeletedConfigView, ConfigErrorView>(
                    e@,
                ),
            },
    {
        broadcast use vstd::std_specs::hash::group_hash_axioms;

        let ls = split_lines(&chars_of(raw_config));
        let ghost all = lines(raw_config@);
        let mut config = Self::default();
        let mut section: Vec<char> = Vec::new();
        let main_section = chars_of("deleted_messages");
        let channels_section = chars_of("deleted_messages.log_channels");
        let path_key = chars_of("database_path");
        let guild_key = chars_of("guild_id");
        let mut i: usize = 0;
        assert(section@ =~= Seq::<char>::empty());
        while i < ls.len()
            invariant
                ls@.len() == all.len(),
                forall|k: int| 0 <= k < ls@.len() ==> #[trigger] ls@[k]@ == all[k],
                all == lines(raw_config@),
                i <= ls@.len(),
                main_section@ == "deleted_messages"@,
                channels_section@ == "deleted_messages.log_channels"@,
                path_key@ == "database_path"@,
                guild_key@ == "guild_id"@,
                parse_deleted(raw_config@) == parse_deleted_from(all, i as nat, config@, section@),
            decreases ls@.len() - i,
        {
            let line = content_of_line_chars(&ls[i]);
            let number = i + 1;
            if line.len() == 0 {
                i += 1;
                continue ;
            }
            match section_header(&line) {
                Some(name) => {
                    section = name;
                    i += 1;
                    continue ;
                },
                None => {},
            }
            let (key, value) = match key_value_chars(&line) {
                None => {
                    return Err(ConfigError::ExpectedKeyValue { line: number });
                },
                Some(kv) => kv,
            };
            if chars_eq(&section, &main_section) {
                if chars_eq(&key, &path_key) {
                    config.database_path = string_of(&trim_quotes_chars(&value));
                }
            } else if chars_eq(&section, &channels_section) {
                let guild = match u64_value_exec(&key, number, &guild_key) {
                    Ok(g) => g,
                    Err(e) => return Err(e),
                };
                if guild == 0 {
                    return Err(ConfigError::ZeroId { line: number, key: string_of(&guild_key) });
                }
                let channel = match u64_value_exec(&value, number, &key) {
                    Ok(c) => c,
                    Err(e) => return Err(e),
                };
                if channel == 0 {
                    return Err(ConfigError::ZeroId { line: number, key: string_of(&key) });
                }
                config.log_channels.insert(guild, channel);
            }
            i += 1;
        }
        Ok(config)
    }

    /// The log channel of the guild `guild_id`, if it has one.
    pub fn log_channel_for(&self, guild_id: Option<u64>) -> (r: Option<u64>)
        ensures
            r == log_channel_of(self@, guild_id),
    {
        broadcast use vstd::std_specs::hash::group_hash_axioms;

        match guild_id {
            Some(g) => match self.log_channels.get(&g) {
                Some(c) => Some(*c),
                None => None,
            },
            None => None,
        }
    }

    /// Whether a message is worth remembering: not when it was posted in its
    /// guild's log channel.
    pub fn should_remember(&self, guild_id: Option<u64>, channel_id: u64) -> (r: bool)
        ensures
            r == (log_channel_of(self@, guild_id) != Some(channel_id)),
    {
        match self.log_channel_for(guild_id) {
            Some(c) => c != channel_id,
            None => true,
        }
    }
}

// ---------------------------------------------------------------------------
// Stored messages
// ---------------------------------------------------------------------------

/// What is remembered of a message until it is deleted.
pub struct StoredMessage {
    pub guild_id: Option<u64>,
    pub channel_id: u64,
    pub message_id: u64,
    pub author_id: u64,
    pub author_name: String,
    pub content: String,
    pub attachments_json: String,
    pub attachments_summary: String,
    pub message_created_at: i64,
}

/// `filename: url` for the first five attachments, one per line, or
/// `(sin adjuntos)` when there are none.
pub open spec fn attachments_summary(atts: Seq<AttachmentInfo>) -> Seq<char> {
    if atts.len() == 0 {
        "(sin adjuntos)"@
    } else {
        summary_lines(atts.take(if atts.len() < 5 { atts.len() as int } else { 5 }))
    }
}

pub open spec fn summary_line(a: AttachmentInfo) -> Seq<char> {
    a.filename@ + ": "@ + a.url@
}

pub open spec fn summary_lines(atts: Seq<AttachmentInfo>) -> Seq<char>
    decreases atts.len(),
{
    if atts.len() == 0 {
        Seq::empty()
    } else if atts.len() == 1 {
        summary_line(atts[0])
    } else {
        summary_lines(atts.drop_last()) + "\n"@ + summary_line(atts.last())
    }
}

fn push_str(out: &mut Vec<char>, s: &str)
    ensures
        final(out)@ == old(out)@ + s@,
{
    extend_chars(out, &chars_of(s));
}

/// The summary of a message's attachments.
pub fn summarize_attachments(attachments: &Vec<AttachmentInfo>) -> (r: String)
    ensures
        r@ == attachments_summary(attachments@),
{
    if attachments.len() == 0 {
        return String::from_str("(sin adjuntos)");
    }
    let n = if attachments.len() < 5 {
        attachments.len()
    } else {
        5
    };
    let ghost shown = attachments@.take(n as int);
    let mut out: Vec<char> = Vec::new();
    let mut i: usize = 0;
    assert(out@ =~= summary_lines(shown.take(0)));
    while i < n
        invariant
            n <= attachments@.len(),
            shown == attachments@.take(n as int),
            i <= n,
            out@ == summary_lines(shown.take(i as int)),
        decreases n - i,
    {
        let ghost before = out@;
        if i > 0 {
            push_str(&mut out, "\n");
        }
        push_str(&mut out, attachments[i].filename.as_str());
        push_str(&mut out, ": ");
        push_str(&mut out, attachments[i].url.as_str());
        proof {
            let t = shown.take(i + 1);
            assert(t.drop_last() =~= shown.take(i as int));
            assert(t.last() == attachments@[i as int]);
            if i == 0 {
                assert(out@ =~= summary_lines(t));
            } else {
                assert(out@ =~= summary_lines(t));
            }
        }
        i += 1;
    }
    assert(shown.take(n as int) =~= shown);
    string_of(&out)
}

#[verifier::external_type_specification]
#[verifier::external_body]
pub struct ExJsonError(serde_json::Error);

/// What `serde_json::to_string` gives for the JSON array of `attachments`,
/// each an object with the fields `id` (as text), `filename`, `url`,
/// `proxy_url`, `content_type`, `size`, `width` and `height`, absent values
/// as `null`; `None` when it fails.
pub uninterp spec fn spec_attachments_json(attachments: Seq<AttachmentInfo>) -> Option<Seq<char>>;

/// `serde_json::to_string` of the attachments as JSON objects (built with
/// `serde_json::Map` and `Value`'s `From` conversions). Claimed: the
/// outcome is `spec_attachments_json` of the attachments, which are all it
/// depends on; the JSON text is not restated.
#[verifier::external_body]
fn attachments_json(attachments: &Vec<AttachmentInfo>) -> (r: Result<String, serde_json::Error>)
    ensures
        match r {
            Ok(s) => spec_attachments_json(attachments@) == Some(s@),
            Err(_) => spec_attachments_json(attachments@) is None,
        },
{
    let values: Vec<Value> = attachments.iter().map(|a| Value::Object(serde_json::Map::from_iter([
        ("id".into(), a.id.to_string().into()),
        ("filename".into(), a.filename.clone().into()),
        ("url".into(), a.url.clone().into()),
        ("proxy_url".into(), a.proxy_url.clone().into()),
        ("content_type".into(), a.content_type.clone().into()),
        ("size".into(), a.size.into()),
        ("width".into(), a.width.into()),
        ("height".into(), a.height.into()),
    ]))).collect();
    serde_json::to_string(&values)
}

/// The attachments as they are stored: their JSON, or `[]` when it cannot
/// be written.
pub open spec fn stored_attachments_json(attachments: Seq<AttachmentInfo>) -> Seq<char> {
    match spec_attachments_json(attachments) {
        Some(s) => s,
        None => "[]"@,
    }
}

impl StoredMessage {
    /// What is remembered of `message`, its attachments kept as JSON.
    pub fn from_message(message: &MessageInfo) -> (r: Self)
        ensures
            r.guild_id == message.guild_id,
            r.channel_id == message.channel_id,
            r.message_id == message.id,
            r.author_id == message.author_id,
            r.author_name@ == message.author_name@,
            r.content@ == message.content@,
            r.attachments_json@ == stored_attachments_json(message.attachments@),
            r.attachments_summary@ == attachments_summary(message.attachments@),
            r.message_created_at == message.created_at,
    {
        StoredMessage {
            guild_id: message.guild_id,
            channel_id: message.channel_id,
            message_id: message.id,
            author_id: message.author_id,
            author_name: message.author_name.clone(),
            content: message.content.clone(),
            attachments_json: match attachments_json(&message.attachments) {
                Ok(s) => s,
                Err(_) => String::from_str("[]"),
            },
            attachments_summary: summarize_attachments(&message.attachments),
            message_created_at: message.created_at,
        }
    }

    /// A message read back from the database, whose ids are stored as text:
    /// a guild id that is not a number reads as none, other ids as 0.
    pub fn from_row(
        guild_id: Option<String>,
        channel_id: String,
        message_id: String,
        author_id: String,
        author_name: String,
        content: String,
        attachments_summary: String,
        message_created_at: i64,
    ) -> (r: Self)
        ensures
            r.guild_id == (match guild_id {
                Some(g) => stored_id(g@),
                None => None,
            }),
            r.channel_id == stored_id_or_zero(channel_id@),
            r.message_id == stored_id_or_zero(message_id@),
            r.author_id == stored_id_or_zero(author_id@),
            r.author_name@ == author_name@,
            r.content@ == content@,
            r.attachments_json@ == Seq::<char>::empty(),
            r.attachments_summary@ == attachments_summary@,
            r.message_created_at == message_created_at,
    {
        let guild = match guild_id {
            Some(g) => read_id(g.as_str()),
            None => None,
        };
        StoredMessage {
            guild_id: guild,
            channel_id: read_id_or_zero(channel_id.as_str()),
            message_id: read_id_or_zero(message_id.as_str()),
            author_id: read_id_or_zero(author_id.as_str()),
            author_name,
            content,
            attachments_json: String::new(),
            attachments_summary,
            message_created_at,
        }
    }
}

/// An id stored as text, if it is a `u64`.
pub open spec fn stored_id(s: Seq<char>) -> Option<u64> {
    match parse_int(s, false, 0, u64::MAX as int) {
        Ok(x) => Some(x as u64),
        Err(_) => None,
    }
}

pub open spec fn stored_id_or_zero(s: Seq<char>) -> u64 {
    match stored_id(s) {
        Some(x) => x,
        None => 0,
    }
}

/// An id as it is kept in the database: its decimal text.
pub fn id_text(id: u64) -> (r: String)
    ensures
        r@ == decimal(id as nat),
{
    let mut out: Vec<char> = Vec::new();
    push_decimal(&mut out, id);
    assert(out@ =~= decimal(id as nat));
    string_of(&out)
}

/// An id written to the database is read back unchanged.
pub proof fn lemma_stored_id_round_trip(id: u64)
    ensures
        stored_id(decimal(id as nat)) == Some(id),
{
    lemma_u64_text_round_trip(id);
}

fn read_id(s: &str) -> (r: Option<u64>)
    ensures
        r == stored_id(s@),
{
    match parse_u64(&chars_of(s)) {
        Ok(x) => Some(x),
        Err(_) => None,
    }
}

fn read_id_or_zero(s: &str) -> (r: u64)
    ensures
        r == stored_id_or_zero(s@),
{
    match read_id(s) {
        Some(x) => x,
        None => 0,
    }
}

// ---------------------------------------------------------------------------
// Embeds
// ---------------------------------------------------------------------------

/// One field of an embed.
pub struct EmbedField {
    pub name: String,
    pub value: String,
    pub inline: bool,
}

/// The embed posted in a log channel.
pub struct LogEmbed {
    pub title: String,
    pub color: u32,
    pub fields: Vec<EmbedField>,
    pub footer: String,
}

pub open spec fn field_view(f: EmbedField) -> (Seq<char>, Seq<char>, bool) {
    (f.name@, f.value@, f.inline)
}

pub open spec fn fields_view(fs: Seq<EmbedField>) -> Seq<(Seq<char>, Seq<char>, bool)> {
    fs.map_values(|f: EmbedField| field_view(f))
}

/// Whether serenity accepts `secs` as a Unix timestamp: the seconds from
/// the start of the year -262143 to the end of the year 262142, the dates
/// that chrono can hold.
pub open spec fn timestamp_in_range(secs: i64) -> bool {
    -8334601228800 <= secs <= 8210266876799
}

/// `serenity::model::Timestamp::from_unix_timestamp(secs).is_ok()`. Claimed:
/// it succeeds exactly on the range of `timestamp_in_range` (serenity reads
/// `secs * 1000` milliseconds through chrono, which holds the dates of the
/// years -262143 to 262142). The function computes `secs * 1000`, so `secs`
/// must keep that in range.
#[verifier::external_body]
pub(crate) fn timestamp_is_valid(secs: i64) -> (r: bool)
    requires
        -9223372036854775 <= secs <= 9223372036854775,
    ensures
        r == timestamp_in_range(secs),
{
    Timestamp::from_unix_timestamp(secs).is_ok()
}

/// A time as Discord shows it to each reader: `<t:secs:F>` (serenity's
/// `FormattedTimestamp` in the long date-time style), or the bare number of
/// seconds when serenity does not accept the timestamp.
pub open spec fn discord_time(secs: i64) -> Seq<char> {
    if timestamp_in_range(secs) {
        "<t:"@ + signed_decimal(secs as int) + ":F>"@
    } else {
        signed_decimal(secs as int)
    }
}

/// Timestamps that the log can show: those whose milliseconds fit an `i64`.
pub open spec fn showable_time(secs: i64) -> bool {
    -9223372036854775 <= secs <= 9223372036854775
}

pub fn discord_timestamp(unix_timestamp: i64) -> (r: String)
    requires
        showable_time(unix_timestamp),
    ensures
        r@ == discord_time(unix_timestamp),
{
    let digits = i64_to_chars(unix_timestamp);
    if timestamp_is_valid(unix_timestamp) {
        let mut out: Vec<char> = Vec::new();
        push_str(&mut out, "<t:");
        extend_chars(&mut out, &digits);
        push_str(&mut out, ":F>");
        string_of(&out)
    } else {
        string_of(&digits)
    }
}

/// A text as shown in an embed: `(vacio)` when it is blank.
pub open spec fn visible(value: Seq<char>) -> Seq<char> {
    if trim(value).len() == 0 {
        "(vacio)"@
    } else {
        value
    }
}

pub fn visible_text(value: &str) -> (r: String)
    ensures
        r@ == visible(value@),
{
    let v = chars_of(value);
    if trim_chars(&v).len() == 0 {
        return String::from_str("(vacio)");
    }
    string_of(&v)
}

/// A text cut to fit an embed field: its first 1000 characters and `\n...`
/// when it is longer.
pub open spec fn embed_field_text(s: Seq<char>) -> Seq<char> {
    if s.len() <= MAX_EMBED_FIELD_CHARS {
        s
    } else {
        s.take(MAX_EMBED_FIELD_CHARS as int) + "\n..."@
    }
}

pub fn truncate_embed_field(content: &str) -> (r: String)
    ensures
        r@ == embed_field_text(content@),
{
    let v = chars_of(content);
    if v.len() <= MAX_EMBED_FIELD_CHARS {
        return string_of(&v);
    }
    let mut head = sub_chars(&v, 0, MAX_EMBED_FIELD_CHARS);
    push_str(&mut head, "\n...");
    string_of(&head)
}

/// A guild id as shown, or `(desconocido)`.
pub open spec fn guild_text(guild_id: Option<u64>) -> Seq<char> {
    match guild_id {
        Some(g) => decimal(g as nat),
        None => "(desconocido)"@,
    }
}

fn guild_text_exec(guild_id: Option<u64>) -> (r: Vec<char>)
    ensures
        r@ == guild_text(guild_id),
{
    match guild_id {
        Some(g) => {
            let mut out: Vec<char> = Vec::new();
            push_decimal(&mut out, g);
            assert(out@ =~= decimal(g as nat));
            out
        },
        None => chars_of("(desconocido)"),
    }
}

fn field(name: &str, value: Vec<char>, inline: bool) -> (r: EmbedField)
    ensures
        field_view(r) == (name@, value@, inline),
{
    EmbedField { name: String::from_str(name), value: string_of(&value), inline }
}

/// The fields of the log of a remembered message deleted at `deleted_at`.
pub open spec fn deletion_fields(m: StoredMessage, deleted_at: i64) -> Seq<
    (Seq<char>, Seq<char>, bool),
> {
    seq![
        ("Usuario"@, "<@"@ + decimal(m.author_id as nat) + "> ("@ + m.author_name@ + ")"@, false),
        ("Canal"@, "<#"@ + decimal(m.channel_id as nat) + ">"@, true),
        ("Servidor"@, guild_text(m.guild_id), true),
        ("Mensaje ID"@, decimal(m.message_id as nat), false),
        ("Creado"@, discord_time(m.message_created_at), true),
        ("Borrado"@, discord_time(deleted_at), true),
        ("Texto"@, embed_field_text(visible(m.content@)), false),
        ("Adjuntos"@, embed_field_text(visible(m.attachments_summary@)), false),
    ]
}

/// The fields of the log of a deleted message that was never remembered.
pub open spec fn missing_fields(
    guild_id: Option<u64>,
    channel_id: u64,
    message_id: u64,
    deleted_at: i64,
) -> Seq<(Seq<char>, Seq<char>, bool)> {
    seq![
        ("Canal"@, "<#"@ + decimal(channel_id as nat) + ">"@, true),
        ("Servidor"@, guild_text(guild_id), true),
        ("Mensaje ID"@, decimal(message_id as nat), false),
        ("Borrado"@, discord_time(deleted_at), true),
        ("Contenido"@, "No disponible; el bot no habia registrado este mensaje antes del borrado."@, false),
    ]
}

/// A mention of a channel read back: the id between `<#` and `>`.
pub open spec fn mentioned_channel(v: Seq<char>) -> Option<u64> {
    if v.len() >= 3 && v[0] == '<' && v[1] == '#' && v.last() == '>' {
        stored_id(v.subrange(2, v.len() - 1))
    } else {
        None
    }
}

proof fn lemma_channel_mention_reads_back(c: u64)
    ensures
        mentioned_channel("<#"@ + decimal(c as nat) + ">"@) == Some(c),
{
    reveal_strlit("<#");
    reveal_strlit(">");
    let v = "<#"@ + decimal(c as nat) + ">"@;
    crate::numbers::lemma_decimal_digits(c as nat);
    assert(v.subrange(2, v.len() - 1) =~= decimal(c as nat));
    lemma_stored_id_round_trip(c);
}

/// The log of a message deleted before the bot remembered it names the
/// deletion event: its channel field mentions the channel the message was
/// deleted from, its id field reads back as the deleted message's id, and
/// its server field reads back as the guild.
pub proof fn lemma_missing_log_names_the_event(
    guild_id: Option<u64>,
    channel_id: u64,
    message_id: u64,
    deleted_at: i64,
)
    ensures
        missing_fields(guild_id, channel_id, message_id, deleted_at)[0].0 == "Canal"@,
        mentioned_channel(missing_fields(guild_id, channel_id, message_id, deleted_at)[0].1) == Some(
            channel_id,
        ),
        missing_fields(guild_id, channel_id, message_id, deleted_at)[2].0 == "Mensaje ID"@,
        stored_id(missing_fields(guild_id, channel_id, message_id, deleted_at)[2].1) == Some(
            message_id,
        ),
        guild_id matches Some(g) ==> stored_id(
            missing_fields(guild_id, channel_id, message_id, deleted_at)[1].1,
        ) == Some(g),
{
    lemma_channel_mention_reads_back(channel_id);
    lemma_stored_id_round_trip(message_id);
    if let Some(g) = guild_id {
        lemma_stored_id_round_trip(g);
    }
}

/// The log of a remembered message names it: its channel field mentions
/// the message's channel, its id field reads back as the message's id, and
/// its server field reads back as the message's guild.
pub proof fn lemma_deletion_log_names_the_message(m: StoredMessage, deleted_at: i64)
    ensures
        deletion_fields(m, deleted_at)[1].0 == "Canal"@,
        mentioned_channel(deletion_fields(m, deleted_at)[1].1) == Some(m.channel_id),
        deletion_fields(m, deleted_at)[3].0 == "Mensaje ID"@,
        stored_id(deletion_fields(m, deleted_at)[3].1) == Some(m.message_id),
        m.guild_id matches Some(g) ==> stored_id(deletion_fields(m, deleted_at)[2].1) == Some(g),
{
    lemma_channel_mention_reads_back(m.channel_id);
    lemma_stored_id_round_trip(m.message_id);
    if let Some(g) = m.guild_id {
        lemma_stored_id_round_trip(g);
    }
}

/// The two logs agree on what they both show of a message: whether it was
/// remembered or not, its channel, server and id and its deletion time are
/// written the same way; an unknown server reads `(desconocido)`.
pub proof fn lemma_both_logs_agree(m: StoredMessage, deleted_at: i64)
    ensures
        missing_fields(m.guild_id, m.channel_id, m.message_id, deleted_at)[0] == deletion_fields(
            m,
            deleted_at,
        )[1],
        missing_fields(m.guild_id, m.channel_id, m.message_id, deleted_at)[1] == deletion_fields(
            m,
            deleted_at,
        )[2],
        missing_fields(m.guild_id, m.channel_id, m.message_id, deleted_at)[2] == deletion_fields(
            m,
            deleted_at,
        )[3],
        missing_fields(m.guild_id, m.channel_id, m.message_id, deleted_at)[3] == deletion_fields(
            m,
            deleted_at,
        )[5],
        m.guild_id is None ==> deletion_fields(m, deleted_at)[2].1 == "(desconocido)"@,
{
}

/// The log embed of a remembered message: red, with who wrote it, where,
/// when, and what it said.
pub fn deletion_log_embed(message: &StoredMessage, deleted_at: i64) -> (r: LogEmbed)
    requires
        showable_time(message.message_created_at),
        showable_time(deleted_at),
    ensures
        r.title@ == "Mensaje borrado"@,
        r.color == 0xff3b30,
        fields_view(r.fields@) == deletion_fields(*message, deleted_at),
        r.footer@ == "KitKat deleted message log"@,
{
    let mut fields: Vec<EmbedField> = Vec::new();
    let mut user: Vec<char> = Vec::new();
    push_str(&mut user, "<@");
    push_decimal(&mut user, message.author_id);
    push_str(&mut user, "> (");
    push_str(&mut user, message.author_name.as_str());
    push_str(&mut user, ")");
    fields.push(field("Usuario", user, false));
    let mut channel: Vec<char> = Vec::new();
    push_str(&mut channel, "<#");
    push_decimal(&mut channel, message.channel_id);
    push_str(&mut channel, ">");
    fields.push(field("Canal", channel, true));
    fields.push(field("Servidor", guild_text_exec(message.guild_id), true));
    let mut id: Vec<char> = Vec::new();
    push_decimal(&mut id, message.message_id);
    fields.push(field("Mensaje ID", id, false));
    fields.push(
        field(
            "Creado",
            chars_of(discord_timestamp(message.message_created_at).as_str()),
            true,
        ),
    );
    fields.push(field("Borrado", chars_of(discord_timestamp(deleted_at).as_str()), true));
    let text = truncate_embed_field(visible_text(message.content.as_str()).as_str());
    fields.push(field("Texto", chars_of(text.as_str()), false));
    let attachments = truncate_embed_field(
        visible_text(message.attachments_summary.as_str()).as_str(),
    );
    fields.push(field("Adjuntos", chars_of(attachments.as_str()), false));
    assert(fields_view(fields@) =~= deletion_fields(*message, deleted_at));
    LogEmbed {
        title: String::from_str("Mensaje borrado"),
        color: 0xff3b30,
        fields,
        footer: String::from_str("KitKat deleted message log"),
    }
}

/// The log embed of a message deleted before the bot remembered it:
/// orange, with where it was and when it was deleted.
pub fn missing_message_log_embed(
    guild_id: Option<u64>,
    channel_id: u64,
    message_id: u64,
    deleted_at: i64,
) -> (r: LogEmbed)
    requires
        showable_time(deleted_at),
    ensures
        r.title@ == "Mensaje borrado"@,
        r.color == 0xff9500,
        fields_view(r.fields@) == missing_fields(guild_id, channel_id, message_id, deleted_at),
        r.footer@ == "KitKat deleted message log"@,
{
    let mut fields: Vec<EmbedField> = Vec::new();
    let mut channel: Vec<char> = Vec::new();
    push_str(&mut channel, "<#");
    push_decimal(&mut channel, channel_id);
    push_str(&mut channel, ">");
    fields.push(field("Canal", channel, true));
    fields.push(field("Servidor", guild_text_exec(guild_id), true));
    let mut id: Vec<char> = Vec::new();
    push_decimal(&mut id, message_id);
    fields.push(field("Mensaje ID", id, false));
    fields.push(field("Borrado", chars_of(discord_timestamp(deleted_at).as_str()), true));
    fields.push(
        field(
            "Contenido",
            chars_of("No disponible; el bot no habia registrado este mensaje antes del borrado."),
            false,
        ),
    );
    assert(fields_view(fields@) =~= missing_fields(guild_id, channel_id, message_id, deleted_at));
    LogEmbed {
        title: String::from_str("Mensaje borrado"),
        color: 0xff9500,
        fields,
        footer: String::from_str("KitKat deleted message log"),
    }
}

/// What to log for a deleted message: the guild whose log channel gets it
/// (the remembered message's guild, else the event's) and the embed.
pub fn deletion_log(
    stored: Option<StoredMessage>,
    guild_id: Option<u64>,
    channel_id: u64,
    message_id: u64,
    deleted_at: i64,
) -> (r: (Option<u64>, LogEmbed))
    requires
        showable_time(deleted_at),
        stored matches Some(m) ==> showable_time(m.message_created_at),
    ensures
        match stored {
            Some(m) => {
                &&& r.0 == (match m.guild_id {
                    Some(g) => Some(g),
                    None => guild_id,
                })
                &&& r.1.color == 0xff3b30
                &&& fields_view(r.1.fields@) == deletion_fields(m, deleted_at)
            },
            None => {
                &&& r.0 == guild_id
                &&& r.1.color == 0xff9500
                &&& fields_view(r.1.fields@) == missing_fields(
                    guild_id,
                    channel_id,
                    message_id,
                    deleted_at,
                )
            },
        },
        r.1.title@ == "Mensaje borrado"@,
        r.1.footer@ == "KitKat deleted message log"@,
{
    match stored {
        Some(m) => {
            let guild = match m.guild_id {
                Some(g) => Some(g),
                None => guild_id,
            };
            (guild, deletion_log_embed(&m, deleted_at))
        },
        None => (guild_id, missing_message_log_embed(guild_id, channel_id, message_id, deleted_at)),
    }
}

/// The section that holds line `k` of `ls`: the name of the last header
/// above it, or none.
pub open spec fn section_at(ls: Seq<Seq<char>>, k: int) -> Seq<char>
    decreases k,
{
    if k <= 0 || k > ls.len() {
        Seq::empty()
    } else {
        let line = content_of_line(ls[k - 1]);
        if line.len() > 0 && is_section_header(line) {
            section_name(line)
        } else {
            section_at(ls, k - 1)
        }
    }
}

/// Whether line `k` of `ls` sets `log_channel_id` in `[deleted_messages]`,
/// a key that is no longer read: log channels are set per guild.
pub open spec fn is_legacy_log_channel_line(ls: Seq<Seq<char>>, k: int) -> bool {
    let line = content_of_line(ls[k]);
    &&& line.len() > 0
    &&& !is_section_header(line)
    &&& section_at(ls, k) == "deleted_messages"@
    &&& key_value(line) matches Some((key, _)) && key == "log_channel_id"@
}

/// How many of the first `n` lines of `ls` set the legacy key.
pub open spec fn legacy_count(ls: Seq<Seq<char>>, n: int) -> nat
    decreases n,
{
    if n <= 0 {
        0
    } else if n > ls.len() {
        legacy_count(ls, ls.len() as int)
    } else {
        legacy_count(ls, n - 1) + if is_legacy_log_channel_line(ls, n - 1) {
            1nat
        } else {
            0nat
        }
    }
}

/// How many times reading a configuration file warns that the legacy key
/// `[deleted_messages].log_channel_id` is ignored: once for each such line
/// read before the line that makes the file fail, if any.
pub open spec fn legacy_warnings(text: Seq<char>) -> nat {
    let ls = lines(text);
    match parse_deleted(text) {
        Ok(_) => legacy_count(ls, ls.len() as int),
        Err(e) => legacy_count(ls, error_line(e) - 1),
    }
}

impl DeletedMessageConfig {
    /// How many warnings about the ignored legacy key
    /// `[deleted_messages].log_channel_id` reading `raw_config` gives.
    pub fn legacy_log_channel_warnings(raw_config: &str) -> (r: usize)
        ensures
            r == legacy_warnings(raw_config@),
    {
        let ls = split_lines(&chars_of(raw_config));
        let ghost all = lines(raw_config@);
        let stop: usize = match Self::parse(raw_config) {
            Ok(_) => ls.len(),
            Err(e) => {
                let line = e.line();
                if line == 0 {
                    0
                } else if line - 1 < ls.len() {
                    line - 1
                } else {
                    ls.len()
                }
            },
        };
        let main_section = chars_of("deleted_messages");
        let legacy_key = chars_of("log_channel_id");
        let mut section: Vec<char> = Vec::new();
        let mut count: usize = 0;
        let mut k: usize = 0;
        assert(section@ =~= section_at(all, 0));
        while k < stop
            invariant
                ls@.len() == all.len(),
                forall|i: int| 0 <= i < ls@.len() ==> #[trigger] ls@[i]@ == all[i],
                stop <= ls@.len(),
                k <= stop,
                count <= k,
                main_section@ == "deleted_messages"@,
                legacy_key@ == "log_channel_id"@,
                section@ == section_at(all, k as int),
                count == legacy_count(all, k as int),
            decreases stop - k,
        {
            let line = content_of_line_chars(&ls[k]);
            let header = if line.len() > 0 {
                section_header(&line)
            } else {
                None
            };
            let mut hit = false;
            if line.len() > 0 {
                match header {
                    Some(_) => {},
                    None => match key_value_chars(&line) {
                        Some((key, _)) => {
                            hit = chars_eq(&section, &main_section) && chars_eq(&key, &legacy_key);
                        },
                        None => {},
                    },
                }
            }
            assert(hit == is_legacy_log_channel_line(all, k as int));
            if hit {
                count += 1;
            }
            match header {
                Some(name) => {
                    section = name;
                },
                None => {},
            }
            k += 1;
        }
        proof {
            match parse_deleted(raw_config@) {
                Ok(_) => {},
                Err(e) => {
                    if error_line(e) - 1 > all.len() {
                        assert(legacy_count(all, error_line(e) - 1) == legacy_count(
                            all,
                            all.len() as int,
                        ));
                    }
                },
            }
        }
        count
    }
}

} // verus!
