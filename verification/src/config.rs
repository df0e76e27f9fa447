//! The pieces shared by the readers of the bot's `config.toml`: its lines,
//! its `[section]` headers, its `key = value` pairs and its numbers.
use vstd::prelude::*;

use crate::numbers::{
    decimal, int_error_text, parse_i64, parse_int, parse_u64, parse_usize, push_decimal,
    IntErrorKind,
};
use crate::text::{
    chars_of, extend_chars, split_once, split_once_chars, strip_comment, strip_comment_chars, string_of,
    sub_chars, trim, trim_chars, trim_quotes, trim_quotes_chars,
};

verus! {

/// Why a configuration file was refused; `line` counts from 1.
#[derive(Debug)]
pub enum ConfigError {
    /// A line in a section that is read is not of the form `key = value`.
    ExpectedKeyValue { line: usize },
    /// The value of `key` (as written, `raw`) is not a number of the right type.
    InvalidNumber { line: usize, key: String, raw: String, kind: IntErrorKind },
    /// `key` must be greater than 0.
    NotPositive { line: usize, key: String },
    /// `key` must be at least 2.
    TooSmall { line: usize, key: String },
    /// `key` names a Discord id, and Discord ids are never 0.
    ZeroId { line: usize, key: String },
}

pub enum ConfigErrorView {
    ExpectedKeyValue { line: nat },
    InvalidNumber { line: nat, key: Seq<char>, raw: Seq<char>, kind: IntErrorKind },
    NotPositive { line: nat, key: Seq<char> },
    TooSmall { line: nat, key: Seq<char> },
    ZeroId { line: nat, key: Seq<char> },
}

impl View for ConfigError {
    type V = ConfigErrorView;

    open spec fn view(&self) -> ConfigErrorView {
        match self {
            ConfigError::ExpectedKeyValue { line } => ConfigErrorView::ExpectedKeyValue {
                line: *line as nat,
            },
            ConfigError::InvalidNumber { line, key, raw, kind } => ConfigErrorView::InvalidNumber {
                line: *line as nat,
                key: key@,
                raw: raw@,
                kind: *kind,
            },
            ConfigError::NotPositive { line, key } => ConfigErrorView::NotPositive {
                line: *line as nat,
                key: key@,
            },
            ConfigError::TooSmall { line, key } => ConfigErrorView::TooSmall {
                line: *line as nat,
                key: key@,
            },
            ConfigError::ZeroId { line, key } => ConfigErrorView::ZeroId {
                line: *line as nat,
                key: key@,
            },
        }
    }
}

/// The message that reports a configuration error.
pub open spec fn error_text(e: ConfigErrorView) -> Seq<char> {
    match e {
        ConfigErrorView::ExpectedKeyValue { line } => "Linea "@ + decimal(line)
            + ": se esperaba key = value"@,
        ConfigErrorView::InvalidNumber { line, key, raw, kind } => "Linea "@ + decimal(line)
            + ": `"@ + key + "` invalido (`"@ + raw + "`): "@ + int_error_text(kind),
        ConfigErrorView::NotPositive { line, key } => "Linea "@ + decimal(line) + ": `"@ + key
            + "` debe ser mayor que 0"@,
        ConfigErrorView::TooSmall { line, key } => "Linea "@ + decimal(line) + ": `"@ + key
            + "` debe ser al menos 2"@,
        ConfigErrorView::ZeroId { line, key } => "Linea "@ + decimal(line) + ": `"@ + key
            + "` no puede ser 0"@,
    }
}

fn push_str(out: &mut Vec<char>, s: &str)
    ensures
        final(out)@ == old(out)@ + s@,
{
    extend_chars(out, &chars_of(s));
}

/// The line an error is about, counted from 1.
pub open spec fn error_line(e: ConfigErrorView) -> nat {
    match e {
        ConfigErrorView::ExpectedKeyValue { line } => line,
        ConfigErrorView::InvalidNumber { line, .. } => line,
        ConfigErrorView::NotPositive { line, .. } => line,
        ConfigErrorView::TooSmall { line, .. } => line,
        ConfigErrorView::ZeroId { line, .. } => line,
    }
}

impl ConfigError {
    /// The line this error is about, counted from 1.
    pub fn line(&self) -> (r: usize)
        ensures
            r == error_line(self@),
    {
        match self {
            ConfigError::ExpectedKeyValue { line } => *line,
            ConfigError::InvalidNumber { line, .. } => *line,
            ConfigError::NotPositive { line, .. } => *line,
            ConfigError::TooSmall { line, .. } => *line,
            ConfigError::ZeroId { line, .. } => *line,
        }
    }

    /// The message that reports this error.
    pub fn describe(&self) -> (r: String)
        ensures
            r@ == error_text(self@),
    {
        let mut out: Vec<char> = Vec::new();
        push_str(&mut out, "Linea ");
        match self {
            ConfigError::ExpectedKeyValue { line } => {
                push_decimal(&mut out, *line as u64);
                push_str(&mut out, ": se esperaba key = value");
            },
            ConfigError::InvalidNumber { line, key, raw, kind } => {
                push_decimal(&mut out, *line as u64);
                push_str(&mut out, ": `");
                push_str(&mut out, key.as_str());
                push_str(&mut out, "` invalido (`");
                push_str(&mut out, raw.as_str());
                push_str(&mut out, "`): ");
                push_str(&mut out, kind.description());
            },
            ConfigError::NotPositive { line, key } => {
                push_decimal(&mut out, *line as u64);
                push_str(&mut out, ": `");
                push_str(&mut out, key.as_str());
                push_str(&mut out, "` debe ser mayor que 0");
            },
            ConfigError::TooSmall { line, key } => {
                push_decimal(&mut out, *line as u64);
                push_str(&mut out, ": `");
                push_str(&mut out, key.as_str());
                push_str(&mut out, "` debe ser al menos 2");
            },
            ConfigError::ZeroId { line, key } => {
                push_decimal(&mut out, *line as u64);
                push_str(&mut out, ": `");
                push_str(&mut out, key.as_str());
                push_str(&mut out, "` no puede ser 0");
            },
        }
        assert(out@ =~= error_text(self@));
        string_of(&out)
    }
}

/// A raw line without its comment and surrounding whitespace.
pub open spec fn content_of_line(raw: Seq<char>) -> Seq<char> {
    trim(strip_comment(raw))
}

pub fn content_of_line_chars(raw: &[char]) -> (r: Vec<char>)
    ensures
        r@ == content_of_line(raw@),
{
    trim_chars(&strip_comment_chars(raw))
}

/// Whether a (trimmed, non-empty) line is a `[section]` header.
pub open spec fn is_section_header(line: Seq<char>) -> bool {
    line.len() > 0 && line[0] == '[' && line.last() == ']'
}

/// The name of a `[section]` header, trimmed.
pub open spec fn section_name(line: Seq<char>) -> Seq<char> {
    trim(line.subrange(1, line.len() - 1))
}

/// The section that `line` opens, if it is a header.
pub fn section_header(line: &[char]) -> (r: Option<Vec<char>>)
    ensures
        match r {
            Some(name) => is_section_header(line@) && name@ == section_name(line@),
            None => !is_section_header(line@),
        },
{
    let n = line.len();
    if n > 0 && line[0] == '[' && line[n - 1] == ']' {
        assert(n >= 2);
        let inner = sub_chars(line, 1, n - 1);
        Some(trim_chars(&inner))
    } else {
        None
    }
}

/// The trimmed key and trimmed value of a `key = value` line.
pub open spec fn key_value(line: Seq<char>) -> Option<(Seq<char>, Seq<char>)> {
    match split_once(line, '=') {
        Some((k, v)) => Some((trim(k), trim(v))),
        None => None,
    }
}

pub fn key_value_chars(line: &[char]) -> (r: Option<(Vec<char>, Vec<char>)>)
    ensures
        match r {
            Some((k, v)) => key_value(line@) == Some((k@, v@)),
            None => key_value(line@) is None,
        },
{
    match split_once_chars(line, '=') {
        Some((k, v)) => Some((trim_chars(&k), trim_chars(&v))),
        None => None,
    }
}

/// The `u64` written in `value` (quotes allowed), or why it is not one.
pub open spec fn u64_value(value: Seq<char>, line: nat, key: Seq<char>) -> Result<
    u64,
    ConfigErrorView,
> {
    match parse_int(trim_quotes(value), false, 0, u64::MAX as int) {
        Ok(x) => Ok(x as u64),
        Err(kind) => Err(ConfigErrorView::InvalidNumber { line, key, raw: value, kind }),
    }
}

pub open spec fn i64_value(value: Seq<char>, line: nat, key: Seq<char>) -> Result<
    i64,
    ConfigErrorView,
> {
    match parse_int(trim_quotes(value), true, i64::MIN as int, i64::MAX as int) {
        Ok(x) => Ok(x as i64),
        Err(kind) => Err(ConfigErrorView::InvalidNumber { line, key, raw: value, kind }),
    }
}

pub open spec fn usize_value(value: Seq<char>, line: nat, key: Seq<char>) -> Result<
    usize,
    ConfigErrorView,
> {
    match parse_int(trim_quotes(value), false, 0, usize::MAX as int) {
        Ok(x) => Ok(x as usize),
        Err(kind) => Err(ConfigErrorView::InvalidNumber { line, key, raw: value, kind }),
    }
}

pub fn u64_value_exec(value: &[char], line: usize, key: &[char]) -> (r: Result<u64, ConfigError>)
    ensures
        match r {
            Ok(x) => u64_value(value@, line as nat, key@) == Ok::<u64, ConfigErrorView>(x),
            Err(e) => u64_value(value@, line as nat, key@) == Err::<u64, ConfigErrorView>(e@),
        },
{
    match parse_u64(&trim_quotes_chars(value)) {
        Ok(x) => Ok(x),
        Err(kind) => Err(
            ConfigError::InvalidNumber { line, key: string_of(key), raw: string_of(value), kind },
        ),
    }
}

pub fn i64_value_exec(value: &[char], line: usize, key: &[char]) -> (r: Result<i64, ConfigError>)
    ensures
        match r {
            Ok(x) => i64_value(value@, line as nat, key@) == Ok::<i64, ConfigErrorView>(x),
            Err(e) => i64_value(value@, line as nat, key@) == Err::<i64, ConfigErrorView>(e@),
        },
{
    match parse_i64(&trim_quotes_chars(value)) {
        Ok(x) => Ok(x),
        Err(kind) => Err(
            ConfigError::InvalidNumber { line, key: string_of(key), raw: string_of(value), kind },
        ),
    }
}

pub fn usize_value_exec(value: &[char], line: usize, key: &[char]) -> (r: Result<
    usize,
    ConfigError,
>)
    ensures
        match r {
            Ok(x) => usize_value(value@, line as nat, key@) == Ok::<usize, ConfigErrorView>(x),
            Err(e) => usize_value(value@, line as nat, key@) == Err::<usize, ConfigErrorView>(e@),
        },
{
    match parse_usize(&trim_quotes_chars(value)) {
        Ok(x) => Ok(x),
        Err(kind) => Err(
            ConfigError::InvalidNumber { line, key: string_of(key), raw: string_of(value), kind },
        ),
    }
}

} // verus!
