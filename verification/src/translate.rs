//! The replies of the translation commands: the model's answer without its
//! `<think>` blocks, and what the voice translation says.
use vstd::prelude::*;

use crate::text::{chars_of, extend_chars, string_of, trim, trim_chars};

verus! {

#[verifier::external_type_specification]
#[verifier::external_body]
pub struct ExRegex(regex::Regex);

#[verifier::external_type_specification]
#[verifier::external_body]
pub struct ExRegexError(regex::Error);

/// A compiled regular expression and the pattern it was compiled from.
pub struct CompiledPattern {
    regex: regex::Regex,
    pattern: String,
}

impl CompiledPattern {
    pub closed spec fn spec_pattern(&self) -> Seq<char> {
        self.pattern@
    }
}

/// Whether `regex::Regex::new` accepts a pattern.
pub uninterp spec fn spec_regex_is_valid(pattern: Seq<char>) -> bool;

/// `regex::Regex::new(pattern)`. Claimed: it succeeds exactly when
/// `spec_regex_is_valid(pattern)`, which depends on the pattern alone; the
/// compiled regex keeps its pattern. The regex syntax is not restated.
#[verifier::external_body]
fn compile_pattern(pattern: &str) -> (r: Result<CompiledPattern, regex::Error>)
    ensures
        r is Ok == spec_regex_is_valid(pattern@),
        r matches Ok(c) ==> c.spec_pattern() == pattern@,
{
    match regex::Regex::new(pattern) {
        Ok(regex) => Ok(CompiledPattern { regex, pattern: pattern.to_string() }),
        Err(e) => Err(e),
    }
}

/// What `Regex::replace_all` returns for the regex of `pattern`.
pub uninterp spec fn spec_regex_replace_all(
    pattern: Seq<char>,
    haystack: Seq<char>,
    replacement: Seq<char>,
) -> Seq<char>;

/// `regex::Regex::replace_all(haystack, replacement)`, as an owned string.
/// Claimed: the result is `spec_regex_replace_all` of the regex's pattern,
/// the haystack and the replacement, which are all it depends on; the
/// matching rules are not restated.
#[verifier::external_body]
fn regex_replace_all(compiled: &CompiledPattern, haystack: &str, replacement: &str) -> (r: String)
    ensures
        r@ == spec_regex_replace_all(compiled.spec_pattern(), haystack@, replacement@),
{
    compiled.regex.replace_all(haystack, replacement).into_owned()
}

/// The blocks in which a reasoning model thinks aloud, across lines.
pub const THINK_BLOCK_PATTERN: &'static str = "(?s)<think>.*?</think>";

/// Why the model's answer could not be used.
#[derive(Clone, Copy, Debug, PartialEq, Eq, Structural)]
pub enum AiReplyError {
    /// The model answered nothing.
    NoResponse,
    /// The pattern of the think blocks did not compile.
    InvalidPattern,
}

impl AiReplyError {
    /// The message that reports this error.
    pub fn describe(self) -> (r: &'static str)
        ensures
            self == AiReplyError::NoResponse ==> r@
                == "No se recibió una respuesta válida del modelo de IA"@,
            self == AiReplyError::InvalidPattern ==> r@ == "El patrón de los bloques <think> no es válido"@,
    {
        match self {
            AiReplyError::NoResponse => "No se recibió una respuesta válida del modelo de IA",
            AiReplyError::InvalidPattern => "El patrón de los bloques <think> no es válido",
        }
    }
}

/// The model's answer once its think blocks are removed: trimmed.
pub fn tidy_reply(without_thoughts: &str) -> (r: String)
    ensures
        r@ == trim(without_thoughts@),
{
    string_of(&trim_chars(&chars_of(without_thoughts)))
}

/// The reply to send for the model's answer `message` (the content of its
/// first choice): the answer without think blocks, trimmed.
pub fn clean_ai_reply(message: Option<String>) -> (r: Result<String, AiReplyError>)
    ensures
        match message {
            None => r == Err::<String, AiReplyError>(AiReplyError::NoResponse),
            Some(m) => if spec_regex_is_valid(THINK_BLOCK_PATTERN@) {
                r matches Ok(s) && s@ == trim(
                    spec_regex_replace_all(THINK_BLOCK_PATTERN@, m@, ""@),
                )
            } else {
                r == Err::<String, AiReplyError>(AiReplyError::InvalidPattern)
            },
        },
{
    let message = match message {
        Some(m) => m,
        None => return Err(AiReplyError::NoResponse),
    };
    let compiled = match compile_pattern(THINK_BLOCK_PATTERN) {
        Ok(c) => c,
        Err(_) => return Err(AiReplyError::InvalidPattern),
    };
    let without_thoughts = regex_replace_all(&compiled, message.as_str(), "");
    Ok(tidy_reply(without_thoughts.as_str()))
}

/// The answer of the voice translation: empty translations are refused.
pub open spec fn voice_translation_reply(japanese: Seq<char>) -> Seq<char> {
    if trim(japanese).len() == 0 {
        "La traducción llegó vacía."@
    } else {
        "🔊 **Traducción (ES→JA):**\n"@ + japanese
    }
}

/// Whether a translation can be spoken: it is not blank.
pub fn can_speak(japanese: &str) -> (r: bool)
    ensures
        r == (trim(japanese@).len() > 0),
{
    trim_chars(&chars_of(japanese)).len() > 0
}

/// What the voice translation finally says.
pub fn voice_translation_message(japanese: &str) -> (r: String)
    ensures
        r@ == voice_translation_reply(japanese@),
{
    if !can_speak(japanese) {
        return String::from_str("La traducción llegó vacía.");
    }
    let mut out = chars_of("🔊 **Traducción (ES→JA):**\n");
    extend_chars(&mut out, &chars_of(japanese));
    string_of(&out)
}

} // verus!
