//! Text preparation for the VOICEVOX speech engine: Latin words inside
//! Japanese text are turned into katakana so that the engine can read them.
use vstd::prelude::*;
use wana_kana::ConvertJapanese;

use crate::numbers::{parse_i32, parse_int};
use crate::text::{
    chars_eq, chars_of, extend_chars, is_ascii_text, lines, matches_at, lowercase, split_lines,
    split_once, split_once_chars, starts_with, string_of, sub_chars, to_lowercase, trim,
    trim_chars,
};

verus! {

// ---------------------------------------------------------------------------
// Outside calls
// ---------------------------------------------------------------------------

/// What `wana_kana`'s `ConvertJapanese::to_katakana` returns for a text
/// that is not a run of apostrophes.
pub uninterp spec fn spec_to_katakana(s: Seq<char>) -> Seq<char>;

/// A non-empty run of apostrophes.
pub open spec fn apostrophes_only(q: Seq<char>) -> bool {
    q.len() > 0 && forall|i: int| 0 <= i < q.len() ==> #[trigger] q[i] == '\''
}

/// The katakana reading of a text: a run of apostrophes stays as it is;
/// any other text reads as `spec_to_katakana` says.
pub open spec fn katakana_of(s: Seq<char>) -> Seq<char> {
    if apostrophes_only(s) {
        s
    } else {
        spec_to_katakana(s)
    }
}

/// `<&str as wana_kana::ConvertJapanese>::to_katakana` with the default
/// options. Claimed: a run of apostrophes comes back unchanged (the romaji
/// table has no entry that starts with an apostrophe, so each one is passed
/// through, and the katakana shift keeps it); any other text gives
/// `spec_to_katakana` of the argument (the conversion reads nothing but its
/// input). The romaji tables are not restated.
#[verifier::external_body]
fn to_katakana(s: &str) -> (r: String)
    ensures
        apostrophes_only(s@) ==> r@ == s@,
        !apostrophes_only(s@) ==> r@ == spec_to_katakana(s@),
{
    s.to_katakana()
}

// ---------------------------------------------------------------------------
// Character classes
// ---------------------------------------------------------------------------

pub open spec fn is_ascii_alpha(c: char) -> bool {
    ('a' <= c <= 'z') || ('A' <= c <= 'Z')
}

/// Characters that make up a Latin word: ASCII letters and the apostrophe.
pub open spec fn is_latin(c: char) -> bool {
    is_ascii_alpha(c) || c == '\''
}

pub open spec fn has_no_ascii_alpha(s: Seq<char>) -> bool {
    forall|i: int| 0 <= i < s.len() ==> !is_ascii_alpha(#[trigger] s[i])
}

pub open spec fn is_vowel_spec(c: char) -> bool {
    c == 'a' || c == 'i' || c == 'u' || c == 'e' || c == 'o'
}

pub open spec fn is_consonant_spec(c: char) -> bool {
    is_ascii_alpha(c) && !is_vowel_spec(c)
}

fn is_ascii_alphabetic(c: char) -> (r: bool)
    ensures
        r == is_ascii_alpha(c),
{
    ('a' <= c && c <= 'z') || ('A' <= c && c <= 'Z')
}

fn is_latin_token_char(ch: char) -> (r: bool)
    ensures
        r == is_latin(ch),
{
    is_ascii_alphabetic(ch) || ch == '\''
}

fn is_vowel(c: char) -> (r: bool)
    ensures
        r == is_vowel_spec(c),
{
    c == 'a' || c == 'i' || c == 'u' || c == 'e' || c == 'o'
}

fn is_consonant(c: char) -> (r: bool)
    ensures
        r == is_consonant_spec(c),
{
    is_ascii_alphabetic(c) && !is_vowel(c)
}

/// Whether `s` holds no ASCII letter.
fn no_ascii_alpha(s: &str) -> (r: bool)
    ensures
        r == has_no_ascii_alpha(s@),
{
    let v = chars_of(s);
    let mut i: usize = 0;
    while i < v.len()
        invariant
            v@ == s@,
            i <= v@.len(),
            forall|k: int| 0 <= k < i ==> !is_ascii_alpha(#[trigger] v@[k]),
        decreases v@.len() - i,
    {
        if is_ascii_alphabetic(v[i]) {
            return false;
        }
        i += 1;
    }
    true
}

// ---------------------------------------------------------------------------
// English spelling to pseudo-romaji
// ---------------------------------------------------------------------------

/// `s` with every occurrence of `from` replaced by `to`, scanning left to
/// right without overlaps (`str::replace`).
pub open spec fn replace_all(s: Seq<char>, from: Seq<char>, to: Seq<char>) -> Seq<char>
    decreases s.len(),
{
    if s.len() == 0 {
        Seq::empty()
    } else if from.len() > 0 && starts_with(s, from) {
        to + replace_all(s.skip(from.len() as int), from, to)
    } else {
        seq![s[0]] + replace_all(s.drop_first(), from, to)
    }
}

/// The spelling rewrites applied, in this order, before the `c` rule.
pub open spec fn apply_spelling_rules(s: Seq<char>) -> Seq<char> {
    let s = replace_all(s, "tion"@, "shon"@);
    let s = replace_all(s, "sion"@, "zhon"@);
    let s = replace_all(s, "ture"@, "chaa"@);
    let s = replace_all(s, "ough"@, "oo"@);
    let s = replace_all(s, "augh"@, "oo"@);
    let s = replace_all(s, "eigh"@, "ei"@);
    let s = replace_all(s, "wh"@, "w"@);
    let s = replace_all(s, "ph"@, "f"@);
    let s = replace_all(s, "ck"@, "k"@);
    let s = replace_all(s, "qu"@, "kw"@);
    let s = replace_all(s, "th"@, "s"@);
    let s = replace_all(s, "ch"@, "ch"@);
    let s = replace_all(s, "sh"@, "sh"@);
    let s = replace_all(s, "kn"@, "n"@);
    let s = replace_all(s, "wr"@, "r"@);
    let s = replace_all(s, "dg"@, "j"@);
    replace_all(s, "x"@, "kkusu"@)
}

/// A `c` reads as `s` before `e`, `i` or `y`, and as `k` otherwise.
pub open spec fn c_sound(s: Seq<char>, i: int) -> char {
    if s[i] == 'c' {
        if i + 1 < s.len() && (s[i + 1] == 'e' || s[i + 1] == 'i' || s[i + 1] == 'y') {
            's'
        } else {
            'k'
        }
    } else {
        s[i]
    }
}

pub open spec fn soften_c(s: Seq<char>) -> Seq<char> {
    Seq::new(s.len(), |i: int| c_sound(s, i))
}

/// The `c` rule keeps every other character and the length, reads a `c`
/// as `s` right before `e`, `i` or `y`, and as `k` anywhere else.
pub proof fn lemma_c_reads_soft_before_e_i_y(s: Seq<char>)
    ensures
        soften_c(s).len() == s.len(),
        forall|i: int| 0 <= i < s.len() && s[i] != 'c' ==> #[trigger] soften_c(s)[i] == s[i],
        forall|i: int|
            0 <= i && i + 1 < s.len() && s[i] == 'c' && (s[i + 1] == 'e' || s[i + 1] == 'i' || s[i
                + 1] == 'y') ==> #[trigger] soften_c(s)[i] == 's',
        forall|i: int|
            0 <= i < s.len() && s[i] == 'c' && !(i + 1 < s.len() && (s[i + 1] == 'e' || s[i + 1]
                == 'i' || s[i + 1] == 'y')) ==> #[trigger] soften_c(s)[i] == 'k',
{
}

/// A consonant other than `n` gets a `u` after it unless a vowel follows,
/// except a `t` right before an `s`.
pub open spec fn needs_u(s: Seq<char>, i: int) -> bool {
    &&& is_consonant_spec(s[i])
    &&& s[i] != 'n'
    &&& !(i + 1 < s.len() && is_vowel_spec(s[i + 1]))
    &&& !(s[i] == 't' && i + 1 < s.len() && s[i + 1] == 's')
}

/// The first `k` characters of `s`, each followed by `u` where `needs_u`.
pub open spec fn insert_u_prefix(s: Seq<char>, k: int) -> Seq<char>
    decreases k,
{
    if k <= 0 {
        Seq::empty()
    } else if needs_u(s, k - 1) {
        insert_u_prefix(s, k - 1) + seq![s[k - 1], 'u']
    } else {
        insert_u_prefix(s, k - 1) + seq![s[k - 1]]
    }
}

pub open spec fn insert_u(s: Seq<char>) -> Seq<char> {
    insert_u_prefix(s, s.len() as int)
}

/// The romaji-like spelling of an English word.
pub open spec fn pseudo_romaji(input: Seq<char>) -> Seq<char> {
    insert_u(soften_c(apply_spelling_rules(lowercase(input))))
}

/// A reading kept only when no ASCII letter is left in it; else nothing.
pub open spec fn letter_free_or_empty(kata: Seq<char>) -> Seq<char> {
    if has_no_ascii_alpha(kata) {
        kata
    } else {
        Seq::empty()
    }
}

/// The katakana of the pseudo-romaji of `word`, or nothing when some ASCII
/// letter is left in it.
pub open spec fn englishish_katakana(word: Seq<char>) -> Seq<char> {
    letter_free_or_empty(katakana_of(pseudo_romaji(word)))
}

/// The reading chosen for a Latin `token`, given the katakana of its
/// lowercase form read as romaji and its forced English reading: the romaji
/// reading when no ASCII letter is left in it, else the forced reading when
/// it is not empty and has no ASCII letter, else the token itself.
pub open spec fn pick_reading_spec(token: Seq<char>, as_romaji: Seq<char>, forced: Seq<char>) -> Seq<
    char,
> {
    if token.len() == 0 {
        Seq::empty()
    } else if has_no_ascii_alpha(as_romaji) {
        as_romaji
    } else if forced.len() > 0 && has_no_ascii_alpha(forced) {
        forced
    } else {
        token
    }
}

/// A Latin word as the engine should read it: its katakana reading when it
/// is romaji, else the katakana of its English pseudo-romaji, else itself.
pub open spec fn converted_token(token: Seq<char>) -> Seq<char> {
    pick_reading_spec(
        token,
        katakana_of(lowercase(token)),
        englishish_katakana(lowercase(token)),
    )
}

/// `s` with every `from` replaced by `to`.
fn replace_chars(s: &[char], from: &str, to: &str) -> (r: Vec<char>)
    requires
        from@.len() > 0,
    ensures
        r@ == replace_all(s@, from@, to@),
{
    let from_v = chars_of(from);
    let to_v = chars_of(to);
    let mut out: Vec<char> = Vec::new();
    let mut i: usize = 0;
    assert(s@.skip(0) =~= s@);
    while i < s.len()
        invariant
            from_v@ == from@,
            to_v@ == to@,
            from@.len() > 0,
            i <= s@.len(),
            out@ + replace_all(s@.skip(i as int), from@, to@) == replace_all(s@, from@, to@),
        decreases s@.len() - i,
    {
        let ghost rest = s@.skip(i as int);
        if matches_at(s, i, &from_v) {
            assert(rest.take(from@.len() as int) =~= s@.subrange(i as int, i + from@.len()));
            assert(rest.skip(from@.len() as int) =~= s@.skip(i + from@.len()));
            extend_chars(&mut out, &to_v);
            i += from_v.len();
            assert(out@ + replace_all(s@.skip(i as int), from@, to@) =~= replace_all(
                s@,
                from@,
                to@,
            ));
        } else {
            proof {
                if from@.len() <= rest.len() {
                    assert(rest.take(from@.len() as int) =~= s@.subrange(
                        i as int,
                        i + from@.len(),
                    ));
                }
            }
            assert(rest.drop_first() =~= s@.skip(i + 1));
            assert(rest[0] == s@[i as int]);
            out.push(s[i]);
            i += 1;
            assert(out@ + replace_all(s@.skip(i as int), from@, to@) =~= replace_all(
                s@,
                from@,
                to@,
            ));
        }
    }
    assert(s@.skip(i as int) =~= Seq::<char>::empty());
    assert(out@ =~= replace_all(s@, from@, to@));
    out
}

/// The spelling rewrites of `apply_spelling_rules`.
fn spelling_rules(s: Vec<char>) -> (r: Vec<char>)
    ensures
        r@ == apply_spelling_rules(s@),
{
    proof {
        reveal_strlit("tion");
        reveal_strlit("sion");
        reveal_strlit("ture");
        reveal_strlit("ough");
        reveal_strlit("augh");
        reveal_strlit("eigh");
        reveal_strlit("wh");
        reveal_strlit("ph");
        reveal_strlit("ck");
        reveal_strlit("qu");
        reveal_strlit("th");
        reveal_strlit("ch");
        reveal_strlit("sh");
        reveal_strlit("kn");
        reveal_strlit("wr");
        reveal_strlit("dg");
        reveal_strlit("x");
    }
    let s = replace_chars(&s, "tion", "shon");
    let s = replace_chars(&s, "sion", "zhon");
    let s = replace_chars(&s, "ture", "chaa");
    let s = replace_chars(&s, "ough", "oo");
    let s = replace_chars(&s, "augh", "oo");
    let s = replace_chars(&s, "eigh", "ei");
    let s = replace_chars(&s, "wh", "w");
    let s = replace_chars(&s, "ph", "f");
    let s = replace_chars(&s, "ck", "k");
    let s = replace_chars(&s, "qu", "kw");
    let s = replace_chars(&s, "th", "s");
    let s = replace_chars(&s, "ch", "ch");
    let s = replace_chars(&s, "sh", "sh");
    let s = replace_chars(&s, "kn", "n");
    let s = replace_chars(&s, "wr", "r");
    let s = replace_chars(&s, "dg", "j");
    replace_chars(&s, "x", "kkusu")
}

/// Every `c` read as `s` or `k` by what follows it.
fn soften_c_chars(chars: &[char]) -> (r: Vec<char>)
    ensures
        r@ == soften_c(chars@),
{
    let mut out: Vec<char> = Vec::new();
    let mut i: usize = 0;
    while i < chars.len()
        invariant
            i <= chars@.len(),
            out@.len() == i,
            forall|k: int| 0 <= k < i ==> out@[k] == c_sound(chars@, k),
        decreases chars@.len() - i,
    {
        let c = chars[i];
        if c == 'c' {
            if i + 1 < chars.len() && (chars[i + 1] == 'e' || chars[i + 1] == 'i' || chars[i + 1]
                == 'y') {
                out.push('s');
            } else {
                out.push('k');
            }
        } else {
            out.push(c);
        }
        i += 1;
    }
    assert(out@ =~= soften_c(chars@));
    out
}

fn insert_u_for_bare_consonants(s: &str) -> (r: String)
    ensures
        r@ == insert_u(s@),
{
    let chars = chars_of(s);
    let mut out: Vec<char> = Vec::new();
    let mut i: usize = 0;
    while i < chars.len()
        invariant
            chars@ == s@,
            i <= chars@.len(),
            out@ == insert_u_prefix(chars@, i as int),
        decreases chars@.len() - i,
    {
        let c = chars[i];
        out.push(c);
        if is_consonant(c) && c != 'n' {
            let has_next = i + 1 < chars.len();
            let next_is_vowel = has_next && is_vowel(chars[i + 1]);
            if !next_is_vowel {
                if !(c == 't' && has_next && chars[i + 1] == 's') {
                    out.push('u');
                }
            }
        }
        i += 1;
        assert(out@ =~= insert_u_prefix(chars@, i as int));
    }
    string_of(&out)
}

/// The pseudo-romaji of an English word already in lowercase: the spelling
/// rewrites, then the `c` rule, then a `u` after bare consonants.
pub fn romaji_from_lowercase(lower: &str) -> (r: String)
    ensures
        r@ == insert_u(soften_c(apply_spelling_rules(lower@))),
{
    let s = spelling_rules(chars_of(lower));
    let s = soften_c_chars(&s);
    let s = string_of(&s);
    insert_u_for_bare_consonants(s.as_str())
}

fn english_to_pseudo_romaji(input: &str) -> (r: String)
    ensures
        r@ == pseudo_romaji(input@),
{
    let lower = to_lowercase(input);
    romaji_from_lowercase(lower.as_str())
}

/// `kata` when no ASCII letter is left in it, else the empty string.
pub fn reading_without_letters(kata: String) -> (r: String)
    ensures
        r@ == letter_free_or_empty(kata@),
{
    if no_ascii_alpha(kata.as_str()) {
        kata
    } else {
        String::new()
    }
}

fn englishish_to_katakana(word: &str) -> (r: String)
    ensures
        r@ == englishish_katakana(word@),
{
    let pseudo = english_to_pseudo_romaji(word);
    reading_without_letters(to_katakana(pseudo.as_str()))
}

/// The reading chosen for `token` from its romaji reading `as_romaji` and
/// its forced English reading `forced`.
pub fn pick_reading(token: &str, as_romaji: &str, forced: &str) -> (r: String)
    ensures
        r@ == pick_reading_spec(token@, as_romaji@, forced@),
{
    if chars_of(token).len() == 0 {
        return String::new();
    }
    if no_ascii_alpha(as_romaji) {
        return string_of(&chars_of(as_romaji));
    }
    if chars_of(forced).len() > 0 && no_ascii_alpha(forced) {
        return string_of(&chars_of(forced));
    }
    string_of(&chars_of(token))
}

fn convert_latin_token(token: &str) -> (r: String)
    ensures
        r@ == converted_token(token@),
{
    if chars_of(token).len() == 0 {
        return String::new();
    }
    let lower = to_lowercase(token);
    let as_romaji = to_katakana(lower.as_str());
    let forced = if no_ascii_alpha(as_romaji.as_str()) {
        String::new()
    } else {
        englishish_to_katakana(lower.as_str())
    };
    pick_reading(token, as_romaji.as_str(), forced.as_str())
}

// ---------------------------------------------------------------------------
// Whole texts
// ---------------------------------------------------------------------------

/// The number of Latin characters at the start of `s`.
pub open spec fn latin_run_len(s: Seq<char>) -> nat
    decreases s.len(),
{
    if s.len() > 0 && is_latin(s[0]) {
        1 + latin_run_len(s.drop_first())
    } else {
        0
    }
}

pub proof fn lemma_latin_run_len_bound(s: Seq<char>)
    ensures
        latin_run_len(s) <= s.len(),
    decreases s.len(),
{
    if s.len() > 0 && is_latin(s[0]) {
        lemma_latin_run_len_bound(s.drop_first());
    }
}

/// A text as it is handed to the engine: each maximal run of Latin
/// characters is replaced by its `converted_token`, everything else is
/// kept in place.
pub open spec fn tts_text(s: Seq<char>) -> Seq<char>
    decreases s.len(),
{
    if s.len() == 0 {
        Seq::empty()
    } else if is_latin(s[0]) {
        let n = latin_run_len(s);
        proof {
            lemma_latin_run_len_bound(s);
        }
        converted_token(s.take(n as int)) + tts_text(s.skip(n as int))
    } else {
        seq![s[0]] + tts_text(s.drop_first())
    }
}

/// A run of `k` Latin characters that ends at a non-Latin one (or at the
/// end) is the whole leading run.
pub proof fn lemma_latin_run_len_at(s: Seq<char>, k: int)
    requires
        0 <= k <= s.len(),
        forall|i: int| 0 <= i < k ==> is_latin(#[trigger] s[i]),
        k == s.len() || !is_latin(s[k]),
    ensures
        latin_run_len(s) == k,
    decreases k,
{
    if k > 0 {
        let t = s.drop_first();
        assert forall|i: int| 0 <= i < k - 1 implies is_latin(#[trigger] t[i]) by {
            assert(t[i] == s[i + 1]);
        }
        if k - 1 < t.len() {
            assert(t[k - 1] == s[k]);
        }
        lemma_latin_run_len_at(t, k - 1);
    }
}

/// Replaces the Latin words of `text` by a katakana reading, so that a
/// Japanese speech engine can pronounce them; all other characters are
/// kept as they are.
pub fn prepare_japanese_for_tts(text: &str) -> (r: String)
    ensures
        r@ == tts_text(text@),
{
    let chars = chars_of(text);
    let mut out: Vec<char> = Vec::new();
    let mut i: usize = 0;
    assert(chars@.skip(0) =~= chars@);
    while i < chars.len()
        invariant
            chars@ == text@,
            i <= chars@.len(),
            out@ + tts_text(chars@.skip(i as int)) == tts_text(text@),
        decreases chars@.len() - i,
    {
        let ghost rest = chars@.skip(i as int);
        assert(rest[0] == chars@[i as int]);
        if is_latin_token_char(chars[i]) {
            let mut j = i + 1;
            while j < chars.len() && is_latin_token_char(chars[j])
                invariant
                    i < j <= chars@.len(),
                    forall|k: int| i <= k < j ==> is_latin(#[trigger] chars@[k]),
                decreases chars@.len() - j,
            {
                j += 1;
            }
            proof {
                assert forall|k: int| 0 <= k < j - i implies is_latin(#[trigger] rest[k]) by {
                    assert(rest[k] == chars@[i + k]);
                }
                if j - i < rest.len() {
                    assert(rest[j - i] == chars@[j as int]);
                }
                lemma_latin_run_len_at(rest, j - i);
                assert(rest.skip(j - i) =~= chars@.skip(j as int));
            }
            let token = sub_chars(&chars, i, j);
            assert(token@ =~= rest.take(j - i));
            let token_str = string_of(&token);
            let converted = convert_latin_token(token_str.as_str());
            let converted_chars = chars_of(converted.as_str());
            extend_chars(&mut out, &converted_chars);
            i = j;
            assert(out@ + tts_text(chars@.skip(i as int)) =~= tts_text(text@));
        } else {
            assert(rest.drop_first() =~= chars@.skip(i + 1));
            out.push(chars[i]);
            i += 1;
            assert(out@ + tts_text(chars@.skip(i as int)) =~= tts_text(text@));
        }
    }
    assert(chars@.skip(i as int) =~= Seq::<char>::empty());
    assert(out@ =~= tts_text(text@));
    string_of(&out)
}

/// A text without Latin characters is handed to the engine unchanged.
pub proof fn lemma_tts_text_keeps_text_without_latin(s: Seq<char>)
    requires
        forall|i: int| 0 <= i < s.len() ==> !is_latin(#[trigger] s[i]),
    ensures
        tts_text(s) == s,
    decreases s.len(),
{
    if s.len() > 0 {
        let t = s.drop_first();
        assert forall|i: int| 0 <= i < t.len() implies !is_latin(#[trigger] t[i]) by {
            assert(t[i] == s[i + 1]);
        }
        lemma_tts_text_keeps_text_without_latin(t);
        assert(seq![s[0]] + t =~= s);
    }
}

/// A Latin word either becomes a reading with no ASCII letter left in it,
/// or is kept exactly as it was.
pub proof fn lemma_converted_token_has_no_latin_letters_or_is_unchanged(token: Seq<char>)
    ensures
        has_no_ascii_alpha(converted_token(token)) || converted_token(token) == token,
{
}

/// Whether every Latin word of `s` gets a reading without ASCII letters.
pub open spec fn every_word_reads_as_kana(s: Seq<char>) -> bool
    decreases s.len(),
{
    if s.len() == 0 {
        true
    } else if is_latin(s[0]) {
        let n = latin_run_len(s);
        proof {
            lemma_latin_run_len_bound(s);
        }
        has_no_ascii_alpha(converted_token(s.take(n as int))) && every_word_reads_as_kana(
            s.skip(n as int),
        )
    } else {
        every_word_reads_as_kana(s.drop_first())
    }
}

/// The preparation adds no ASCII letter of its own: when every Latin word
/// of a text gets a reading without letters, the prepared text has none.
pub proof fn lemma_tts_text_letter_free(s: Seq<char>)
    requires
        every_word_reads_as_kana(s),
    ensures
        has_no_ascii_alpha(tts_text(s)),
    decreases s.len(),
{
    if s.len() > 0 {
        if is_latin(s[0]) {
            let n = latin_run_len(s);
            lemma_latin_run_len_bound(s);
            lemma_tts_text_letter_free(s.skip(n as int));
            let a = converted_token(s.take(n as int));
            let b = tts_text(s.skip(n as int));
            assert forall|i: int| 0 <= i < (a + b).len() implies !is_ascii_alpha(
                #[trigger] (a + b)[i],
            ) by {
                if i < a.len() {
                    assert((a + b)[i] == a[i]);
                } else {
                    assert((a + b)[i] == b[i - a.len()]);
                }
            }
        } else {
            lemma_tts_text_letter_free(s.drop_first());
            let b = tts_text(s.drop_first());
            assert forall|i: int| 0 <= i < (seq![s[0]] + b).len() implies !is_ascii_alpha(
                #[trigger] (seq![s[0]] + b)[i],
            ) by {
                if i > 0 {
                    assert((seq![s[0]] + b)[i] == b[i - 1]);
                }
            }
        }
    }
}

/// The leading Latin run of `s` is made of Latin characters and ends at a
/// non-Latin one or at the end.
pub proof fn lemma_latin_run_len_props(s: Seq<char>)
    ensures
        latin_run_len(s) <= s.len(),
        forall|i: int| 0 <= i < latin_run_len(s) ==> is_latin(#[trigger] s[i]),
        latin_run_len(s) < s.len() ==> !is_latin(s[latin_run_len(s) as int]),
    decreases s.len(),
{
    if s.len() > 0 && is_latin(s[0]) {
        let t = s.drop_first();
        lemma_latin_run_len_props(t);
        assert forall|i: int| 0 <= i < latin_run_len(s) implies is_latin(#[trigger] s[i]) by {
            if i > 0 {
                assert(s[i] == t[i - 1]);
            }
        }
        if latin_run_len(s) < s.len() {
            assert(s[latin_run_len(s) as int] == t[latin_run_len(t) as int]);
        }
    }
}

/// Preparing two pieces apart gives the preparation of the whole, when the
/// second piece does not continue a Latin word of the first.
pub proof fn lemma_tts_text_concat(a: Seq<char>, b: Seq<char>)
    requires
        b.len() == 0 || !is_latin(b[0]),
    ensures
        tts_text(a + b) == tts_text(a) + tts_text(b),
    decreases a.len(),
{
    let ab = a + b;
    if a.len() == 0 {
        assert(ab =~= b);
        assert(tts_text(a) =~= Seq::<char>::empty());
        assert(tts_text(a) + tts_text(b) =~= tts_text(b));
    } else if !is_latin(a[0]) {
        assert(ab[0] == a[0]);
        assert(ab.drop_first() =~= a.drop_first() + b);
        lemma_tts_text_concat(a.drop_first(), b);
        assert(tts_text(ab) =~= tts_text(a) + tts_text(b));
    } else {
        let n = latin_run_len(a);
        lemma_latin_run_len_props(a);
        assert(ab[0] == a[0]);
        assert forall|i: int| 0 <= i < n implies is_latin(#[trigger] ab[i]) by {
            assert(ab[i] == a[i]);
        }
        if n < a.len() {
            assert(ab[n as int] == a[n as int]);
        } else if b.len() > 0 {
            assert(ab[n as int] == b[0]);
        }
        lemma_latin_run_len_at(ab, n as int);
        assert(ab.take(n as int) =~= a.take(n as int));
        assert(ab.skip(n as int) =~= a.skip(n as int) + b);
        lemma_tts_text_concat(a.skip(n as int), b);
        assert(tts_text(ab) =~= tts_text(a) + tts_text(b));
    }
}

/// A run of apostrophes reads as itself.
pub proof fn lemma_apostrophes_read_as_themselves(q: Seq<char>)
    requires
        apostrophes_only(q),
    ensures
        converted_token(q) == q,
{
    assert(is_ascii_text(q));
    assert(lowercase(q) =~= q);
}

/// A text with no ASCII letter is prepared as itself.
pub proof fn lemma_tts_text_keeps_letter_free_text(x: Seq<char>)
    requires
        has_no_ascii_alpha(x),
    ensures
        tts_text(x) == x,
    decreases x.len(),
{
    if x.len() > 0 {
        if is_latin(x[0]) {
            let n = latin_run_len(x);
            lemma_latin_run_len_props(x);
            let q = x.take(n as int);
            assert forall|i: int| 0 <= i < q.len() implies #[trigger] q[i] == '\'' by {
                assert(q[i] == x[i]);
                assert(is_latin(x[i]));
                assert(!is_ascii_alpha(x[i]));
            }
            lemma_apostrophes_read_as_themselves(q);
            let r = x.skip(n as int);
            assert forall|i: int| 0 <= i < r.len() implies !is_ascii_alpha(#[trigger] r[i]) by {
                assert(r[i] == x[n + i]);
            }
            lemma_tts_text_keeps_letter_free_text(r);
            assert(q + r =~= x);
        } else {
            let r = x.drop_first();
            assert forall|i: int| 0 <= i < r.len() implies !is_ascii_alpha(#[trigger] r[i]) by {
                assert(r[i] == x[i + 1]);
            }
            lemma_tts_text_keeps_letter_free_text(r);
            assert(seq![x[0]] + r =~= x);
        }
    }
}

/// Preparing a prepared text again changes nothing: each Latin word already
/// became a reading without letters, whose only Latin characters are
/// apostrophes, which read as themselves, or was kept, and then reads as
/// itself again.
pub proof fn lemma_tts_text_idempotent(s: Seq<char>)
    ensures
        tts_text(tts_text(s)) == tts_text(s),
    decreases s.len(),
{
    if s.len() > 0 {
        if !is_latin(s[0]) {
            let t = tts_text(s.drop_first());
            lemma_tts_text_idempotent(s.drop_first());
            let u = seq![s[0]] + t;
            assert(u[0] == s[0]);
            assert(u.drop_first() =~= t);
        } else {
            let n = latin_run_len(s);
            lemma_latin_run_len_props(s);
            let tok = s.take(n as int);
            let rest = s.skip(n as int);
            let c = converted_token(tok);
            let r = tts_text(rest);
            lemma_tts_text_idempotent(rest);
            if rest.len() > 0 {
                assert(rest[0] == s[n as int]);
                assert(r == seq![rest[0]] + tts_text(rest.drop_first()));
                assert(r[0] == rest[0]);
            }
            lemma_tts_text_concat(c, r);
            lemma_converted_token_has_no_latin_letters_or_is_unchanged(tok);
            if has_no_ascii_alpha(c) {
                lemma_tts_text_keeps_letter_free_text(c);
            } else {
                assert(c == tok);
                assert forall|i: int| 0 <= i < n implies is_latin(#[trigger] tok[i]) by {
                    assert(tok[i] == s[i]);
                }
                lemma_latin_run_len_at(tok, n as int);
                assert(tok.take(n as int) =~= tok);
                assert(tok.skip(n as int) =~= Seq::<char>::empty());
                assert(tok[0] == s[0]);
                assert(tok.len() > 0);
                assert(converted_token(tok.take(n as int)) == c);
                assert(tts_text(tok.skip(n as int)) =~= Seq::<char>::empty());
                assert(tts_text(tok) =~= c);
            }
        }
    }
}

// ---------------------------------------------------------------------------
// The VOICEVOX client's settings and checks
// ---------------------------------------------------------------------------

/// Why a text could not be synthesized, before or after the engine is asked.
#[derive(Clone, Copy, Debug, PartialEq, Eq, Structural)]
pub enum VoiceVoxError {
    /// The text to synthesize is empty (or only whitespace).
    EmptyText,
    /// The engine did not answer with a WAV file.
    InvalidWav,
}

impl VoiceVoxError {
    /// The message that reports this error.
    pub fn describe(self) -> (r: &'static str)
        ensures
            self == VoiceVoxError::EmptyText ==> r@ == "El texto a sintetizar está vacío"@,
            self == VoiceVoxError::InvalidWav ==> r@ == "VOICEVOX no devolvió un WAV válido"@,
    {
        match self {
            VoiceVoxError::EmptyText => "El texto a sintetizar está vacío",
            VoiceVoxError::InvalidWav => "VOICEVOX no devolvió un WAV válido",
        }
    }
}

/// `s` without any trailing `'/'`.
pub open spec fn trim_trailing_slashes(s: Seq<char>) -> Seq<char>
    decreases s.len(),
{
    if s.len() > 0 && s.last() == '/' {
        trim_trailing_slashes(s.drop_last())
    } else {
        s
    }
}

/// The base URL of a client never ends with a slash, so that endpoint
/// paths can be appended to it.
pub proof fn lemma_trimmed_url_has_no_trailing_slash(s: Seq<char>)
    ensures
        trim_trailing_slashes(s).len() > 0 ==> trim_trailing_slashes(s).last() != '/',
    decreases s.len(),
{
    if s.len() > 0 && s.last() == '/' {
        lemma_trimmed_url_has_no_trailing_slash(s.drop_last());
    }
}

/// Where the engine listens and which voice it uses unless told otherwise.
pub struct VoiceVoxClient {
    base_url: String,
    default_speaker_id: i32,
}

/// The speaker used when none is configured.
pub const DEFAULT_SPEAKER_ID: i32 = 3;

impl VoiceVoxClient {
    pub closed spec fn spec_base_url(&self) -> Seq<char> {
        self.base_url@
    }

    pub closed spec fn spec_default_speaker_id(&self) -> i32 {
        self.default_speaker_id
    }

    /// The engine's address, without trailing slashes.
    pub fn base_url(&self) -> (r: String)
        ensures
            r@ == self.spec_base_url(),
    {
        self.base_url.clone()
    }

    /// A client for the engine at `base_url` (without its trailing slashes).
    pub fn new(base_url: String, default_speaker_id: i32) -> (r: Self)
        ensures
            r.spec_base_url() == trim_trailing_slashes(base_url@),
            r.spec_default_speaker_id() == default_speaker_id,
    {
        let v = chars_of(base_url.as_str());
        let mut end = v.len();
        assert(v@.take(v@.len() as int) =~= v@);
        while end > 0 && v[end - 1] == '/'
            invariant
                end <= v@.len(),
                trim_trailing_slashes(v@) == trim_trailing_slashes(v@.take(end as int)),
            decreases end,
        {
            assert(v@.take(end as int).drop_last() =~= v@.take(end - 1));
            end -= 1;
        }
        assert(v@.take(v@.len() as int) =~= v@);
        let trimmed = sub_chars(&v, 0, end);
        assert(trimmed@ =~= v@.take(end as int));
        VoiceVoxClient { base_url: string_of(&trimmed), default_speaker_id }
    }

    /// The client for `http://{host}:{port}` (host `127.0.0.1` and port
    /// `50021` when not given), with speaker `speaker_id` or 3 by default.
    pub fn from_settings(host: Option<&str>, port: Option<&str>, speaker_id: Option<i32>) -> (r:
        Self)
        ensures
            r.spec_base_url() == trim_trailing_slashes(
                "http://"@ + (match host {
                    Some(h) => h@,
                    None => "127.0.0.1"@,
                }) + ":"@ + (match port {
                    Some(p) => p@,
                    None => "50021"@,
                }),
            ),
            r.spec_default_speaker_id() == (match speaker_id {
                Some(id) => id,
                None => DEFAULT_SPEAKER_ID,
            }),
    {
        let host = match host {
            Some(h) => h,
            None => "127.0.0.1",
        };
        let port = match port {
            Some(p) => p,
            None => "50021",
        };
        let mut url = String::from_str("http://");
        url.append(host);
        url.append(":");
        url.append(port);
        let id = match speaker_id {
            Some(id) => id,
            None => DEFAULT_SPEAKER_ID,
        };
        Self::new(url, id)
    }

    /// The speaker to use: the configured one, else this client's default.
    pub fn speaker_id(&self, configured: Option<i32>) -> (r: i32)
        ensures
            r == (match configured {
                Some(id) => id,
                None => self.spec_default_speaker_id(),
            }),
    {
        match configured {
            Some(id) => id,
            None => self.default_speaker_id,
        }
    }

    /// The URL of the engine's `audio_query` endpoint.
    pub fn audio_query_url(&self) -> (r: String)
        ensures
            r@ == self.spec_base_url() + "/audio_query"@,
    {
        let mut url = self.base_url.clone();
        url.append("/audio_query");
        url
    }

    /// The URL of the engine's `synthesis` endpoint.
    pub fn synthesis_url(&self) -> (r: String)
        ensures
            r@ == self.spec_base_url() + "/synthesis"@,
    {
        let mut url = self.base_url.clone();
        url.append("/synthesis");
        url
    }
}

/// The text to send to the engine for `text`: `text` trimmed and prepared,
/// or `EmptyText` when either is blank.
pub open spec fn synthesis_text(text: Seq<char>) -> Result<Seq<char>, VoiceVoxError> {
    let trimmed = trim(text);
    if trimmed.len() == 0 {
        Err(VoiceVoxError::EmptyText)
    } else {
        let prepared = tts_text(trimmed);
        if trim(prepared).len() == 0 {
            Err(VoiceVoxError::EmptyText)
        } else {
            Ok(prepared)
        }
    }
}

/// Checks and prepares the text that `synthesize` sends to the engine.
pub fn prepare_synthesis_text(text: &str) -> (r: Result<String, VoiceVoxError>)
    ensures
        match r {
            Ok(s) => synthesis_text(text@) == Ok::<Seq<char>, VoiceVoxError>(s@),
            Err(e) => synthesis_text(text@) == Err::<Seq<char>, VoiceVoxError>(e),
        },
{
    let trimmed = trim_chars(&chars_of(text));
    if trimmed.len() == 0 {
        return Err(VoiceVoxError::EmptyText);
    }
    let trimmed_text = string_of(&trimmed);
    let prepared = prepare_japanese_for_tts(trimmed_text.as_str());
    let check = trim_chars(&chars_of(prepared.as_str()));
    if check.len() == 0 {
        return Err(VoiceVoxError::EmptyText);
    }
    Ok(prepared)
}

/// Whether `bytes` look like a WAV file: at least 12 bytes, starting with `RIFF`.
pub open spec fn looks_like_wav(bytes: Seq<u8>) -> bool {
    bytes.len() >= 12 && bytes[0] == 0x52 && bytes[1] == 0x49 && bytes[2] == 0x46 && bytes[3]
        == 0x46
}

/// The engine's answer, accepted only when it looks like a WAV file.
pub fn check_wav(bytes: Vec<u8>) -> (r: Result<Vec<u8>, VoiceVoxError>)
    ensures
        looks_like_wav(bytes@) ==> r == Ok::<Vec<u8>, VoiceVoxError>(bytes),
        !looks_like_wav(bytes@) ==> r == Err::<Vec<u8>, VoiceVoxError>(VoiceVoxError::InvalidWav),
{
    if bytes.len() < 12 || bytes[0] != 0x52 || bytes[1] != 0x49 || bytes[2] != 0x46 || bytes[3]
        != 0x46 {
        return Err(VoiceVoxError::InvalidWav);
    }
    Ok(bytes)
}

/// Whether an HTTP status code is a success (2xx).
pub open spec fn is_success_status(code: u16) -> bool {
    200 <= code < 300
}

/// An answer of the engine with a status that is not a success: the status
/// code and the body of the answer.
pub struct StatusFailure<B> {
    pub code: u16,
    pub body: B,
}

/// Why the engine's answer to a synthesis request cannot be played.
pub enum SynthesisFailure {
    /// The engine answered with a status that is not a success.
    Status(StatusFailure<Vec<u8>>),
    /// The engine answered with something that is not a WAV file.
    InvalidWav,
}

/// The engine's answer to an audio query: its body when the status is a
/// success, else the status and the body.
pub fn audio_query_outcome(status: u16, body: String) -> (r: Result<String, StatusFailure<String>>)
    ensures
        is_success_status(status) ==> (r matches Ok(b) && b@ == body@),
        !is_success_status(status) ==> (r matches Err(f) && f.code == status && f.body@ == body@),
{
    if 200 <= status && status < 300 {
        Ok(body)
    } else {
        Err(StatusFailure { code: status, body })
    }
}

/// The engine's answer to a synthesis request: its body when the status is
/// a success and the body looks like a WAV file; else the status and the
/// body, or that the body is no WAV file.
pub fn synthesis_outcome(status: u16, body: Vec<u8>) -> (r: Result<Vec<u8>, SynthesisFailure>)
    ensures
        is_success_status(status) && looks_like_wav(body@) ==> (r matches Ok(b) && b@ == body@),
        is_success_status(status) && !looks_like_wav(body@) ==> r matches Err(
            SynthesisFailure::InvalidWav,
        ),
        !is_success_status(status) ==> (r matches Err(SynthesisFailure::Status(f)) && f.code
            == status && f.body@ == body@),
{
    if !(200 <= status && status < 300) {
        return Err(SynthesisFailure::Status(StatusFailure { code: status, body }));
    }
    match check_wav(body) {
        Ok(b) => Ok(b),
        Err(_) => Err(SynthesisFailure::InvalidWav),
    }
}

/// The message for an answer with a failing status: which request (`step`),
/// the status as written, and the body as text.
pub fn status_failure_text(step: &str, status: &str, body: &str) -> (r: String)
    ensures
        r@ == "VOICEVOX "@ + step@ + " falló ("@ + status@ + "): "@ + body@,
{
    let mut out = chars_of("VOICEVOX ");
    extend_chars(&mut out, &chars_of(step));
    extend_chars(&mut out, &chars_of(" falló ("));
    extend_chars(&mut out, &chars_of(status));
    extend_chars(&mut out, &chars_of("): "));
    extend_chars(&mut out, &chars_of(body));
    string_of(&out)
}

// ---------------------------------------------------------------------------
// The speaker id in a `.env` file
// ---------------------------------------------------------------------------

pub open spec fn is_quote(c: char) -> bool {
    c == '"' || c == '\''
}

/// `s` without leading and trailing quote characters (`trim_matches`).
pub open spec fn trim_quote_marks(s: Seq<char>) -> Seq<char>
    decreases s.len(),
{
    if s.len() > 0 && is_quote(s[0]) {
        trim_quote_marks(s.drop_first())
    } else if s.len() > 0 && is_quote(s.last()) {
        trim_quote_marks(s.drop_last())
    } else {
        s
    }
}

/// The value that an `.env` line gives to `VOICEVOX_SPEAKER_ID`, if it is
/// such an assignment (blank lines and `#` comments give none).
pub open spec fn env_speaker_value(line: Seq<char>) -> Option<Seq<char>> {
    let l = trim(line);
    if l.len() == 0 || l[0] == '#' {
        None
    } else {
        match split_once(l, '=') {
            None => None,
            Some((key, value)) => if trim(key) == "VOICEVOX_SPEAKER_ID"@ {
                Some(trim(trim_quote_marks(trim(value))))
            } else {
                None
            },
        }
    }
}

/// The value of the first line of `ls` that assigns the speaker id.
pub open spec fn first_speaker_value(ls: Seq<Seq<char>>) -> Option<Seq<char>>
    decreases ls.len(),
{
    if ls.len() == 0 {
        None
    } else {
        match env_speaker_value(ls[0]) {
            Some(v) => Some(v),
            None => first_speaker_value(ls.drop_first()),
        }
    }
}

/// The speaker id that the text of a `.env` file sets: the first
/// assignment decides, and gives none when its value is not an `i32`.
pub open spec fn env_file_speaker_id(content: Seq<char>) -> Option<i32> {
    match first_speaker_value(lines(content)) {
        None => None,
        Some(v) => match parse_int(v, true, i32::MIN as int, i32::MAX as int) {
            Ok(x) => Some(x as i32),
            Err(_) => None,
        },
    }
}

fn is_quote_char(c: char) -> (r: bool)
    ensures
        r == is_quote(c),
{
    c == '"' || c == '\''
}

fn trim_quote_marks_chars(v: &[char]) -> (r: Vec<char>)
    ensures
        r@ == trim_quote_marks(v@),
{
    let mut start: usize = 0;
    let mut end: usize = v.len();
    assert(v@.subrange(0, v@.len() as int) =~= v@);
    while start < end && (is_quote_char(v[start]) || is_quote_char(v[end - 1]))
        invariant
            start <= end <= v@.len(),
            trim_quote_marks(v@) == trim_quote_marks(v@.subrange(start as int, end as int)),
        decreases end - start,
    {
        let ghost cur = v@.subrange(start as int, end as int);
        if is_quote_char(v[start]) {
            assert(cur.drop_first() =~= v@.subrange(start + 1, end as int));
            start += 1;
        } else {
            assert(cur.drop_last() =~= v@.subrange(start as int, end - 1));
            end -= 1;
        }
    }
    proof {
        assert(v@.subrange(0, v@.len() as int) =~= v@);
    }
    sub_chars(v, start, end)
}

/// The value that `line` gives to `VOICEVOX_SPEAKER_ID`.
fn env_speaker_value_exec(line: &[char]) -> (r: Option<Vec<char>>)
    ensures
        match r {
            Some(v) => env_speaker_value(line@) == Some(v@),
            None => env_speaker_value(line@) is None,
        },
{
    let l = trim_chars(line);
    if l.len() == 0 || l[0] == '#' {
        return None;
    }
    match split_once_chars(&l, '=') {
        None => None,
        Some((key, value)) => {
            let key = trim_chars(&key);
            let name = chars_of("VOICEVOX_SPEAKER_ID");
            if !chars_eq(&key, &name) {
                return None;
            }
            let v = trim_chars(&value);
            let v = trim_quote_marks_chars(&v);
            Some(trim_chars(&v))
        },
    }
}

/// The speaker id that the text of a `.env` file sets, if any.
pub fn speaker_id_from_env_content(content: &str) -> (r: Option<i32>)
    ensures
        r == env_file_speaker_id(content@),
{
    let ls = split_lines(&chars_of(content));
    let ghost all = lines(content@);
    let mut i: usize = 0;
    assert(all.skip(0) =~= all);
    while i < ls.len()
        invariant
            ls@.len() == all.len(),
            forall|k: int| 0 <= k < ls@.len() ==> #[trigger] ls@[k]@ == all[k],
            all == lines(content@),
            i <= ls@.len(),
            first_speaker_value(all) == first_speaker_value(all.skip(i as int)),
        decreases ls@.len() - i,
    {
        assert(all.skip(i as int)[0] == all[i as int]);
        assert(all.skip(i as int).drop_first() =~= all.skip(i + 1));
        match env_speaker_value_exec(&ls[i]) {
            Some(v) => {
                return match parse_i32(&v) {
                    Ok(x) => Some(x),
                    Err(_) => None,
                };
            },
            None => {},
        }
        i += 1;
    }
    assert(all.skip(i as int).len() == 0);
    None
}

/// The speaker id to use: the one in the `.env` file, else the
/// `VOICEVOX_SPEAKER_ID` variable when it is an `i32` once trimmed.
pub fn choose_speaker_id(from_file: Option<i32>, from_env: Option<&str>) -> (r: Option<i32>)
    ensures
        r == (match from_file {
            Some(id) => Some(id),
            None => match from_env {
                None => None,
                Some(v) => match parse_int(trim(v@), true, i32::MIN as int, i32::MAX as int) {
                    Ok(x) => Some(x as i32),
                    Err(_) => None,
                },
            },
        }),
{
    match from_file {
        Some(id) => Some(id),
        None => match from_env {
            None => None,
            Some(v) => {
                let t = trim_chars(&chars_of(v));
                match parse_i32(&t) {
                    Ok(x) => Some(x),
                    Err(_) => None,
                }
            },
        },
    }
}

} // verus!
