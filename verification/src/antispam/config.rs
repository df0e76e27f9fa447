//! The `[antispam]` section of the bot's configuration file.
use vstd::prelude::*;

use crate::config::{
    content_of_line, content_of_line_chars, i64_value, i64_value_exec, is_section_header,
    key_value, key_value_chars, section_header, section_name, u64_value, u64_value_exec,
    usize_value, usize_value_exec, ConfigError, ConfigErrorView,
};
use crate::text::{chars_eq, chars_of, lines, split_lines, string_of};

verus! {

/// By default, messages seen in the last 12 seconds are compared.
pub const DEFAULT_WINDOW_SECONDS: i64 = 12;

/// By default, the same message in 3 channels is an incident.
pub const DEFAULT_DISTINCT_CHANNELS_THRESHOLD: usize = 3;

/// How the anti-spam filter is set up.
#[derive(Clone, Copy, Debug, PartialEq, Eq, Structural)]
pub struct AntiSpamConfig {
    /// Where alerts are sent; no alerts without it.
    pub alert_channel_id: Option<u64>,
    /// How long a message is remembered, in seconds.
    pub duplicate_window_seconds: i64,
    /// In how many channels the same message makes an incident.
    pub distinct_channels_threshold: usize,
}

pub open spec fn default_config() -> AntiSpamConfig {
    AntiSpamConfig {
        alert_channel_id: None,
        duplicate_window_seconds: DEFAULT_WINDOW_SECONDS,
        distinct_channels_threshold: DEFAULT_DISTINCT_CHANNELS_THRESHOLD,
    }
}

/// The configuration given by lines `ls[i..]`, starting from `config` in
/// section `section`: headers switch sections, blank lines and comments are
/// skipped, and only `key = value` lines of `[antispam]` are read; unknown
/// keys are ignored.
pub open spec fn parse_antispam_from(
    ls: Seq<Seq<char>>,
    i: nat,
    config: AntiSpamConfig,
    section: Seq<char>,
) -> Result<AntiSpamConfig, ConfigErrorView>
    decreases ls.len() - i,
{
    if i >= ls.len() {
        Ok(config)
    } else {
        let line = content_of_line(ls[i as int]);
        let number = i + 1;
        if line.len() == 0 {
            parse_antispam_from(ls, i + 1, config, section)
        } else if is_section_header(line) {
            parse_antispam_from(ls, i + 1, config, section_name(line))
        } else if section != "antispam"@ {
            parse_antispam_from(ls, i + 1, config, section)
        } else {
            match key_value(line) {
                None => Err(ConfigErrorView::ExpectedKeyValue { line: number }),
                Some((key, value)) => if key == "alert_channel_id"@ {
                    match u64_value(value, number, key) {
                        Err(e) => Err(e),
                        Ok(id) => if id == 0 {
                            Err(ConfigErrorView::ZeroId { line: number, key })
                        } else {
                            parse_antispam_from(
                                ls,
                                i + 1,
                                AntiSpamConfig { alert_channel_id: Some(id), ..config },
                                section,
                            )
                        },
                    }
                } else if key == "duplicate_window_seconds"@ {
                    match i64_value(value, number, key) {
                        Err(e) => Err(e),
                        Ok(seconds) => if seconds <= 0 {
                            Err(ConfigErrorView::NotPositive { line: number, key })
                        } else {
                            parse_antispam_from(
                                ls,
                                i + 1,
                                AntiSpamConfig { duplicate_window_seconds: seconds, ..config },
                                section,
                            )
                        },
                    }
                } else if key == "distinct_channels_threshold"@ {
                    match usize_value(value, number, key) {
                        Err(e) => Err(e),
                        Ok(threshold) => if threshold < 2 {
                            Err(ConfigErrorView::TooSmall { line: number, key })
                        } else {
                            parse_antispam_from(
                                ls,
                                i + 1,
                                AntiSpamConfig { distinct_channels_threshold: threshold, ..config },
                                section,
                            )
                        },
                    }
                } else {
                    parse_antispam_from(ls, i + 1, config, section)
                },
            }
        }
    }
}

/// The configuration that a configuration file's text gives.
pub open spec fn parse_antispam(text: Seq<char>) -> Result<AntiSpamConfig, ConfigErrorView> {
    parse_antispam_from(lines(text), 0, default_config(), Seq::empty())
}

/// A configuration whose window is positive and whose threshold is at least 2.
pub open spec fn sane_config(c: AntiSpamConfig) -> bool {
    c.duplicate_window_seconds > 0 && c.distinct_channels_threshold >= 2
}

pub proof fn lemma_parse_antispam_from_sane(
    ls: Seq<Seq<char>>,
    i: nat,
    config: AntiSpamConfig,
    section: Seq<char>,
)
    requires
        sane_config(config),
    ensures
        parse_antispam_from(ls, i, config, section) matches Ok(c) ==> sane_config(c),
    decreases ls.len() - i,
{
    if i < ls.len() {
        let line = content_of_line(ls[i as int]);
        if line.len() == 0 {
            lemma_parse_antispam_from_sane(ls, i + 1, config, section);
        } else if is_section_header(line) {
            lemma_parse_antispam_from_sane(ls, i + 1, config, section_name(line));
        } else if section != "antispam"@ {
            lemma_parse_antispam_from_sane(ls, i + 1, config, section);
        } else {
            match key_value(line) {
                None => {},
                Some((key, value)) => {
                    let number = i + 1;
                    if key == "alert_channel_id"@ {
                        if let Ok(id) = u64_value(value, number, key) {
                            lemma_parse_antispam_from_sane(
                                ls,
                                i + 1,
                                AntiSpamConfig { alert_channel_id: Some(id), ..config },
                                section,
                            );
                        }
                    } else if key == "duplicate_window_seconds"@ {
                        if let Ok(seconds) = i64_value(value, number, key) {
                            if seconds > 0 {
                            lemma_parse_antispam_from_sane(
                                ls,
                                i + 1,
                                AntiSpamConfig { duplicate_window_seconds: seconds, ..config },
                                section,
                            );
                            }
                        }
                    } else if key == "distinct_channels_threshold"@ {
                        if let Ok(threshold) = usize_value(value, number, key) {
                            if threshold >= 2 {
                            lemma_parse_antispam_from_sane(
                                ls,
                                i + 1,
                                AntiSpamConfig { distinct_channels_threshold: threshold, ..config },
                                section,
                            );
                            }
                        }
                    } else {
                        lemma_parse_antispam_from_sane(ls, i + 1, config, section);
                    }
                },
            }
        }
    }
}

/// Every configuration that a file gives has a positive window and a
/// threshold of at least 2.
pub proof fn lemma_parsed_config_is_sane(text: Seq<char>)
    ensures
        parse_antispam(text) matches Ok(c) ==> sane_config(c),
{
    lemma_parse_antispam_from_sane(lines(text), 0, default_config(), Seq::empty());
}

impl Default for AntiSpamConfig {
    /// The settings used when the file does not set them.
    fn default() -> (r: Self)
        ensures
            r == default_config(),
    {
        AntiSpamConfig {
            alert_channel_id: None,
            duplicate_window_seconds: DEFAULT_WINDOW_SECONDS,
            distinct_channels_threshold: DEFAULT_DISTINCT_CHANNELS_THRESHOLD,
        }
    }
}

impl AntiSpamConfig {

    /// Reads the `[antispam]` section of a configuration file's text.
    pub fn parse(raw_config: &str) -> (r: Result<Self, ConfigError>)
        ensures
            match r {
                Ok(c) => parse_antispam(raw_config@) == Ok::<AntiSpamConfig, ConfigErrorView>(c),
                Err(e) => parse_antispam(raw_config@) == Err::<AntiSpamConfig, ConfigErrorView>(
                    e@,
                ),
            },
    {
        proof {
            reveal_strlit("antispam");
        }
        let ls = split_lines(&chars_of(raw_config));
        let ghost all = lines(raw_config@);
        let mut config = Self::default();
        let mut section: Vec<char> = Vec::new();
        let antispam = chars_of("antispam");
        let alert_key = chars_of("alert_channel_id");
        let window_key = chars_of("duplicate_window_seconds");
        let threshold_key = chars_of("distinct_channels_threshold");
        let mut i: usize = 0;
        assert(section@ =~= Seq::<char>::empty());
        while i < ls.len()
            invariant
                ls@.len() == all.len(),
                forall|k: int| 0 <= k < ls@.len() ==> #[trigger] ls@[k]@ == all[k],
                all == lines(raw_config@),
                i <= ls@.len(),
                antispam@ == "antispam"@,
                alert_key@ == "alert_channel_id"@,
                window_key@ == "duplicate_window_seconds"@,
                threshold_key@ == "distinct_channels_threshold"@,
                parse_antispam(raw_config@) == parse_antispam_from(
                    all,
                    i as nat,
                    config,
                    section@,
                ),
            decreases ls@.len() - i,
        {
            let line = content_of_line_chars(&ls[i]);
            let number = i + 1;
            if line.len() == 0 {
                i += 1;
                continue ;
            }
            match section_header(&line) {
                Some(name) => {
                    section = name;
                    i += 1;
                    continue ;
                },
                None => {},
            }
            if !chars_eq(&section, &antispam) {
                i += 1;
                continue ;
            }
            let (key, value) = match key_value_chars(&line) {
                None => {
                    return Err(ConfigError::ExpectedKeyValue { line: number });
                },
                Some(kv) => kv,
            };
            if chars_eq(&key, &alert_key) {
                let id = match u64_value_exec(&value, number, &key) {
                    Ok(id) => id,
                    Err(e) => return Err(e),
                };
                if id == 0 {
                    return Err(ConfigError::ZeroId { line: number, key: string_of(&key) });
                }
                config.alert_channel_id = Some(id);
            } else if chars_eq(&key, &window_key) {
                let seconds = match i64_value_exec(&value, number, &key) {
                    Ok(s) => s,
                    Err(e) => return Err(e),
                };
                if seconds <= 0 {
                    return Err(ConfigError::NotPositive { line: number, key: string_of(&key) });
                }
                config.duplicate_window_seconds = seconds;
            } else if chars_eq(&key, &threshold_key) {
                let threshold = match usize_value_exec(&value, number, &key) {
                    Ok(t) => t,
                    Err(e) => return Err(e),
                };
                if threshold < 2 {
                    return Err(ConfigError::TooSmall { line: number, key: string_of(&key) });
                }
                config.distinct_channels_threshold = threshold;
            }
            i += 1;
        }
        Ok(config)
    }
}

} // verus!
