# kitkat

A Discord bot (music, translation with text-to-speech through VOICEVOX,
an anti-spam filter and a log of deleted messages), with its logic written
and proved in Verus.

- `src/` is the verified library: the anti-spam filter (`antispam`), the
  configuration file readers (`config`, `antispam::config`,
  `deleted_messages`), the preparation of Japanese text for speech
  (`voicevox`), the player buttons and music replies (`buttons`, `music`),
  the cleaning of model replies (`translate`), and the text and number
  helpers they share (`text`, `numbers`). Calls into `wana_kana`, `regex`
  and `serenity` go through a few trusted wrappers whose contracts are
  stated next to them.
- `app/` is the bot itself: Discord, HTTP, SQLite, files and the
  environment, around the library.
- `tests/` runs the library on concrete inputs.

The music commands in `app/` use `lavalink-rs` and `songbird`, as the bot
does. Neither is listed in `Cargo.toml`: with either of them the resolved
dependency graph grows past the 400 packages this build allows (441 with
both, 412 with `songbird` alone), so `app/` does not type-check until they
are added back.
