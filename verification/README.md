# kikisen_yomiyomi

A Discord text-to-speech bot ("聞き専読み読みくん") split into a verified library and a thin
program around it.

- `src/` — the library, verified with Verus: how messages are turned into speech (mentions,
  markup, emoji, English words, pieces for the synthesizer), the guild and member settings,
  which channels are read through which voice connection, auto connection and its setup
  dialog, the music queue and its commands' decisions, the pager, the speaking styles, the
  managers of a guild's settings and the bot whitelist. Each public function states what it
  returns in its `ensures`; the `law_*` proof functions state what holds across calls.
- `tests/` — tests of the library on concrete values.
- `app/` — the bot itself: Discord (poise/serenity), voice (songbird), synthesis
  (voicevox_core), kana readings of English words (kanalizer), yt-dlp/ffmpeg, and the
  JSON files that keep the settings.
