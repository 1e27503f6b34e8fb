# jotabot

The decision logic of a Discord bot for one group of friends, verified with Verus.

The bot follows one member: it announces how long a game was played when the member
switches games or stops playing, follows the member into and out of voice calls, says how
long the member took to share the screen, and answers a few slash commands (joining a
voice channel, changing its profile picture, reading text aloud, and checking or starting
a game server).

- `src/` is the library: every rule the bot applies, with its contract.
  - `presence` — the game the member plays, and the messages about it.
  - `calls` — the member's voice calls: when the bot joins, leaves or moves back, and the
    screen-share message.
  - `interaction` — chat replies, routing of slash commands, and their answers.
  - `commands::{join, pic, ping, server, voice}` — each slash command: how its options are read,
    its replies and errors, and its declaration.
  - `text`, `options`, `ids` — decimal and line handling, command options, identities.
- `app/` is the program around it: the Discord client, voice, HTTP, packet capture and
  processes.
- `tests/` runs the library on concrete values.

The app reads its token and Discord ids from the environment: `DISCORD_TOKEN`,
`DISCORD_ID_JV` (the member followed), `GUILD_ID`, `GENERAL` (announcement channel),
`DISCORD_ID_BOT`, `DISCORD_ID_LH` and `DISCORD_ID_PE` (who may see the server address).
