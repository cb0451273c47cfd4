# Dispo

Dispo is a Discord bot for hand cricket.  This crate holds its rules as a
library verified with Verus; `app/` wires the library to Discord
(serenity), the players' database (MongoDB) and the timers (tokio).

Modules of the library (`src/`):

- `text`: decimal numbers, integer parsing, string comparisons, case mapping.
- `status`: which users are engaged in a match.
- `options`: a command's argument cursor and the match options.
- `commands`: the help of the commands, read from their doc comments.
- `replies`: the answers to failed or refused commands.
- `hc`: what an `hc` request asks for, and player lookups.
- `rank`: leaderboard fields and text.
- `emojis`: the custom emoji registry.
- `duo`: the setup of a duo match.
- `team`: the lobby, roster, draft and toss of a team match.
- `scoreboard`: a match's starting state and its scoreboard.
- `models`: shared data types.
