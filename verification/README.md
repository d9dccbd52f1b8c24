# mafia_bot

The decision logic and message texts of a Discord bot that runs mafia games,
verified with Verus.

`src/` is the verified library. Every function there carries a contract over
spec functions and views, and the public `law_*` proof functions state the
properties that hold across calls. The main parts:

- `role`, `role_map`, `config`: roles, per-role counts and the bot settings.
- `slots`, `selection`, `counts`, `start`: drawing the special roles of a game,
  counting the line-up, and planning and closing a recruitment.
- `recruitment`, `lobby`, `forms`: the recruitment message, its buttons and
  forms, and what each press does.
- `game`, `running`, `access`, `status`, `summary`, `votes`, `contractor`:
  game state and its clean-up, who may see or say what, and the status texts.
- `channels`: where a message typed in a game channel goes, the steps of
  opening a player's personal dead-chat, shaman and role channels, and the
  permission cache.
- `night`: the reply to a night-action choice, from the game engine's answer.
- `admin`, `settings`: the manager commands and the settings texts.
- `casino`, `boards`, `choices`, `input`, `permissions`: casino panel and
  forms, leaderboard helpers, command choices, reading typed input, and
  channel permission bits.
- `random`, `text`, `sort`: the random draws (through `rand`), text helpers,
  and stable sorting.

`app/` is a small command-line front that loads the configuration file, runs
a manager command on it, and saves it. `tests/` holds the tests.
