# cli_agent_prompt

A floating prompt for a terminal pane in which a command line agent runs. The user types into an
editor below the agent's screen; the prompt is sent to the agent, kept in a history per workspace,
and completed with the agent's slash commands and models. A row of chips shows what the agent's own
footer says.

The library in `src/` is verified with Verus. It holds every rule and performs no input or output:
each operation of the overlay returns the effects that its host has to perform.

| module | what it is about |
| --- | --- |
| `overlay` | the overlay's state, and what each event does to it |
| `popover` | the completion popover |
| `slash_commands` | the commands and models, and filtering and merging them |
| `dynamic_commands` | the commands that users and plugins define |
| `history_store` | the history and draft files of a workspace |
| `status_parser` | reading the status off the agent's screen |
| `screen`, `session` | the alternate screen, and the sessions that it gives away |
| `render` | the texts, chips and colours that are shown |
| `agent` | the names that the agent goes by |
| `text`, `numerals`, `bytes`, `hashing` | strings, written numbers, lines of bytes, hashes |
| `patterns`, `json` | the regular expressions and JSON, through `regex` and `serde_json` |

What is trusted rather than proved is in `text` (`str::to_lowercase`), `bytes`
(`String::from_utf8`), `hashing` (`Hash::hash` of `str`), `patterns` and `json`; each trusted item
says what it claims.

Properties of the library as a whole are stated in the proof functions whose names start with
`law_`, and in the contracts: `keeps_mirror` in `overlay` says that the history file stays in line
with the history.

`app/` is the host's side: it reads and writes files, looks at the environment, and lays out the
elements that the terminal draws.
