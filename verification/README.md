# belt_cli

The command line of Belt, a conveyor belt for development work: queue items,
specs, cron jobs, the daemon, human-in-the-loop answers, the dashboard and the
interactive Claw session.

What the program decides, computes, parses and writes is in `src/`, a Verus
library. Each function states its result as a mathematical function of plain
values, and Verus proves it. Laws that relate several functions are public proof
functions whose names begin with `law_`.

| Module | Subject |
| --- | --- |
| `agent` | actions, rules and plans of `belt agent` |
| `assistant` | the names that follow from the coding assistant in use |
| `auto`, `claw::plugin` | files of the plugins |
| `bootstrap` | rule files, replies of language models, the pull request |
| `claw`, `claw::session`, `claw::slash` | the Claw workspace, its session and commands |
| `cron`, `daemon`, `queue_commands`, `workspace` | the commands of these names |
| `dashboard` | tabs, keys, selections and panels |
| `decompose`, `links`, `specs` | specs, their issues and their links |
| `hitl` | items that wait for a human |
| `status` | what is gathered of the system, and how it is shown |
| `bytes`, `files`, `numbers`, `order`, `paths`, `scan`, `style`, `text` | what these rest on |

Calls into other crates stand behind five small functions with a stated
contract: two of `chrono` in `hitl`, one of `serde_json` in each of `decompose`
and `claw::slash`, and one of `ratatui` in `dashboard::layout`. Of the standard
library, `text` states what `String::push` does.

`app/` is the program around the library: arguments, files, processes, the
terminal and the database.
