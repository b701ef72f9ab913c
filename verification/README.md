# aishell

`aishell` turns a description in natural language into a shell command. The
command is only ever handed out for review: it is put on an editable command
line, with a message that tells its risk, and is never executed.

The library under `src/` is written in [Verus](https://github.com/verus-lang/verus).
It holds every rule of the program, and Verus proves that the code does what the
contracts say. The program under `app/` does the input and output: files, the
terminal, the history database and the requests to a provider.

## Modules

| Module | What it holds |
| --- | --- |
| `cli` | The command line. |
| `config`, `loopback`, `setup` | The configuration, the servers that may be reached without encryption, and the setup dialog. |
| `provider`, `client`, `chat` | The providers, their endpoints and credentials, and the messages of a request. |
| `reply` | What a model's reply is taken for: a command with its risk, a question or an answer. |
| `conversation` | A conversation from the request to its output, with tool calls and retries. |
| `file_tools`, `workspace` | The file tools of a model, which stay below one directory. |
| `audit`, `context` | The log of file accesses and the history, as statements for the database. |
| `database` | A model of the tables and of what the statements do to them, with the laws of the history. |
| `session` | What one call of the program reads and shows. |
| `paths`, `secure_fs` | Where private files are kept, and how they are created and replaced. |
| `shell`, `system_info`, `windows_console` | The shell integrations, the host system and the console modes of Windows. |
| `openrouter` | A client for OpenRouter alone. |
| `text`, `pieces`, `number`, `bytes`, `quote`, `error`, `ui` | Texts, numbers, bytes and messages. |

## How it is put together

Where the program has to act on the world between two decisions, the library has a
machine that says what is to be done next and is told what came of it:
`workspace::ToolRun` for a file access, `secure_fs::FileTask` for a private file,
`conversation::Conversation` for a conversation, and `setup::Setup` for the dialog.
The program carries out each step and reports back.

Each module states its laws as public proof functions at its end. Among them:

- no file access of a model leaves its directory, whatever the file system answers;
- every command that is handed out carries a risk, and stands on one line;
- a conversation ends after at most twelve requests;
- a private file is replaced whole or not at all;
- a configuration is never loaded through a link or from a file that others can read;
- a load gives the newest turns of its own context, up to the limit;
- the API key never shows in what is displayed of the configuration;
- a file access is recorded before the model learns of it.

## What is not proved

Calls into `serde_json`, `reqwest` and std that only compute stand behind small
functions whose contracts are believed; each says in its comment what it claims.
What the database does with a statement and what a provider answers are outside
the library: the statements, their parameters and the requests are exact. The laws
of the history rest on the model in `database`, which gives each statement its
effect, and those of the PowerShell integration on the part of PowerShell's
evaluation that `shell` writes down.
