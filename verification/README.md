# romoto

Shares a terminal session over SSH: a command runs in a terminal, and everyone who knows the session
ID can join it with `ssh`.

The library under `src/` decides; the program under `app/` does the input and output.

| Module | What it decides |
|--------|-----------------|
| `cli` | what the command line asks for |
| `server` | session IDs, who may join, what the user is told, how a host logs in to a relay |
| `session` | the output that newcomers are shown, and the size of the terminal |
| `supervisor` | when the command is started again |
| `relay` | who may use the relay, and where a guest's input goes |
| `resize` | the escape sequence that carries a window size through the relay |
| `config` | the settings screen |
| `ssh`, `decimal`, `text` | what the others share |

Every function of the library carries a contract that Verus proves. Three are taken on trust: the
conversion of bytes to text by the standard library, the random number behind a session ID, and the
layout of the settings screen. Properties of the library as a whole are the `law_` proof functions.

## Usage

```
romoto <command> [options]
```

| Flag | Description |
|------|-------------|
| `-p, --port <n>` | SSH port (default: 2222) |
| `-v, --version` | Show version |
| `-h, --help` | Show help |

Without a command, `romoto` shares the default command that it was built with, the value of
`ROMOTO_DEFAULT_COMMAND` at build time. A program that was built without one asks for a command.
