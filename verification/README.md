# cue

A selection assistant for Windows: one hotkey captures the selected text, one
window asks a language model about it, one file holds the settings.

`src/` is the verified library. It holds the state and the decisions; what it
needs from the desktop is handed to it, and what it wants done comes back as
plain values.

| Module            | Role                                                    |
|-------------------|---------------------------------------------------------|
| `ui`              | the assistant's state, and what each event does to it   |
| `conversation`    | what holds of every conversation                        |
| `page`, `ipc`     | calls into the page, and messages from it               |
| `form`            | what saving the settings form makes of the settings     |
| `config`          | settings, key resolution, atomic writes                 |
| `document`        | the entries of the settings file and their defaults     |
| `secrets`         | the table of keys in TOML                               |
| `api`             | requests to the model and the stream of the answer      |
| `dav`             | backups on a WebDAV server                              |
| `capture`         | how the selected text is captured, question by question |
| `path`            | the name of the program that a path ends in             |
| `pickle`          | Chromium's clipboard format                             |
| `markdown`        | responses as inert HTML                                 |
| `hotkey`, `win`   | bringing up the window, and where                       |
| `font`            | which fonts are drawn with                              |
| `json`, `text`    | JSON values and strings                                 |
| `http`            | requests and replies                                    |

`app/` is the program around it: files, network, Win32, the web view. It needs
`assets/ui.html`, the page, to be built.
