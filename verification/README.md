# chatters

A terminal chat client with vim-like modes, in two parts:

- `src/`, the library, verified with Verus: the interface's state (contacts,
  messages, compose box, command line and its history, popups, lists and how
  they scroll), key bindings and how keys are answered, the commands typed on
  the command line and their completion, the messages between the interface and
  a backend, the order contacts are listed in, what the Signal and local
  backends decide when they read and write messages, and what the Matrix
  backend decides about rooms, sent texts and device verification.
- `app/`, the program around it: terminal input and drawing, the configuration
  file, the backend actor and the local backend's asynchronous interface, and
  the work that commands leave behind (opening files and links, running an
  editor or a shell command).

Layout of the library:

| module | what it holds |
|---|---|
| `text` | strings: decimals, trimming, ordering, shell quoting and splitting, sorting |
| `keybinds` | keys, key sequences as text, bindings per mode |
| `command_history` | the history of command lines and its selection |
| `commands` | commands, their arguments, completion, and the effects they leave |
| `tui` | the interface's state and the texts it shows; lists, contacts, messages, compose box, command line |
| `util` | answering keys step by step, and answering news from the backend |
| `backends`, `message` | contacts, messages, attachments, and the messages to and from a backend |
| `backend_actor` | the order contacts are listed in |
| `hooks`, `config` | the new-message hook and the configuration |
| `local`, `signal` | the local backend, and the Signal backend's reading and writing of messages |
| `matrix` | the Matrix backend's rooms as contacts, sent texts, verification steps and answers |

The tests under `tests/` run the library.
