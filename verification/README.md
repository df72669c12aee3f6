# kando_cosmic_helper

The helper that [Kando](https://github.com/kando-menu/kando) needs on the COSMIC desktop: a
D-Bus service and a command line for the pointer, the work area, windows, key presses and named
workspaces.

`src/` is the library. It holds the rules of the helper and is verified with Verus: each
function states what it returns, and the proof functions whose names begin with `law_` state
what holds of the library as a whole. `app/` is the program around it: it talks to the
compositor, the session bus, the file system and the terminal, and performs the actions that
the library asks for. What needs floating point, such as adding a distance to the place of the
pointer, is there too, and so is starting over when the connection for the menu window is lost.
`tests/` runs the library on examples.

| Module | What it is about |
| --- | --- |
| `pointer`, `probe` | finding and moving the pointer, measuring the work area |
| `toplevel` | listing, focusing and changing windows |
| `session`, `workspace`, `tasks` | workspaces, and going to, filling and forgetting named ones |
| `names` | the file of workspace names, one `name<TAB>id` per line |
| `keyboard` | typing on a virtual keyboard |
| `ron`, `shortcut`, `doctor`, `setup`, `places` | the configuration files, the checks and the wizard |
| `dbus`, `cli` | what the service answers, and the command line |
| `util`, `wire`, `error` | waiting, the numbers on the wire, and what can go wrong |
| `text`, `number`, `order`, `search` | strings, numbers, the order of coordinates, searching |

Places of the pointer are integers in 256ths of a logical pixel, which is what the protocol
counts in.
