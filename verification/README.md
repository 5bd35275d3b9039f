# dsh_shell

The logic of a native desktop shell for the DeepSeek Harness (DSH) web UI, written
and proved in Verus, with a thin program around it.

- `src/` is the library. It decides; it touches no disk, no network and no window.
  Work for the outside is returned as a value (a `Task`, a `Command`, an action),
  and what came of it is handed back as an event.
- `app/` is the program: it reads the environment, performs tasks, runs programs,
  talks over sockets, and owns the window, the web view, the tray and the menu.
  Floating-point geometry lives there too.
- `tests/` runs the library on concrete values.

| Modules | What they hold |
|---|---|
| `text`, `path`, `document` | strings, paths and JSON/YAML lookups the rest is stated over |
| `version`, `updater`, `install`, `staging`, `swap`, `upgrade`, `command`, `task` | finding, staging, proving, swapping and undoing a DSH upgrade |
| `server` | finding the launcher, starting the host, one rollback when it will not start |
| `instance`, `runtime`, `bridge`, `logfile`, `window_state` | single instance, runtime files, the plugin bridge, the shell's own files |
| `theme`, `settings`, `shell`, `i18n` | themes and the injected CSS, the settings page, the event loop's decisions, the two languages |
| `hotkey`, `menu`, `native`, `outline` | shortcuts, the application menu, the tray, the outline of its glyph |

Contracts are stated over the characters of texts and over ghost views of the
types. Statements that relate several functions are public proof functions beside
them, such as `swap::apply_replaces_or_restores`, `version::order_is_transitive` or
`hotkey::spelling_does_not_matter`.
