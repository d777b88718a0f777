# dsh_desktop

The verified core of the DeepSeek Harness desktop shell, a Tauri wrapper that
runs `dsh web` through npx, supervises it, and shows it in a WebView.

- `src/` is the library, verified with Verus: version ordering and npm-style
  ranges (`version`), the state files and `npm view` answers
  (`dsh`, over the JSON model of `json`), the supervision policy
  (`lifecycle`), plugin installation and the loader patch (`plugins`),
  paths and log rotation (`config`), the URL line of `dsh web`
  (`process_supervisor`), status and progress (`status`), the tray (`tray`),
  readiness polling (`health`) and the channel confirmation (`commands`).
- `app/` is the Tauri shell around it: window, tray, IPC, processes, files
  and network. It performs the actions the library decides.
- `tests/` exercise the library on concrete values.
