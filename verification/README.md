# launchk

A terminal UI that lists launchd jobs, filters them by label and by job type
(`[sguadl]`: system, global, user, agent, daemon, loaded), and runs commands
on the highlighted job (`blame`, `bootstrap`, `bootout`, `enable`, `disable`,
`edit`, `procinfo`, `dumpstate`, ...).

## Layout

- `src/` is the verified library (Verus). It holds the logic of the tool:
  - `launchd/`: job type filters, the plist map and the classification of
    plist paths, the caches of job status, the XPC messages and routine calls
    that the commands send, the decoding of replies, the list of disabled
    jobs (with the `regex` crate), and the steps of editing a plist.
  - `tui/`: the omnibox state machine (filters, command completion, idle
    timeout), the job type filter bar, the key routing and arrow key
    recognition of the root layout, the service list (which jobs are shown,
    in which order, and what each command comes to), column sizing and row
    layout of tables, and the text of dialogs.
  - `text.rs`: string helpers with their specifications.
- `app/` is the program around it: cursive views, the tokio tasks that poll
  launchd, file reading and watching, `$EDITOR` and `$PAGER`, and the calls
  into `xpc_sys`, which sends the library's routine calls to launchd.
- `tests/` runs the library on concrete values.
