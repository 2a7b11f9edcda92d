# herdr_targets

The agent integrations of herdr: what it installs into each coding agent's
configuration so that the agent reports its state (session, working, blocked,
idle) to herdr, and how it takes that out again.

- `src/` is the verified library. It holds the decisions of the installers
  and uninstallers as functions from plain values to plain values: hook
  commands and shell quoting, the hook configurations herdr owns (Grok,
  Antigravity CLI, the Trae plugin), the edit plans for the hook files herdr
  shares with an agent (`hook_plans`), Trae's trust entries in
  `traecli.toml`, the Letta two-file transaction as a state machine, and the
  results of the uninstallers. Laws that relate several functions stand in
  `trae_laws`, `hook_plan_laws`, `letta_laws`, `hook_edit`, `install` and
  `json`. `hook_edit` applies the edit plans to a parsed hooks object, and
  `hook_files` turns a hooks file's text into the text written back.
- `app/` is the unverified shell around it: file system access, running the
  Trae CLI, and serde conversions.
- `tests/` runs the library on concrete values.
