# boa

The verified core of the BOA session console, written in Verus.

`src/` is the library. Its functions are verified against their
contracts, except three small trusted wrappers around outside crates
(`shell_words::split`, the `nucleo_matcher` token score and the `toml` table
parse), whose contracts are stated beside them and assumed:

- `bindings`: the keybinding table, key resolution (strict and non-strict
  modes, context guards, plugin keybinds), chord parsing and labels.
- `version`: dotted version parsing and ordering, release-list filtering, and
  the update-staleness buckets computed from the cached update check.
- `install`: install-method classification by path, platform asset names,
  the update prompt and refusal messages, and the Homebrew update steps.
- `settings`, `categories`, `list_edit`, `settings_keys`: settings-entry
  validation, the fuzzy settings search and its ranking, category and field
  navigation, mouse routing, the list-field editor, and the key decisions of
  the settings view (key routing, closing, profile cycling, Enter on a field,
  committing the text editor, saving, unsaved-change tracking).
- `themes`: built-in, custom and plugin theme discovery and resolution.
- `reload`, `watch`: reload-failure bookkeeping and the watch rewire plans.
- `home`, `preview`, `remote`: home-view helpers (worktree renames, mouse
  capture, restart gating, status polls), preview-pane selection geometry,
  and the remote picker's text.
- `startup`, `dwell`, `creation`, `rows`, `pins`, `groups`: the home view's
  start-up layout and recovery picks, dwell-to-read, creation-hook progress,
  cursor restoration and archive successors, project pins, and group
  renames and membership.
- `save`, `outcomes`: merging a save with what a peer wrote, and what the
  home view does when a creation finishes, a live-send pane is made ready,
  or the stored sessions are reloaded.
- `text`, `paths`: the string and path operations the above are stated over.

`app/` holds the I/O around it (cache files, HTTP, processes, directory
listing, terminal types, applying watch rewires), and `tests/` the tests.
