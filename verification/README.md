# shapeshifter

Keeps several Codex (ChatGPT) sign-ins side by side and switches the active
one, on this machine or on remote hosts reached over SSH. It saves profiles
of `auth.json`, signs in through the browser or a device code, fetches the
usage limits of each account, and offers a terminal interface.

## Layout

- `src/` — the library, verified with Verus. Every function carries a
  contract; public proof functions state the laws that hold across calls.
  - `domain` — accounts, auth files, hosts and usage limits.
  - `path`, `text` — paths and strings as sequences of characters. Paths
    follow the Unix rules of `std::path` (`/` separates, `.` segments are
    skipped); Windows separators and prefixes are not modelled.
  - `profile_store` — where profiles, hosts and the active auth file live,
    how profile files are named, listed, sorted and migrated.
  - `host_ops` — the shell commands and file plans that read, write and sync
    auth files on local and remote hosts.
  - `auth` — the OAuth flows: PKCE, authorize URLs, callbacks, token forms,
    device-code polling decisions.
  - `limits` — the usage endpoint: URL, headers and the mapping of its reply.
  - `updater` — release versions and the asset to download.
  - `config` — the settings file.
  - `session` — the state shared by the interfaces: reloads, background
    jobs and what they report, notices, the limits cache, marks.
  - `tui`, `desktop` — the state machines of the two interfaces: keys to
    actions, actions to new state and jobs. Only the terminal interface has a
    front end in `app/`; the desktop window is not built here.
  - `interop` — the trusted calls into outside crates, each with the
    contract it is believed to meet.
- `tests/` — tests of the library on concrete values.
- `app/` — the program around the library: terminal drawing, files, SSH,
  HTTP, the clipboard and the background worker. It is not verified.
