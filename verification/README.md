# Sirius

The core of Sirius, a distro-agnostic diagnostic installer for bootc/OCI-based
distributions, written in Verus: every function in `src/` carries a contract
that Verus proves.

## Layout

- `src/` — the verified library.
  - `diag/` — the hardware compatibility gate: system facts, the probes
    (UEFI, RAM, disk space, Secure Boot, virtualization, network), the
    configuration of required checks, and the blocking decision.
  - `config_model.rs` — install configuration, the partition plan and its
    validation, user account and passphrase checks.
  - `storage.rs`, `lsblk.rs`, `draft.rs`, `storage_editor.rs`,
    `storage_page.rs` — disk snapshots read from `lsblk --json`, free regions, the partition form's
    starting values, the staged partition draft, the editor's rows and
    disk map, and the storage page's state machine.
  - `navigator.rs`, `state.rs`, `pages.rs` — wizard navigation and state.
  - `adapter.rs`, `summary.rs`, `runner.rs`, `logging.rs` — the install
    request, the summary rows, the privileged runner's checks and messages,
    and the install log's path.
  - `network.rs` — Wi-Fi security classification, network listing, connection
    settings, and the network page's state machine.
  - `distro.rs`, `i18n.rs`, `choices.rs`, `text.rs` — distribution descriptor,
    translations, keyboard/timezone choices, and string helpers.
- `tests/` — tests that run the compiled library.
- `app/` — the program around the library: command line, file and D-Bus I/O
  (NetworkManager, UDisks2), process spawning, and the serde copies of the
  library's types.

Outside crates are reached from `src/` only through a few trusted items, each
documented where it is declared: `gettextrs::gettext`, `uuid::Uuid::parse_str`,
`uuid::Uuid::new_v4`, `serde_json::from_slice`, `String::push` and
`std::path::Path::exists`.
