# kokorobox-native

The native services of KokoroBox Desktop as a verified library: every rule
that decides what the services do — validation of requests, the command
lines and scripts that run elevated, the parsing of system tool output, the
traffic presenter's protocol and labels, the service identity's credential
format, the portable updater's checks — is written in Verus and proved
against its contract.

## Layout

| Path | Contents |
| --- | --- |
| `src/` | The verified library. Each module takes what the operating system reported as plain values and returns a decision (a result, a command to run, a file to write). |
| `src/text.rs`, `src/paths.rs`, `src/windows_paths.rs` | Character-sequence and path models shared by the rest (Unix and Windows `Path` semantics). |
| `app/` | The operating-system side for Linux: files, processes, D-Bus, the keyring, and the serde forms of the protocol messages. |
| `tests/` | Tests of the library on concrete values. |

Calls into outside crates (base64, ed25519-dalek, sha2, getrandom,
serde_json) stand behind small trusted wrappers whose contracts state what
those crates document; everything built on them is verified.
