# omarchy_hotspot

Share a computer's internet over Wi-Fi on Omarchy (NetworkManager's shared mode), with a
firewall set by a small root helper, device approval, and a block list.

- `src/` is the library, verified with Verus. The parsers, validators, access lists, channel
  choice, settings logic and the background service's decisions have contracts over
  mathematical models (`Seq`, `Set`, integers), and the library's laws are proof functions
  (round trips of addresses, MACs and terse `nmcli` fields, the bounds the background
  service keeps, what a change of the access lists does twice, what the settings draft
  merges, and more).
  NetworkManager, the system probes and the root helper are traits (`NetworkBackend`,
  `SystemProbe`, `HelperRunner`) that carry no contracts. The hotspot's methods that drive
  them (`start`, `stop`, `reset`, `access::apply`) return, beside their result, a report of
  what the systems answered and what was sent to the helper, and their contracts state the
  result and the requests as functions of those answers. Every decision is also a public
  step function with an exact contract (`start_gate`, `start_checks`, `start_verdict`,
  `stop_step`, `apply_outcome`, `reset_verdict`, `access_plan`, `plan_failure`, …).
- `tests/` runs the library on concrete values, with mock implementations of those traits.
- `app/` is the command line `omarchy-hotspot`: it runs `nmcli`, `iw`, `ip`, `pkexec` and
  NetworkManager's D-Bus interface, reads and writes the settings file, and hands plain
  values to the library.

Not part of this crate: the terminal window (with its size rule for Hyprland and the
autostart switch it offers), the background service itself and the `daemon` and `open`
subcommands, and the translations: messages are in English only. The command line starts an
installed service for device approval and stops it with the hotspot.

Outside crates called by the library: `qrcode` (the QR modules), `rand` (the system's random
source for passwords), `zeroize` (wiping a password when it is dropped) and `serde_json`
(reading the JSON that `ip -j` prints), each behind small trusted functions whose contracts
are their `ensures` clauses, explained in their doc comments.
