# cart_reader

The desktop companion of an RFID cartridge reader: tapping a cartridge on the
reader launches the PC game bound to it. This crate holds the app's logic as a
Verus library, each function proved against its `requires` / `ensures`.

- `src/serial.rs`: the firmware's line protocol, and the decisions of the
  reader probe, the tag stream and the connection watchdog (with laws over
  whole watchdog runs).
- `src/catalog.rs`: games, tag bindings and settings; availability rescans,
  store backfill, adding confirmed games, artwork file names.
- `src/commands.rs`: what each frontend command does to the catalog.
- `src/scan.rs`: exe detection and scoring, scan roots, artwork steps
  (folder art, exe icon, SteamGridDB) and PNG re-encoding.
- `src/launch.rs`: Steam manifest lookup, and which processes belong to a game
  for "is it running" and "stop it".
- `src/flash.rs`: the rules around in-app firmware flashing.
- `src/text.rs`, `src/paths.rs`: character-sequence helpers and the
  `std::path` queries the rules rest on.

`app/` is the unverified shell: files, directory walks, serial ports, HTTP,
process launching and flashing. It gathers what the machine shows and hands
it to the library's step functions. `tests/` runs the library on concrete
values.
