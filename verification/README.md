# desk-core

Control logic for a LINAK Bluetooth standing desk (the "Desk XXXX" series),
written in Verus and proved against its contracts.

- `src/` is the verified library: the wire protocol (`protocol`), the height
  and speed readings fed by notifications (`readings`), the host-facing states
  and the screen they derive (`reporter`), address parsing and matching
  (`address`), discovery and the connect state machine (`connection`), the
  press-and-hold and coast-compensated moves (`motion`), moves to a preset
  height (`preset`) and download-progress throttling (`progress`).
- `app/` is the `desk-cli` program around it: the Bluetooth I/O (btleplug),
  the async runtime (tokio), the floating-point height conversions and coast
  factor, and the command line (clap).
- `tests/` exercises the library on concrete values.
