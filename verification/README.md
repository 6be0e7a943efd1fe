# stasis

The verified core of an idle manager, written in
[Verus](https://github.com/verus-lang/verus).

- `src/report.rs` records episodes of saved power, sums them up for a day or a
  week and renders the report. `src/accounting.rs` proves what holds of records
  and reports, such as that recorded episodes are read back.
- `src/low_power.rs` finds the GPUs whose power can be turned down, turns it
  down and restores it. `src/hardware.rs` proves that restoring puts every file
  back as it was.
- `src/manager.rs` tells how the manager's state is shown, and `src/action.rs`
  what the manager asks the daemon to do.
- `src/ipc/` is the protocol between the command line and the daemon.
  `src/ipc/exchange.rs` proves what holds of both sides together.
- `src/calendar.rs`, `src/path.rs` and `src/text.rs` hold what the others share.

The library opens no socket, and reads and writes neither the data file nor the
files of the hardware. Where such an access is due, a function returns a step
that names it, and goes on when it is told how the access went. `app/` carries
the steps out with `std`, `tokio` and `serde_json`. What the library does ask
the system for, it asks through two crates: `chrono` reads the clock and the
time zone, and `dirs` finds the user's directories.
