# UniFi UPS Monitor

A service that connects to the NUT endpoint of a UniFi UPS and shuts the local host
down when the battery runtime or charge falls to a configured threshold, or when the
endpoint has not answered for too long. It also reminds of the age of the battery and
passes on the UPS's own request for a new one.

The decisions are a library that is verified with [Verus](https://github.com/verus-lang/verus).
The files, sockets and programs are ordinary Rust around it.

## Layout

- `src/`: the library. It does no I/O except for one reading of the system clock. Its
  modules say what to do next, take what came of it, and say what to do then.
  - `text`, `split`: numerals, separators, whitespace.
  - `calendar`: days of the Gregorian calendar and their numbers; `today`.
  - `percentage`: the order of floating-point percentages, on their bits.
  - `config`: the configuration and its defaults.
  - `nut`: lines of the NUT protocol, and the snapshot that they make up.
  - `client`, `query`: the steps of a connection, and of a query on it.
  - `timer`: how long the server has not answered.
  - `policy`: when a snapshot is reason to shut down.
  - `battery`, `lifecycle`: when a battery is due, who is told, and what holds of the
    notifications over all of its life.
  - `command`, `mail`: commands that are run, and mails that are handed over.
  - `monitor`: what follows from each query, and the steps of a shutdown.
- `app/`: the service.
- `tests/`: tests of the library.
- `extras/config.example.toml`: an example configuration.

## Behaviour

- By default the thresholds count only while `ups.status` holds `OB`.
- The loss of communication is timed from the first failed connection, login or query
  on a monotonic clock. Only a complete status query that can be read clears the timer.
  The limit is 300 seconds unless configured; `0` switches it off.
- Before a shutdown a mail is sent to `root` where `/root/.forward` exists, and its
  delivery is waited for. A mail that fails is logged and stops nothing.
- The day of the first start is kept as the day on which the battery was put in. Once its
  service life of 1,095 days (configurable) is over, the first successful query of each
  UTC day sends a reminder.
- `RB` in the status sends one alert as long as it stays there, and another one when it
  comes back, independently of the reminder: also where the age of the battery cannot be
  told.
- `unifi-ups-monitor battery-reset CONFIG` begins the life of a new battery.

## What is taken on trust

Two functions of the standard library are described rather than verified:
`String::push` in `src/text.rs`, and the reading of the system clock in
`src/calendar.rs`.
