# strat_engine

The decision logic of a block storage engine that manages pools, verified with
[Verus](https://github.com/verus-lang/verus).

The engine keeps a table of the pools that are set up, the devices of the pools
that could not be set up yet, and the last event number that was handled of each
watched device. It never touches a device itself. An operation that needs work
on devices stops and says what is to be done; the result is handed back, and the
operation goes on.

## Layout

- `src/` is the verified library.
  - `engine` holds the engine and the operations on pools.
  - `startup` brings the engine up, `setup` sets a single pool up.
  - `events` decides which device events are due to which pool.
  - `cmd` finds the external programs, builds their command lines, and judges
    how they went.
  - `table` and `assoc` are the collections, `types`, `errors`, `text` and
    `uuids` the plain values.
  - `laws` states what holds across operations: `laws::pools` that no two pools
    ever have the same name, that failed work leaves all names and UUIDs as they
    were, and that destroying a pool undoes its creation; `laws::evaluation` and
    `laws::events` what a whole evaluation of a device and a whole round of
    events come to; `laws::startup` that no pool and no device is lost, and that
    the pools of an engine that was shut down come back; `laws::setup` and
    `laws::programs` how a pool is set up and where a program is found.
- `tests/` runs the library on concrete values.
- `app/` does the work that the library asks for: it runs programs, talks to the
  device mapper, and leaves block devices and links to a `Backend`.

## What is trusted

Two functions are believed without proof: `text::from_utf8_lossy`, which calls
the standard library, and `uuids::uuid_to_string`, which calls the `uuid` crate.
