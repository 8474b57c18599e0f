# vdev

Virtual devices: a sound card whose speaker feeds its microphone, pushers that send a screen, a
test picture or a video to a virtual camera, the tools that install them, and the windows that
control them. The library holds the decisions, formats and state of all of these, each with a
contract that Verus proves; the programs around it call the operating system.

## Layout

- `src/` is the verified library.
  - The sound card's driver: `ringbuffer`, `position`, `stream`, `wave_format`, `proposal`,
    `miniport`, `topology`, `adapter`, `stats`, and the kernel's types in `ks`, `guid`, `status`,
    `layout`, `com`, `endpoint_names`.
  - The sound card's tool: `install`, `cmdline`, `wasapi`, `wav`, `riff`, `cli`.
  - The Windows application: `desk`, `push`, `panel`, `studio`, `dsp_ui`, `audio_test`, `journal`.
  - The macOS application: `host`, `frame`, `screen`, `video`, `audio`, `spsc`, `vscreen`, `camera`.
  - Shared: `bytes`, `text`.
- `tests/` runs the library.
- `app/` is what talks to the outside: the driver's objects, the command line, the files, the
  sockets, the devices, and everything in floating point.

## How it is stated

A function's `ensures` gives its result exactly, over spec functions on sequences and integers
that stand beside it. What relates several functions is a public proof function whose name begins
with `law_`.

Where work outside alternates with decisions (installing the driver, removing a device node,
starting to push a screen), the library is a function from state and event to the next state and
what to do; `app/` does it and hands the event back.

Three functions of the standard library are trusted, all in `src/text.rs`: `String::push`,
`str::to_lowercase` and `char::from_u32`.

Samples are fractions or bit patterns in the library, never floating-point numbers.
