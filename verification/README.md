# leyline

The verified core of a terminal emulator for Wayland.

`src/` holds what the emulator decides and computes: how input is encoded, how output is followed,
what is selected, searched, copied and pasted, how tabs and bells behave, how the configuration and
the command line are read, and what a frame is made of. Each function states what it gives, and
Verus proves it. Where that depends on the clock, on the allocator, on other threads or on an engine
outside, the function states what holds either way, and another one takes what came back and is exact
for each value of it. Properties that span several functions stand beside them as public proof
functions.

`app/` is the program around it: arguments, files, processes, signals, threads, the message bus, the
engine that parses what the terminal is sent, and the geometry of the scrollbar, which is in
fractions of pixels. It hands plain values to the library and does what the library decides.

`tests/` runs the library, with the engine and the other outside crates linked.

## Layout

| Module | What it holds |
| --- | --- |
| `app` | events, the inbox, the lifecycle |
| `terminal` | input encoding, keyboard protocols, working directories, snapshots, search, the state around the engine |
| `session`, `tab`, `session_pump` | one child with its terminal; the tabs of a window |
| `search`, `overlay` | the search dialog and what it marks |
| `selection`, `clipboard` | offers, transfers, what may be pasted |
| `bell`, `sound`, `notification` | what a bell does, and how often |
| `config`, `cli`, `terminfo`, `run` | how the program is set up, started and ended |
| `frame_composer`, `layout`, `presentation`, `unicode_layout` | what a frame is made of |
| `interaction`, `input`, `keys` | clicks, links, the scrollbar, composed text, shortcuts |
| `security`, `diagnostics`, `desktop`, `signal`, `logging`, `perf`, `memory` | limits, reports, counters |
| `text`, `time` | texts, numbers and instants |

Numbers that need not be whole are held as the bits of their binary representation: see
`config::Number`.

A function whose body Verus does not read calls one function of an outside crate or of the standard
library. Its comment says what is claimed of that function.
