# nanokvm

A client for a USB KVM dongle on Linux: it finds the video, serial and audio nodes that belong to
one dongle, turns the device's JPEG frames into pictures, plays the target's sound, takes
screenshots and delivers keyboard scripts.

The library in `src/` is written in Verus. It holds what the client decides: every function has a
contract, and Verus proves it. It opens nothing and starts no thread. A call hands in what happened
(a frame, a timeout, the text of an attribute, the time) and gets back what to do next.

| Module | What it decides |
| --- | --- |
| `discovery` | which nodes form a pair and on what evidence, what a listing says, where a device is after a reconnect |
| `capture` | the size and the layout in a JPEG's headers, decoding, the handoff between threads, reopening and restarting a stream |
| `audio` | the ring between two clocks and its drift, what an ALSA device is asked for, when to open again |
| `cli` | which frame becomes a screenshot and where it goes, how a keyboard script is delivered, what is printed |
| `path`, `names`, `text`, `clock`, `count`, `errno` | paths by components, names in order, numerals and durations as text, time, counters, error numbers |

Laws that relate several functions stand beside them as public proof functions whose names say what
they state, such as `every_pair_rests_on_evidence` or `whatever_was_sent_is_released`.

What is not proved is declared where it is used: the calls into `zune-jpeg` and `png`, the constants
of `libc`, and two functions of the standard library.

`app/` is ordinary Rust around the library: threads, V4L2 and ALSA devices, files, signals and the
command line. `tests/` runs the library on concrete values.
