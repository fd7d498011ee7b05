# eft_trainer

The verified part of an internal trainer for an offline, single-player fork of
Tarkov, written in Verus.

- `src/` is the library: the rules, layouts, lookups, searches, state machines
  and answers of the trainer, with contracts that Verus proves. It does no I/O
  and calls neither the engine nor the system. Memory is read through
  `memory::Memory`, a table of readable byte ranges, so no read can fault; stores
  come back as values (`runtime::Store`).
- `app/` is the injected library around it: Win32 calls, the exports of the
  scripting runtime, the detour, sockets and files, the loops that carry out what
  the library asks for, and what needs floating point: where the window lies on
  the screen and what the pointer hits there, distances, the frame rate, and
  floats as text. It builds on Windows.
- `tests/` run the library on synthetic memory.

## How the parts fit together

| module | what it decides |
| --- | --- |
| `memory`, `il2cpp` | what is readable, and what text, headers and patterns are found there |
| `il2cpp_abi` | where the runtime's metadata structures have their fields |
| `il2cpp_runtime`, `symbols`, `runtime` | lookups by name, and reads of managed objects |
| `menu`, `input`, `console` | layout, clicks, redraws, input capture, the log that is shown |
| `chams`, `world`, `features` | which renderers are touched and given back, the raid snapshot, the toggles |
| `http` | requests, queries and the answer of every endpoint |
| `session`, `hooks`, `crash`, `control` | the order of loading and unloading, and what a fault logs |
| `mono`, `mono_runtime` | the lookups of the other scripting backend |
| `text`, `search` | strings and numbers; counting and choosing candidates |

Floats cross the library as their bits, or as texts that were already made;
addresses and offsets are 64-bit numbers; times are nanoseconds.

Facts that span several functions are the public proof functions named `law_*`.
