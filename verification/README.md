# Sori

The recording core of Sori, a local meeting recorder for macOS. It records the microphone and the
audio played by the Mac into separate, time-aligned mono WAV files below `~/Sori/recordings`.

`src/` is the library, verified with [Verus](https://github.com/verus-lang/verus). It makes the
decisions and touches neither files nor devices:

- `timeline`, `wav`: where captured audio belongs on the common timeline, and the crash-safe files
- `pcm`, `ring`, `tap`, `mic`: stream formats, mixing, and the bounded queues behind the callbacks
- `devices`, `levels`: which microphone to use, and whether it is silent
- `events`, `recorder`: the life of one recording, from opening the inputs to the finished files
- `control`, `state`, `ipc`, `json`: the core that owns the recordings, and its protocol
- `cli`: the `sori` command
- `paths`, `recordings`, `stamp`, `text`, `osstatus`: places, descriptions, times and texts

Public proof functions named `law_...` state what holds across functions.

`app/` holds the programs: device access, files, the socket and the event loops. Floating-point
arithmetic on samples is done there too; the library handles levels by their bit patterns.

`tests/` runs the library.
