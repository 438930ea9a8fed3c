# thalamic-relay

Typed hardware telemetry and deterministic safety for a GPU relay, verified with
Verus.

Raw readings become frames whose samples carry provenance, validity and
freshness. A safety machine classifies each frame, keeps the brake on until a
streak of healthy real frames, and fails closed on anything missing, invalid or
stale. A mapping of the frame goes to a bounded queue that never makes the
safety path wait.

| Path | What it holds |
| --- | --- |
| `src/` | the verified library |
| `src/*/laws.rs` | what holds of each module as a whole, as proof functions |
| `tests/` | its tests |
| `app/` | the executable: NVML, `nvidia-smi`, UDP, metrics, the supervisor loop |

Engineering values are IEEE 754 single-precision bit patterns
(`binary32::Binary32`), and their arithmetic is proved to be the exact result
rounded to nearest, ties to even. Reading and writing decimal text of such values
is the caller's: functions that need it take a reader or a writer.

What is trusted rather than proved: `String::push`, the debug quoting of a string
(`text.rs`), and the wall clock (`time.rs`).
