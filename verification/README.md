# rvllm-runtime

The host side of a Gemma 4 inference runtime, written in Verus: request
scheduling, admission and planning of generation, cache layout, per-layer launch
plans, greedy speculative decoding, scoring, benchmarking and weight bring-up.

- `src/` decides. Every function has a contract that Verus proves. Device work
  is described as a list of `DeviceOp` values; floating-point numbers travel as
  bit patterns.
- `app/` acts. It reads the environment and files, talks to the device and
  carries the plans out. Weight loading and kernel launches come from a library
  that implements `ModelLibrary` and `OpLauncher`; without one, the hardware
  probe reports an error.
- `tests/` runs the library on concrete values.

Laws that relate several functions are the public proof functions whose names
begin with `law_`.
