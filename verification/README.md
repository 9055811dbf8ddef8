# linux-scroll-fix

Smooth mouse-wheel scrolling for Linux: a daemon captures a wheel device,
turns its detents into smooth motion and replays that motion as a two-finger
gesture on a virtual touchpad; a control tool switches profiles, direction and
the service.

## Layout

- `src/` — the verified library (Verus):
  - `settings.rs`: the discrete scroll settings (direction, curve, analyzer).
  - `frame.rs`: axes and the per-frame motion.
  - `window.rs`: the ring of recent tick intervals, with the proof that it
    always holds the most recent samples.
  - `gesture.rs`: the virtual touchpad state machine (press, move, wrap at the
    edge, release) and the driver that follows the engine's frames.
  - `device.rs`: USB-receiver grouping, sysfs virtual-device identity, name
    filters, scan bookkeeping and the safe choice of the wheel device.
  - `settle.rs`: waiting for the device choice to settle.
  - `profile.rs`: built-in profiles and status labels.
  - `text.rs`: character-level helpers.
- `app/` — the programs: configuration loading (TOML), the floating-point
  scroll engine, the evdev/uinput backend and the control tool. Installed
  under a name ending in `ctl` the binary is the control tool, otherwise the
  daemon.
- `tests/` — tests of the library.
