# kde_fan_control

Fan control for Linux desktops: per-fan, temperature-target PID policies on
top of the kernel's hwmon sysfs interface, with a staged draft/apply
configuration lifecycle and fail-safe fallback to full speed.

The decision logic is a library verified with Verus. A command-line program
drives it directly against the machine's sysfs tree and state files, with no
background service: it lists the hardware, edits and validates the draft,
applies it and takes over the enrolled fans, reconciles after boot, shows
the configuration, degraded fans, events and runtime state, runs a bounded
auto-tune, runs the PID control loops in the foreground (`run`, for a given
time or until killed; a run that ends drives every owned fan to full speed),
and drives every owned fan to full speed on demand (`fallback`). It has no
D-Bus interface and no panic hook; a killed `run` leaves the fans at their
last written speed.

## Layout

- `src/` — the verified library.
  - `inventory`, `discovery` — the hardware model and the parsing of what
    hwmon nodes report.
  - `config`, `validation` — the draft and applied configurations, draft
    validation and promotion.
  - `lifecycle` — boot reconciliation, owned-fan tracking, degraded state,
    the lifecycle event log, runtime status and fallback records.
  - `service` — decisions around a client request or a control pass: apply
    bookkeeping, recovery of degraded fans, sensor sampling paths, control
    plans, the control-loop step, auto-tune checks, profile edits and the
    panic-time PWM mirror.
  - `overview`, `presentation`, `report` — the rows, labels and text reports
    shown to clients.
  - `strmap`, `text`, `fbits` — an insertion-ordered string map, string
    helpers and the bit-level view of floating-point settings.
- `tests/` — tests of the library on concrete values.
- `app/` — the command-line front end: argument parsing, sysfs reads and
  writes, file persistence, JSON output, the timers of the control loop, and
  the floating-point PID and auto-tune arithmetic.

Every public library function states its result in its `ensures` clause;
properties that relate several operations are stated and proved as `law_*`
proof functions.
