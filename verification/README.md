# bevy_openusd

Physics, transforms and viewing decisions for OpenUSD scenes, written in Rust
and proved with Verus.

A scene is captured once from the stage that `openusd` composed, or authored
from scratch. Everything else works on that record: the UsdPhysics schemas are
authored and read back, stacks of transform operations are taken apart, the
entries of a `rapier3d-f64` world are planned and inserted, and a viewer is told
what to open, reload, animate and draw.

## Layout

- `src/` is the library. Every function carries its contract, and what relates
  several functions is stated as a public proof function next to them.
  - `ieee`, `text`, `path`, `value`: numbers held as bits, strings, scene paths
    and field values.
  - `stage`, `stage_laws`, `capture`, `attributes`: the scene and its record.
  - `tokens`, `physics`: the UsdPhysics schemas.
  - `xform`, `xform_laws`: transforms.
  - `rapier`: bodies, colliders, joints, collision groups and the world.
  - `viewer`: files, session, camera, clock, animation, overlays and reports.
- `tests/` runs the library on concrete values, with the real outside crates.
- `app/` is a program around the library: arguments, files, floating-point
  arithmetic and the simulation loop.

Floating-point numbers are only stored, narrowed and compared in the library.
Arithmetic on them happens in `app/`.

Calls into `openusd`, `rapier3d-f64` and the standard library stand behind small
functions marked `external_body`; the comment above each says what is claimed of
the call.
