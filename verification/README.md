# three_rs

The GPU-free core of a WebGPU scene renderer, written in Verus: the
functions in `src/` state what they return or change in contracts that
Verus proves (a few small accessors and the trusted wrappers aside), and
the laws that span several calls stand there as public proof functions.

- `src/` is the verified library. What it decides (which objects a frame
  draws and in which order, what a texture or render target needs on the
  GPU, how a batched mesh packs its geometries, which pass clears what, how
  supersampling weighs its samples, how a film strip is composed) is stated
  over plain values. Calls into `wgpu`, `bytemuck` and `png` that compute
  on such values go through a few trusted wrappers, each with a doc comment saying
  what it is trusted to do.
- `tests/` runs the library with the real outside crates linked.
- `app/` is the unverified edge: conversions to and from `wgpu`'s own types,
  the floating-point sides of textures, render targets and batched meshes,
  writing files, reading the environment and enumerating adapters.
