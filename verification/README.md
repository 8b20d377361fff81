# rust_dos

The core of a DOS emulator, written in Rust and verified with Verus: the
processor and its memory, the drives and their files, disk images, the noises
and speeds of disks, the window's geometry and the remote debugger.

- `src/` is the library. Every item in it is verified; what it takes from other
  crates (decoding and writing instructions, PNG files, base64) stands behind
  small functions whose contracts are stated and not proved.
- `tests/` runs the library with those crates.
- `app/` is the program around it: the host's files, the debug server, the
  window and a runner for 8086 programs.
