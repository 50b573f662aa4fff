# nanogame3d

The verified core of a small Quake-2-style 3D engine, written in Verus.

`src/` is the library. Its functions carry contracts that Verus proves,
with one exception: the few functions that call into another crate or into
a part of the standard library that Verus has no specification for are
marked `#[verifier::external_body]`, and their contracts are assumed, not
proved. Those are the little-endian reads (`le_bytes`, `byteorder`), UTF-8
decoding (`text`), the entity-pair regex (`bsp/entities`, `regex`), shell-style
word splitting (`ccmd_system`, `shellwords`), QOI decoding and the weak
handles of the resource cache (`asset_loader`, `qoi`, `std::sync`), the
skyline packer (`packing`, `rect_packer`) and TOML reading
(`graphics/shader`, `toml`). Each states in its doc comment what is taken on
trust. The library's parts:

- `bsp/bspfile` reads IBSP version 38 map files (with the BSPX extension
  lumps) from bytes, lump by lump, and decodes cluster visibility.
- `bsp/entities` splits the entity lump into entities and reads their
  `"key" "value"` properties.
- `bsp/faces`, `bsp/visibility`, `bsp/lightmap`, `bsp/lightgrid` and
  `bsp/textures` hold the integer side of rendering the map: face outlines and
  triangle fans, per-frame visible faces, the lightmap atlas layout, light
  probe lookup, and material selection.
- `parse_utils` parses entity property values; `cvar` holds console
  variables; `consolewin` and `ccmd_system` hold the console's state and
  command language.
- `asset_loader` caches shared resources by path and decodes QOI textures;
  `graphics` tracks GPU objects and derives the OpenGL state of materials.
- `packing` and `ui` place glyphs and lightmaps without overlap and cut
  nine-slice rectangles.

`app/` is a command-line front end: it reads a map file, reports what the
library reads from it, and runs console commands from standard input.
Floating-point work (texture-coordinate extents) is done there.

`tests/` exercises the library on concrete inputs.
