# randomprime

Binary reading and writing for Metroid Prime game data, and the decisions of
the randomprime patcher that do not need the game files themselves, written
in Verus: every function of the library states its behaviour in
`requires`/`ensures` and Verus proves it.

## Layout

- `src/` is the verified library.
  - Reading and writing: `endian`, `reader`, `writer`, `primitive_types`
    (integers, FourCC, C strings), `padding`, the array kinds (`array`,
    `lazy_array`, `iterator_array`, `dap`), `uncached`, `utf16_string`, `cow`.
  - Textures: `txtr` (block codecs and palettes), `txtr_image` (whole images
    and mipmaps), `txtr_file` (the TXTR file format).
  - Executables and discs: `binary_patcher`, `dol_patcher`, `gcz` and `ciso`
    (compressed disc images), `banner`.
  - Game data and settings: `world`, `elevators`, `pickup_meta`,
    `starting_items`, `patch_config`, `artifact_temple`, `resource_info`,
    `resource_data`, `extern_assets`, `patcher_state`, `text`.
  - Calls into outside crates (byteorder, flate2, adler32, encoding, rand)
    sit behind small trusted wrappers whose contracts say what those crates
    do; everything around them is proved.
- `tests/` runs the library on concrete values.
- `app/` is the command line: reading and writing files, PNG images,
  profile JSON and arguments, handing plain values to the library.
