# rfpm

Build `.deb`, `.rpm` and Arch Linux `.pkg.tar.zst` packages from a
`Package` value: metadata, files, directories, symlinks and lifecycle
scripts.

The library under `src/` is verified with Verus. Every writer is specified
over plain models of its output:

- `src/lib.rs`: `Package`, its entries and options, the builders
  (`add_file`, `add_config`, ...) and the conventional file names.
- `src/relation.rs`: parsing and rendering of dependency strings, with the
  round-trip laws of the pacman form.
- `src/distro/deb.rs`, `src/distro/arch.rs`, `src/distro/rpmpkg.rs`: the
  three package formats. The deb and pacman writers are specified down to
  the bytes of every control file and archive header; the rpm writer
  describes the package as plain values (`RpmSpec`) and hands them to the
  `rpm` crate.
- `src/archive.rs`, `src/codec.rs`, `src/rpmbuild.rs`, `src/stdio.rs`: the
  calls into `tar`, `ar`, `flate2`, `liblzma`, `zstd`, `md5`, `sha2`, `rpm`
  and `std`, each with the contract that the crate's source supports.
- `src/text.rs`, `src/fields.rs`: text helpers and the ordered map of
  custom `control` fields.

`app/` holds what is I/O: content read from files and seekable readers,
packages written to any `std::io::Write`, and error types with `Display`.
