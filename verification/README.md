# mod_manager

A manager for Undertale mods, and its installer, with their rules proved in
Verus.

- `src/` is the verified library: where a mod's files live (`files`,
  `modifications`), which dropped files name an executable, the manager's
  state and its steps (`manager`: selection, deletion queue, added programs,
  icons, renaming), the installer's settings and decisions (`installer`), and
  the reading of a release description and the byte count of a download
  (`http`). Path text is read by `std::path` behind the wrappers of `paths`,
  which state what holds on every platform.
- `app/` is the window (egui), the file system, the network and the
  shortcut files. It holds no rule of its own; it performs what the library
  decides. Run with `--installer` it shows the installer.
- `tests/` exercises the library on concrete values.
