# xfs-win-driver

Userspace tooling for XFS volumes on Windows. An image is mounted read-only and
every change is staged in an in-memory overlay; the image itself is never
touched. On dismount the staged changes are discarded or written to a JSON
sidecar. A rebuild into a new image can be asked for too, but `app/` refuses it:
it builds no images.

- `src/` is the library, verified with Verus:
  - `path`, `path_laws`: canonical keys for paths in any spelling;
  - `entry`, `store`, `overlay`: the staged changes;
  - `overlay_laws`, `listing_laws`, `volume_laws`: what holds across operations,
    and what a reader of the mounted volume sees;
  - `collate`: the order of keys;
  - `probe`: the test for an XFS superblock;
  - `options`, `report`: the choices and the text of the command line;
  - `clock`, `text`: the wall clock, and building strings.
- `app/` is the command line around it: argument handling, reading images
  through `am-fs-xfs`, and the hooks for the Windows service.
- `tests/` runs the library.

Every path argument is normalised first: both slashes separate, empty and `.`
segments are dropped, `..` takes back the name before it and stops at the root.
The overlay answers a lookup with a hit, a tombstone or a miss, and only a miss
goes on to the image.

An `Overlay` changes through `&mut self`. Share one between threads inside a
`RwLock`, as `app/mount.rs` does.
