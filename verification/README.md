# rmd

Mounts a reMarkable tablet as a file system over SFTP for as long as it is connected by USB.

- `src/` is the library, verified with Verus. It decides; it does no input or output.
  - `ident`: the IDs of the tablet's assets, and the inode numbers made from them
  - `fuse_provider`: the file system's operations
    - `tablet`: the assets, as the tablet's metadata files describe them
    - `detect`: finding the metadata files and the document file beside each
    - `listing`: the contents of a directory, as they are sent
    - `fh`, `fh_store`: open files
    - `laws`: what holds of the file system as a whole
  - `net_listener`: which of the kernel's messages tell that the tablet comes or goes
  - `monitor`: whether the file system is mounted
- `app/` is the program around it: the SSH session, the netlink socket, the mount.
- `tests/` runs the library on given values.

An operation that needs the tablet comes in two halves. The first says what is to be done, the
program does it, and the second takes what came of it and answers.
