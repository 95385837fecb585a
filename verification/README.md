# yarp

The verified core of a graphical Arch Linux installer.

- `src/` is the library, verified with Verus: the partition layout
  arithmetic (`install::logic`, `installer`), device paths and the command
  plans that partition, format, mount and unmount the target device
  (`install::partitions`, `installer`), package list handling
  (`install`), the settings checks (`validation`), and the text helpers they
  rest on (`text`, `command`).
- `app/` is the program around it: the GTK window, reading the block devices
  with `lsblk`, reading the package bundle files, and running the planned
  commands.
- `tests/` runs the library on concrete inputs.
