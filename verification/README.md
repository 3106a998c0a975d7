# utmvm

A library for creating and managing UTM virtual machines on macOS, verified with Verus.

- `src/` is the verified library: the AppleScript that creates a VM, the `PlistBuddy`
  commands that edit a VM's `config.plist` and the decisions taken between them, the
  parsing of `utmctl list`, VM statuses, MAC addresses, paths of VM bundles, and what
  becomes of each tool's output. Every function carries a contract proved by Verus;
  the laws (balanced and properly nested braces in the creation script, which fields
  the creation script holds and which it cannot hold, builder settings commuting, MAC
  text read back, the CD-ROM scan finding the first CD entry before any unreadable one, a new
  port forward going into the first free slot, …) are proof functions.
- `app/` runs the tools (`utmctl`, `osascript`, `PlistBuddy`, `plutil`, `qemu-img`,
  `open`) with tokio, waits, and copies files, following the library's decisions. A
  fresh MAC for a clone is drawn in the library, from the operating system's random
  source.
- `tests/` exercise the library, including comparisons with std's own string and path
  functions.
