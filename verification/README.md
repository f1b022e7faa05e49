# touchhle

The verified core of an emulator that runs iPhone OS apps: the guest's
memory, the C library routines it offers to guest code, and the object
logic behind the Core Foundation, Core Graphics, UIKit and Audio Toolbox
functions, each with a contract proved by Verus.

- `src/mem.rs`: guest memory with an allocator that hands out blocks from
  the heap top and takes the highest one back when it is freed, and what
  reading and writing memory means.
- `src/environment.rs`: everything a guest-callable routine works on, and
  its invariant (mappings and locale strings are live blocks).
- `src/libc/`: `string.h`, atomics and spin locks, Mach thread queries,
  signals, `iconv`, locales, `mmap`, and CommonCrypto (whose digests,
  HMAC, PBKDF2 and AES come from the RustCrypto crates, behind trusted
  wrappers).
- `src/objc.rs`: the object store, with retain, release and deallocation.
- `src/frameworks/`: strings, arrays, dictionaries, bundles, run loops,
  sockets, time zones and the calendar, colors, contexts, images, paths, action sheets,
  navigation bars and system sounds over the object store.
- `app/`: the host side: floating-point graphics and time, reading mapped
  files and `Info.plist` files, and calls that only log.
- `tests/`: tests of the library on concrete values.
