# mousee

The verified core of a server that lets a phone drive the mouse of a computer,
written in Rust and proved with Verus.

- `src/` is the library. `tls` keeps a stable local certificate authority and
  issues server certificates from it, `issue` and `pem` hold the calls into
  `rcgen`, `rustls_pemfile` and `rustls`, `cache` is the directory of
  certificates as it is held in memory, `address` and `text` say how it is
  written and read. `autostart` is the command that Windows runs at sign-in and
  the dialogue about it. `protocol`, `processor`, `layout` and `throttle` turn
  the messages of a phone into commands for the mouse.
- `app/` is what surrounds it: the disk, the registry, the wire format, and the
  floating-point arithmetic on orientations.
- `tests/` runs the library.
