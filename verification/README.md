# drm1000_gui

Controller for the CML Micro DRM1000 broadcast receiver module, with its
protocol logic verified by Verus.

- `src/` is the verified library:
  - `protocol` — requests, the reassembly of response frames from the UART
    byte stream (`FrameDecoder`), and the parsers of the status, station-list
    and broadcast-text payloads. Floating-point fields of the status packet
    are kept as their IEEE-754 bit patterns.
  - `serial` — the controller's snapshot of the receiver and the state
    changes caused by received frames, sent requests and connection events.
  - `cli` — number parsing and the validated requests of the command line.
  - `display` — the choices the desktop window makes from the snapshot.
  - `text` — UTF-8 decoding, trimming and message formats used above.
- `app/` is the program: serial I/O with `tokio-serial`, the `eframe`
  window, the `clap` command line, and the handling of frequencies given in
  Hz, kHz or MHz.
- `tests/` exercises the library on concrete values.
