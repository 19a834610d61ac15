# gfoc

Verified core of a small BLDC motor controller and of the host tool that
drives it over a serial line.

`src/` is checked by Verus:

- `cobs` – byte stuffing and framing of the serial link, with the proof that
  unstuffing undoes stuffing.
- `protocol` – the host/controller messages, their wire layout, and
  `encode_frame` / `decode_frame` with the proof that a frame decodes to the
  message it was made from.
- `link` – host side: connection status and its text, response reassembly
  from the byte stream, and the decisions of the link worker.
- `gui` – state and decisions of the operator interface.
- `comm` – controller side: assembling command frames from UART chunks.
- `control` – hall-sensor sectors and the six-step commutation tables.
- `trap` – decisions of the six-step and field-oriented control loops.
- `estimator` – when angle readings are integrated and how far they are
  extrapolated.
- `text` – decimal formatting and parsing of `u32`.

`app/` holds the programs around it: the `iced` operator interface (host)
and the `embassy` firmware (bare-metal target only). Timers, I/O, drawing
and all floating-point arithmetic live there.
