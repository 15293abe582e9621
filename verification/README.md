# modbus_bench

A Modbus RTU / Modbus TCP test bench for ESP32 boards, with its core proved
correct by Verus.

- `src/` — the verified library: CRC-16, register maps, the RTU slave's
  request handling, master-side frame building and checking, Modbus TCP
  framing and the PDU dispatcher, the in-memory device emulator, port
  discovery decisions, the front end's state machine (keys, mouse, forms,
  events, logs) and the content of every view it draws (styled lines,
  scrolling windows), the flash tool's command lines and output parsing,
  and a few small
  text, collection and directory utilities. Every public function states
  what it returns in its contract; laws that span several functions are
  public proof functions (`lemma_*`).
- `tests/` — tests on concrete values.
- `app/` — the program around the library: serial ports and TCP sockets,
  the RTU bench slave (`bench`), the terminal front end (ratatui and
  crossterm: layout, colours, the event loop), the flash tool subprocesses,
  and the floating-point side of the emulator.

Floating-point values (sensor readings, form numbers) are held by the
library as their IEEE-754 bit patterns.
