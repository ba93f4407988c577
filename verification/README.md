# lightguide

Lighting output for MIDI visualizers, with its decisions verified by Verus.

- `src/` is the verified library: the Komplete Kontrol S-series MK2 protocol
  (key frames, HID reports, device matching, the order in which models are
  opened), hot-plug transitions, the palette-index parser of the test harness,
  and the player's side: turning note events into key lights, the menu's page
  history and port selection, and per-track playback configuration.
- Drivers implement `Driver`, which keeps a record of the commands it was
  given; a `CommandLog` holds a driver with the history of what it was sent,
  and the lighting functions state that history exactly.
- `app/` is the hardware test harness (`main.rs`) and the HID glue around the
  library: opening devices and writing the reports the library builds, the
  process-wide device enumeration, and the hot-plug polling thread.
- `tests/` runs the library on concrete values.
