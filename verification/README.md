# xsensor

The logic of XSensor, a desktop monitor for BLE sensor devices, as a library
verified with Verus, and the application around it.

- `src/` — the verified library:
  - `api/` — the data models of devices, services and characteristics; the
    device list and its stable sort; UUID texts (through the `uuid` crate);
    the registry of known and connected peripherals; characteristic lookup;
    the retry protocol of reads, writes and subscriptions; the replies of the
    BLE worker.
  - `context.rs` — the colour theme.
  - `views/` — what the pages decide: refresh-frequency bytes, sensor samples,
    battery level, interrupt counting, threshold encoding and the parameter
    form, automatic connection and the device list's texts.
  - `text.rs` — string helpers, and `i32` parsing and formatting.
- `tests/` — tests of the library on concrete values.
- `app/` — the application: btleplug I/O, the Dioxus user interface and the
  chart drawing (floating point).
