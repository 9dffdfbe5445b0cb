# lulu-serial-port

Serial ports with MQTT logging for automated testing, with the logic proved
in Verus.

- `src/` is the verified library: serial URIs (`uri`, with the round-trip
  laws in `uri_laws` and the error and last-pair-wins laws in
  `parse_laws`), the decisions of a managed port (`manager`), MQTT topics,
  client IDs and reconnect back-off (`mqtt`), the port listing (`listing`),
  serial ports as plain values (`ports`) and a character toolkit (`text`).
- `app/` is the runtime around it: the `serial-port-list` program, the scan
  of the system's ports (serialport), the tokio serial-port manager, the
  rumqttc client, and error types with `Display`.
- `tests/` runs the library on concrete values.
