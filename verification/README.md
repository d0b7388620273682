# iot_gateway

Logic of an industrial IoT gateway, written in Verus: the Modbus register map, the
persistent configuration and storage images, the control-word executor, the BLE
command channels, the analogue channels and the fault-recovery state machine.

- `src/` is the library. Every function states what it returns and changes, and Verus
  proves it. Laws that relate several functions are public proof functions named
  `law_..`.
- `tests/` runs the library on concrete values.
- `app/` is the firmware around it: storage, radio, network and tasks. What the board
  offers is in `app/platform.rs`; `app/esp/` offers it on an ESP32-S3.

State that several tasks share is one value, `gateway::Gateway`. A function that needs
storage, the radio or the network done returns a plan; the firmware carries it out and
hands the outcome back.

## Modules

| Module | What it holds |
| --- | --- |
| `bus` | IO points, snapshots, events, and reads and writes of the register map |
| `control_logic` | the control-word executor and its table |
| `device` | stored images: configuration, protocol store, registers, text, outputs |
| `device_config` | the table of connected devices |
| `ble_at` | text commands and the handheld's binary protocol |
| `blemesh` | the on/off model and the keys of the node |
| `channel` | analogue inputs and outputs, calibration |
| `ethernet` | supervision and settings of the wired network |
| `error` | errors, recovery and the error log |
| `bounded` | fixed-capacity collections of the `heapless` crate |
