# lamparray

A driver for **HID LampArray** keyboard lighting (HID usage page `0x59`, the
standard behind "Dynamic Lighting"), whose logic is verified with Verus.

- `src/` is the verified library:
  - `rgb`: colours, `RRGGBB` parsing, brightness scaling;
  - `wire`, `hid`: the byte layouts of the LampArray feature reports;
  - `ioctl`: the `HIDIOCSFEATURE` / `HIDIOCGFEATURE` request numbers and buffers;
  - `descriptor`: recognising a LampArray device from its report descriptor
    (parsed with `hidparser`, after a check that no report it describes lays
    out more than `u32::MAX` bits, where the parser's arithmetic would
    overflow) and its `uevent` text;
  - `device`: what discovery returns, the steps of opening a device, and the
    state and requests of an open one;
  - `ui`: the modes and controls of the lighting panel;
  - `text`: whitespace trimming, splitting, line and hex-number parsing.
- `app/` is the `lampctl` program around it: sysfs discovery, the device file and
  its `ioctl`s, the HSV colour model, the ratatui panel and the command line.
