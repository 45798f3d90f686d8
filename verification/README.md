# ak820_ctl

Linux control library and tool for the Ajazz AK820 Pro keyboard (lighting,
sleep timer, clock, LCD screen), with its protocol logic verified by Verus.

- `src/` is the verified library:
  - `protocol`: packet layouts, lighting modes, directions, sleep times,
    RGB565 encoding and the splitting of LCD images into chunks;
  - `transaction`: the feature reports of each operation, and the interrupt
    packets of an image;
  - `usb`, `device`, `hidraw`: the decisions of the three backends (libusb,
    hidapi, Linux hidraw): interface choice, control-transfer setup, ioctl
    numbers, reading sysfs `uevent` text;
  - `lcd`: the 128x128 RGB565 framebuffer;
  - `commands`: checking the arguments of the command-line tool, the LCD test
    images, the LCD loop's failure count;
  - `gui`: the state of the control panel;
  - `stats`: choosing the temperature sensors;
  - `text`: character-level helpers (case folding, search, integer parsing,
    trimming).
- `app/` is the command-line tool and the control panel: USB, hidapi and
  hidraw I/O, system statistics, text rendering, and the egui panel (the
  `gui` command).
- `tests/` exercises the library on concrete values.
