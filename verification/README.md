# apple_drivers

Drivers for the devices of Apple silicon machines: IOMMUs, clocks, pins, I2C and PCI Express,
DMA controllers, the Type-C PHYs, the display coprocessors, audio, fuses and processor speeds.

The library under `src/` decides and never touches a device. A driver turns a request into

* register programs (`sequence::Step`), which `sequence::Sequencer` plays as single accesses;
* codec programs (`codec`), bus transfers (`i2c`) and playback plans (`mca_path`), played alike;
* messages and images of memory for a coprocessor (`sio`, `iomfb`, `dcp_iboot`, `wire`);
* state machines that ask for one thing at a time and take back what came of it (`iomfb`,
  `dcp_probe`, `dcpext_probe`, `dpaudio`).

Each of these is stated as a function on mathematical values, and the code is proved to compute it.
What spans several calls is stated by the proof functions whose names begin with `law_`.

`app/` is what surrounds the library: it reads the device tree, accesses registers and memory and
performs what the library asks for, on top of a `Machine` that the kernel provides.

The tests under `tests/` run the library on concrete devices.
