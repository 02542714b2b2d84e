# rtlsdr-next

A driver for software-defined radios with an RTL2832U, and the servers that share one
receiver: rtl_tcp, a WebSDR for browsers, and a Unix domain socket.

What the driver decides and computes is verified with Verus. A contract says, for every
frequency, gain, rate or message, which transfers go to the hardware, in which order, and
what comes back, whatever the hardware answers.

## Layout

- `src/` is the verified library.
  - `device` and `transfer`: elementary transfers and how they are laid out on USB; the
    I2C bridge, GPIO pins and tuner detection.
  - `demod`: the demodulator of the RTL2832U.
  - `tuner` and `tuners`: what tuner chips have in common, and the chips themselves
    (R820T and R828D, E4000, FC0012 and FC0013); what the RTL-SDR Blog V4 adds.
  - `driver`: the receiver as a whole.
  - `converter`, `dsp`, `stream`: samples, and how they flow.
  - `config`, `cli`, `daemon`, `server`, `rtl_tcp`, `websdr`: the daemon and its servers.
- `tests/` runs the library, on boards that record what is done to them.
- `app/` holds the programs: USB, sockets, files, and floating-point signal processing.

The library holds no floating-point numbers: a gain is a number of tenths of a decibel
beside the bits of the level, and a sample is a level in units of 1/255.
