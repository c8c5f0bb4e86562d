# kitchen_companion

Firmware for an M5Stack CoreS3 that is talked to by touch: it records while the
display is touched, sends the recording to a relay server as a WAV file and plays
the spoken reply.

The library under `src/` holds the logic and is verified with Verus; `app/` drives
the peripherals around it.

| module | what it holds |
|---|---|
| `bytes` | integers and samples as bytes |
| `wav` | the header of a recording |
| `audio` | channels, levels, the beep |
| `text` | decimal numbers |
| `screen` | what is drawn |
| `board` | register writes for the chips on the I2C bus |
| `network` | settings and attempts to join the wireless network |
| `relay` | the exchange with the relay server |
| `companion` | the push-to-talk state machine |
| `turns` | what holds of the push-to-talk loop as a whole |

No item of the library is trusted: every function is proved, from the
specifications of the standard library that come with Verus alone.
