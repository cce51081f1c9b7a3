# open-oswst

Voice over LoRa with repeaters: a handset that streams speech, coded with Codec2,
in packets of 160 ms, and plays what it hears. The logic of the firmware is a
library verified with Verus; the firmware proper drives the hardware around it.

## Layout

- `src/` is the library.
  - `app` follows transmissions, orders packets and decides what is played, relayed
    or drawn; `laws` states what holds of whole conversations.
  - `packet` reads and writes packets, `codec` runs the speech codec, `transmission`
    is the sending side, `radio` is the listen-before-talk state machine.
  - `menu`, `screens` and `text` are the user interface.
  - `devices` holds what the encoder knob, microphone, screen and speaker compute.
  - `bringup` holds what the board tests compute.
- `tests/` runs the library.
- `app/` is the firmware for a Heltec WiFi LoRa 32 V4: pins, buses, channels and
  threads. `OSWST_PROGRAM`, set when it is built, picks one of the board tests
  (`audio_test`, `codec2_loopback`, `encoder_test`, `hello_world`, `mic_test`,
  `raw_loopback`) in place of the handset.

## Trust

The codec (`codec2`) and the packet buffers (`heapless`) are called through small
functions whose contracts are believed rather than proved. Each says in its doc
comment which outside function it stands for.

The codec is described by relations between its states before and after a frame:
what a frame sounds like, or codes to, is not stated.
