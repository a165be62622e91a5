# fpv

Control logic for an FPV quadcopter, verified with Verus.

- `src/` is the library, every function of it verified:
  - `command`: the gamepad command, the flight-mode state machine of the
    take-off/landing key, the key mapping, the eight-byte packet with its
    checksum, and laws about them.
  - `constants`: the drone's addresses, socket addresses and the video
    player's URL, and the decoder of the hex data texts that hold the
    handshake, heartbeat and video packets.
  - `input`: keys and window events as plain values.
  - `keyboard`, `window_manager`: what a batch of window events does to a
    command and to the list of held keys.
  - `network`, `video`: the listeners, and the relay that decides which
    chunks of the drone's video connection reach the video player.
- `app/` is the window system, sockets, threads, ffmpeg and OpenGL around it.
- `tests/` runs the library on concrete values.
