# enamel-gtk web extension protocol

The thread view of enamel and its WebKit web extension talk over a Unix
socket. Each message is sent as a frame: its length as a big-endian `u64`,
then the message encoded with bincode. A reader never takes more than
`MAX_MESSAGE_SZ` (200 MiB) bytes of body from one frame.

- `src/` is the verified library: the message types (`protocol`), the frame
  format with its round-trip and truncation proofs (`frame`), and the scroll
  arithmetic of the extension (`webext`).
- `app/` is the part that needs gio, GTK and WebKit: the stream readers and
  writers, the serde copies of the message types, and the extension itself.
- `tests/` runs the library on concrete frames and messages.
