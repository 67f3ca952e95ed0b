# mykvm_core

The protocol core of the MyKVM receiver: the device that is controlled by a
desktop over the LAN. It decides what this device announces, whom it answers,
how the pairing handshake runs, which input packets are authorized, and how
Windows virtual-key codes map to X11 keysyms and back.

- `src/` is the verified library (Verus). Every public function states its
  result in `ensures`; the `lemma_*` proof functions state the properties
  that span calls (a retried pairing request keeps its code, discovery never
  pairs, an unpaired receiver authorizes nothing, key codes round-trip, ...).
  - `packet`: the wire types and protocol constants.
  - `state`: the pairing half of the layout, input authorization, pairing
    codes and the cache of recently authorized sources.
  - `pairing`: the challenge/confirm handshake and the identity checks.
  - `discovery`: announce contents, reply rules, controller record refresh,
    network address arithmetic and the per-packet discovery step.
  - `receiver`: input datagrams, the encrypted pair-confirm and clipboard
    streams, start-up and the diagnostics upload.
  - `linux_input`: keysym/VK tables, keyboard mapping lookups and the XTEST
    request plans for injection.
  - `events`, `text`: the event stream and verified text helpers.
- `app/` is the unverified shell: JNI entry points, MessagePack/JSON codecs,
  sockets, threads, the X11 connection and logging. It performs what the
  library decides.
- `tests/` exercises the library on concrete values.
