# smithay_client_toolkit

The logic of a Wayland client toolkit, verified with Verus.

- `src/` is the verified library. It decides; it does not talk to the server or the system.
  - `seat/pointer.rs` decodes the events of a pointer and groups them into frames.
    `seat/pending.rs` holds the queue of events behind it, a `SmallVec`, with what is taken for
    granted of it. `seat/laws.rs` states what holds over any number of events.
  - `compositor.rs` keeps the compositor global, and for each surface its outputs and scale factor.
  - `shm/fd.rs` gets the file descriptor of a pool, `shm/raw.rs` makes and resizes pools. Both say
    which call comes next and take in what it gave. `shm/name.rs` names shared memory objects.
- `app/` joins the library to `wayland-client`, `nix` and `memmap2`. It makes the calls.
- `tests/` runs the library.

Positions and scroll distances are in 256ths of a pixel, as on the wire. `app/` turns them into
pixels.
