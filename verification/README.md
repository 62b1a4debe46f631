# lan-mouse: capturing and emulating input

The decisions of a shared keyboard and mouse, written in Verus: which input goes
to which client, how a client is entered and left, and what the virtual devices
of the emulating side emit.

- `src/` is the verified library. The capture task is a state machine:
  `model.rs` describes it mathematically, `capture.rs` runs it, and `laws.rs`
  states what holds of every run of it. `uinput.rs` turns input events into the
  events of a virtual keyboard and mouse, `switching.rs` has the entry serials
  and the switch hook.
- `app/` performs what the library decides: the capture backend, the connection
  to the clients, hooks, timers and the kernel's uinput devices.
- `tests/` runs the library on concrete values.

## Switching

- A hotkey entry has a nonzero serial. It is sent again whenever the retry timer
  fires, until the client acknowledges that serial; after 3 seconds the input
  comes back and the failure is reported. The library asks for a timer of 75 ms,
  which `app/` runs. Stale acknowledgements have no effect.
- Up to 256 events are kept back during an entry and sent in order once it is
  acknowledged. One more ends the switch.
- Input is local again before the client is cleaned up: its held keys are let go,
  its modifiers cleared, and it is told that the input left. The library sets the
  deadline, 200 ms after the cleanup began, and `app/` holds the work to it.
- Returning by hotkey or by the release bind centers the pointer; no other return
  does.
- In hotkey-only mode there are no barriers for captures that only wait for the
  pointer.
