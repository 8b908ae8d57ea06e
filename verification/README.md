# flowstate

Verified bookkeeping of a small multiplayer game's server edge and test
client, written in Verus.

- `src/` is the library, every function verified:
  - `server`: sessions joining and leaving, PlayerId assignment (never
    reused; pre-assigned ids in test mode), the target tick floor announced
    to every session, the order in which a step's inputs reach the
    simulation, and match termination by duration;
  - `tick_loop`: which transport peer is which session, what each transport
    event leads to, and the pacing of ticks;
  - `client`, `tick_floor`, `input`, `connection`, `state`: the test client's
    floor tracking, input sequence numbers and tick clamping, its handshake
    steps, and the error types;
  - `args`, `text`: the server binary's settings from command line and
    environment (flag over environment over default);
  - `config`, `wire`: match parameters and shared values.
- `tests/` runs the library on concrete values.
- `app/` is the program around it: the server binary (arguments,
  environment, the network loop, the simulation world, replay writing) and
  the test client's transport. It builds on the project's simulation,
  wire-message and replay crates.
