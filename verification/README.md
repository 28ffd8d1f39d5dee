# cyberorto

Software of a gardening robot: an orchestrator that runs a queue of actions and
serves an HTTP API, and the firmware side of the boards that drive its motors and
peripherals over serial.

## Layout

- `src/` is the verified library. Each function carries a contract and is
  proved against it.
  - `queue.rs`: the action queue. What the runner does next, taking an action out
    for execution and putting it back, the end of a step, killing, reordering
    (stable, proved to permute the actions and to follow the requested order), the
    errors recorded for each action, the invariant that ids stay unique, and the
    order in which the runner acquires, steps and releases actions.
  - `action.rs`: action contexts and wrappers, the `ID_TYPENAME` directory names
    (proved to read back as written, also from the saved directory's path), the
    command-list bookkeeping.
  - `serial.rs`, `text.rs`: the `--ports` argument, assignment of devices to
    roles, and the text functions they need (split, join, decimal parsing).
  - `protocol.rs`: packet framing and reading back through `serialmessage`,
    request numbering and resending.
  - `encoder.rs`, `motor.rs`, `math.rs`, `arith.rs`: quadrature decoding, motor
    alignment and phases, the relay decisions of the PID calibration, the
    quarter-wave sine lookup.
  - `api.rs`: bodies of the queue requests.
- `tests/` runs the library on concrete values.
- `app/` is the program around it: the async serial protocol, the state handler,
  the queue runner thread, the Rocket API, simulated devices, floating-point
  kinematics and the PID controller.
