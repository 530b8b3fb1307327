# qmp_mcp

A server that lets a Model Context Protocol client run one QEMU virtual machine at a time: create
it from a validated Hardware Spec, drive it over QMP, watch its events, and tear it down again.

The rules of the server are a library whose behaviour is stated in contracts and proved with
Verus. What touches the machine (sockets, files, processes, the clock) is a thin program around it.

## Layout

- `src/` is the library.
  - `config`, `logging`, `policy`, `http`, `server`: configuration from the environment, log
    levels, the QMP command policy, HTTP authentication and origin checks, what the tools answer.
  - `instance/`: the Hardware Spec and the argument vector made from it, the Image and ISO
    Stores, the ISO catalog and its downloads, acceleration, the VNC password, the serial console,
    screen recording, the event buffer, the course of a creation and the orchestrator that owns
    the Instance.
  - `qemu/`: QMP messages, the QMP client's pending requests, the launch of a QEMU process.
  - `text`: characters, numbers and messages that the other modules share.
- `tests/` runs the library on concrete values.
- `app/` is the program: argument handling, I/O, the MCP surface.

## How the two halves meet

The library decides and the program acts. A loop that alternates the two (a launch, a download, a
creation, a teardown, a recording) is a state machine in `src/`: the program performs the action
it is handed and reports back what happened. Directory contents reach the library as snapshots, so
path containment is decided by verified code.

A few functions call outside crates or the standard library without a proof. The doc comment of
each says what is believed of the call.
