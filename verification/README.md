# talos

Talos observes and drives ROS 2 systems from a terminal. An agent runs beside
ROS 2 on the robot and serves clients over a Unix socket or QUIC; the
command-line client runs on a workstation without ROS 2.

## Layout

- `src/` is the verified library (Verus). It holds what the agent and the
  clients decide and compute, each with a contract:
  - `protocol/`: the messages, the length-prefixed frame codec, and parameter
    values with their text forms;
  - `session/`: the request/response session on a socket and the client's
    demultiplexing of control replies and topic data;
  - `agent/`: routing topic data to subscribed clients, answering requests,
    the parameter and logger services, joint control, the conversion of ROS
    messages and of run-time typed messages into value trees;
  - `config`, `urdf`, `certs`, `cli`, `echo`: configuration defaults, joints
    of a robot description, self-signed certificates, the client's reading of
    replies and the text `echo` shows;
  - `text`, `number`, `sort`, `assoc`: string, decimal, ordering and
    association-list helpers with their specifications.
- `tests/` exercises the library on concrete values.
- `app/` is the program around it: the agent's ROS 2 bridge, sockets and QUIC
  transport, the command-line interface, configuration files and JSON output.
