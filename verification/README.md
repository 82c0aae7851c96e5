# supervisor

A supervisor for experiments with swarms of robots (drones, Pi-Pucks and
BuilderBots) that run ARGoS controllers. It finds the robots on their
network, relays the messages they exchange, keeps a journal of each
experiment, and serves a web interface from which the robots are driven
and experiments are started and stopped.

## Layout

- `src/` is the library, verified with Verus: the Xbee and MAVLink frame
  formats, the remote-process protocol of the robots' computers, the
  decoding of the Lua values that robots exchange, the configuration file,
  which robot a device found on the network belongs to, the ARGoS life
  cycle on a robot, the order in which an experiment is started, and the
  state that the user interface shows. Each public function states its
  result in its `ensures`; laws that span functions are public proof
  functions.
- `app/` is the program around it: the command line, the network and file
  I/O, the actors of the robots, and the web server. It makes the
  library's decisions and does the input and output.
- `tests/` runs the library on concrete values.

Run the program with `-c <configuration file>` (or `--configuration`).
