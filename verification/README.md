# valve

The verified core of a supervisor that serves a plumber API from a pool of R
workers behind one address.

`src/` decides: how many workers there are and which are let go, how a worker is
launched, when it counts as ready or dead, where a request goes, how often it is
tried and what its client is told. Every decision has a contract that Verus
proves; the proof functions whose names begin with `law_` state what holds of the
decisions together.

`app/` acts: it spawns the processes, opens the sockets, runs the web server and
hands the library what came of it.
