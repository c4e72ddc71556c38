# rusty_lightning

The decisions of a Lightning node that runs inside a Bitcoin full node, written and proved in Verus.

- `src/` is the verified library. It says what is to be done: how a node starts, what it does about
  the events of its channels, in which order a channel monitor is replaced on disk, what a line that
  names another node asks for, how much memory may be allocated, how long to wait for the full node.
  What takes time or reaches outside is not done there: a stage says what to do next, and an event
  says how it came out.
- `app/` does it: files, sockets, threads, the full node, and the objects of the `lightning` crate.
- `tests/` runs the library on concrete values.

The proof functions whose names begin with `law_` state what holds of the library as a whole.
