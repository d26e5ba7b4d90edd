# bb8

A generic asynchronous connection pool whose decisions are verified with Verus.

- `src/` is the core: every decision of the pool, with its contract and proof.
  `builder` holds the settings, `internals` what the pool's lock guards, `pool`
  opening, closing and replacing connections, `run` one use of a connection, and
  `laws` what holds of a pool as a whole. `channel` states what is taken on
  trust of the one-shot channels over which connections reach waiting tasks.
- `app/` is the pool as an application sees it. It locks, awaits, sets timers and
  spawns tasks as the core asks.
- `tests/` runs the core.

Where a setting promises something of every connection, the core keeps the
promise on every path: a connection that a waiting task receives is tested like
one that was idle, a connection that has reached its maximum lifetime is closed
as soon as it is returned, and the idle timeout closes only connections in
excess of `min_idle`. The connection timeout bounds everything that a run awaits
before it has a connection to use, tests included, and what building awaits.
