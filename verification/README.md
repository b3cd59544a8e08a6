# mars_stn

The signalling layer of a mobile client: it decides which link a task goes out
on, keeps the long link up, times what is out, retries what failed and picks the
addresses to connect to.

- `src/` is the library, verified with Verus. It never reads a clock, a socket or
  the app: readings are handed in (`..._at`), and what only the app or the network
  can answer is asked of a host trait. A host says what it has heard; every call
  adds one word to that, and the contracts speak of the words.
- `src/core_pieces.rs` joins the core with the pieces the library holds: the
  long-link queue, the gates a request has to pass, the net source, the diagnosis
  and the links. `src/core_steps.rs` says what each word makes of them, and
  `src/core_laws.rs` what follows for the whole. `src/unwired.rs` holds the hosts of an app that installed nothing.
- `src/queue_laws.rs` and the functions named `law_...` in the other modules state
  what holds of the library as a whole.
- `tests/` runs the library on concrete values.
- `app/` is the ordinary Rust around it: the clock, the closures an app installs,
  and the wiring of one core out of its pieces.
