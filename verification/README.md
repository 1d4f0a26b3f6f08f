# ims_core

The decisions of an IMS client, verified with Verus: which access a line registers
over, how a REGISTER is completed and its flow kept alive, how the voice side of a
line takes calls, how P-CSCF addresses are found, and how carrier profiles are
resolved.

- `src/` is the library. Every function states what it returns or changes. State
  machines take events and outside results as arguments and return what is to be
  done; they read no clock and open no socket. Times are nanoseconds of a monotonic
  clock, and sockets, relays and sessions are numbers.
- `app/` is the ordinary Rust around it: sockets, tasks, locks and device access. It
  performs what the library asks for and hands back what came of it.
- `tests/` runs the library on concrete values.

A public proof function whose name begins with `law_` states a property of several
functions, or of every input, in its doc comment and proves it.

What the library takes from outside stands behind small wrappers, each with a comment
on what is taken for granted: XML reading and escaping (`src/xml.rs`), URL parsing
(`src/ut.rs`), UTF-8 decoding (`src/utf8.rs`), and random octets (`src/outbound.rs`).
