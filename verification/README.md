# udx710_backend

Management service for the UDX710 5G/LTE module: an HTTP API over the
modem's ofono D-Bus interface, a data connection watchdog, scheduled
reboots, over-the-air updates and SMS/call notifications.

- `src/` is the library, verified with Verus: parsing of AT answers (cells,
  bands, QoS, SIM slot, cell locks), band mask encoding, configuration
  rules, the boot loader script edits, data usage accounting, the watchdog's
  decisions, PDU decoding, notification rendering and request planning,
  update package checks, `/proc` parsing and static file routing. Each public
  function states its result in its contract; the laws of the library are
  public proof functions beside the code they speak of.
- `tests/` runs the library on concrete values.
- `app/` is the program around it: the axum server, the D-Bus calls, file
  and process I/O, HTTP and SMTP delivery, and the background loops. It
  hands plain values to the library and performs what the library decides.

The tracker of ongoing calls (`CallTracker`) keeps its calls as a `Vec` of
(object path, call) pairs whose paths are pairwise distinct, rather than a
`HashMap` keyed by the path: vstd states what a `HashMap` lookup returns
after an insert or a removal only for key types that it proves to follow its
key model (integers and `bool`); for `String` keys that fact would have to
be assumed, which this crate does not do, and the contracts of `insert` and
`remove` could not be stated over such a map. The distinct-paths invariant
gives the same behaviour: one call per path, a later insert for a path
replacing the earlier one.
