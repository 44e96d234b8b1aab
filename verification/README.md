# vtable-trace

Dump a C++ object's vtable in a running 64-bit Windows process, and trace calls
to individual entries by a breakpoint.

```
vtable-trace dump --pid 1234 --obj 0x00000200_abcd1000
vtable-trace trace --pid 1234 --obj 0x00000200_abcd1000 --slot 3
vtable-trace trace --pid 1234 --addr 0x7ff74a01b540
```

A dump only reads the target. A trace writes one byte of it and debugs it.

## Layout

- `src/` is the library: everything that decides, computes or formats, verified
  with Verus. `dump` and `trace` are state machines; a state says what to do next,
  and the reply leads to the next state (`session`). `address`, `context`, `utf16`,
  `modules`, `memory`, `text` and `report` are what they are built from. The
  `*_laws` modules prove what holds of the library as a whole, such as that a
  trace leaves the target's memory as it found it.
- `app/` is the program: it reads the command line and performs the actions on the
  system.
- `tests/` runs the library against small simulated targets.

Two facts about the standard library are taken on trust: what `String::push` and
`char::from_u32` do.
