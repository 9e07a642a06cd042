# idunn_drivers

The drivers of Idunn, which brings one admitted release of a service from its source to a
route: it freezes the exact source, builds it, installs the sealed result, starts and observes
the workload, projects what runs, grants the write lease, moves the route, and does the same on
managed hosts through an actuator that dials in.

The library decides and the program around it acts.

- `src/` holds the decisions, verified with Verus. Each takes what was found on the machine as
  plain values and returns what follows: a value, a plan of steps, or a refusal in words.
- `app/` performs them: it reads files, runs programs, speaks on sockets, and keeps stores. It
  also builds `idunn-host`, the actuator of a managed host. `app/cult.rs` is the one place that
  names the crates of the swarm; the rest reaches them through the traits in `app/swarm.rs`.
- `tests/` runs the library on concrete values.

## What is proved

Every executable function states what it returns and which refusal comes on which input, in the
order in which the conditions are looked at. It also states when it succeeds, but for the few
that pack values as MessagePack: the packing may run out of memory, and what follows it stands
in functions of its own that take its result. Laws that span functions are
public proof functions: for example that a hardened source digests to what it did before, that
a rollback never overwrites another writer, that publishing one incarnation leaves the others
alone, and that no request of a session is taken twice.

## What is believed

The calls into other crates stand behind small functions marked `external_body`, each with a
comment that names the call and says what is claimed of it: SHA-256 (`digest`), MessagePack
(`encoding`), dates (`clock`), TOML (`host_config`), fresh identifiers and the present instant
(`fresh`), and four functions of the standard library on text (`text`).
