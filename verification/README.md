# hive_lock

The lock file of a hive of NixOS machines. The generator evaluates the NixOS
configurations of a flake and writes `hive-lock.toml`, which names the system
derivation of each node. A deployment then reads the derivations back from the
lock file instead of evaluating them again.

- `src/` is the library, verified with Verus. `toml_lock` holds the data of a
  lock file, `generate` the course of the generator, `lock_file` the look-up.
  The public proof functions whose names start with `law_` state what holds of
  the library as a whole. `outside` holds the calls into other crates, with what
  is taken for granted of them.
- `tests/` runs the library.
- `app/` is the command around it: arguments, processes, threads and files. The
  surrounding program supplies its flakes, node filters and derivations through
  the traits of `app/host.rs`.
