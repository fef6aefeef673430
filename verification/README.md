# nature

The decision rules of the Nature flow engine, verified with Verus.

- `src/route.rs`: which relations leaving an instance's meta apply to it
  (context and state selectors), and the missions they give.
- `src/converted.rs`: how the instances that a converter returns are checked
  and completed before they are stored (target meta, origin, id choice,
  state version and states).
- `src/error.rs`: the engine's errors and how a database failure maps onto
  them.
- `src/collections.rs`: duplicate-free string sets and string maps with
  `Set`/`Map` views.
- `src/meta.rs`, `src/instance.rs`, `src/task.rs`, `src/executor.rs`: the data
  that these rules read.
- `src/mock.rs`: a stand-in instance table for tests.

`app/` holds the HTTP routes (actix-web), the wire forms of the values
(serde) and the reading of database failures (diesel).
