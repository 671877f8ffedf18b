# crux_core

A small, verified core for apps built in the "effects and continuations"
style: an app's `update` turns an event into a new model and a list of
commands; each command carries an effect for the shell to perform and,
optionally, a constructor that turns the effect's outcome back into an event.

- `src/command.rs`: commands, event constructors and the `App` trait.
- `src/continuations.rs`: requests, responses and the store of continuations
  waiting for outcomes, a `HashMap` keyed by random uuids read as `u128`.
- `src/http.rs`, `src/key_value.rs`, `src/platform.rs`, `src/time.rs`: the
  capabilities that build commands.
- `src/cat_fact.rs`: the cat facts app, its update and view.
- `src/testing.rs`: an app tester that plays the shell in tests.
- `src/text.rs`: decimal rendering of integers.
- `app/`: serde copies of the data types, the JSON codec the app is built
  with, and the BCS wire format of effects and outcomes.

Every function in `src/` is verified with Verus against its contract, except
`continuations::fresh_uuid`, which calls `uuid::Uuid::new_v4` and whose
contract (length and version bits of the id) is trusted.
