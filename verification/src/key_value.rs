//! The key-value store capability.
use vstd::prelude::*;
use vstd::std_specs::convert::FromSpec;
use crate::command::Command;

verus! {

/// A key in the store.
#[derive(Debug, PartialEq)]
pub struct Key(pub String);

/// A key and the value to store under it.
#[derive(Debug, PartialEq)]
pub struct KeyValue(pub Key, pub Vec<u8>);

/// A command that reads the value stored under `key`; its outcome goes to `evt`.
pub fn read<Ctor, Effect>(key: String, evt: Ctor) -> (cmd: Command<Effect, Ctor>) where
    Effect: From<Key>,

    ensures
        <Effect as FromSpec<Key>>::obeys_from_spec() ==> cmd.effect == <Effect as FromSpec<
            Key,
        >>::from_spec(Key(key)),
        call_ensures(Effect::from, (Key(key),), cmd.effect),
        cmd.event_constructor == Some(evt),
{
    let effect = Effect::from(Key(key));
    Command { effect, event_constructor: Some(evt) }
}

/// A command that stores `value` under `key`; its outcome goes to `evt`.
pub fn write<Ctor, Effect>(key: String, value: Vec<u8>, evt: Ctor) -> (cmd: Command<Effect, Ctor>) where
    Effect: From<KeyValue>,

    ensures
        <Effect as FromSpec<KeyValue>>::obeys_from_spec() ==> cmd.effect == <Effect as FromSpec<
            KeyValue,
        >>::from_spec(KeyValue(Key(key), value)),
        call_ensures(Effect::from, (KeyValue(Key(key), value),), cmd.effect),
        cmd.event_constructor == Some(evt),
{
    let effect = Effect::from(KeyValue(Key(key), value));
    Command { effect, event_constructor: Some(evt) }
}

} // verus!
