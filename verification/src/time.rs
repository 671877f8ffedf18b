//! The time capability: asks the shell for the current time.
use vstd::prelude::*;
use vstd::std_specs::convert::FromSpec;
use crate::command::Command;

verus! {

/// A request for the current time.
#[derive(Debug, PartialEq)]
pub struct TimeRequest;

/// A command that asks for the current time; its outcome goes to `evt`.
pub fn get<Ctor, Effect>(evt: Ctor) -> (cmd: Command<Effect, Ctor>) where
    Effect: From<TimeRequest>,

    ensures
        <Effect as FromSpec<TimeRequest>>::obeys_from_spec() ==> cmd.effect == <Effect as FromSpec<
            TimeRequest,
        >>::from_spec(TimeRequest),
        call_ensures(Effect::from, (TimeRequest,), cmd.effect),
        cmd.event_constructor == Some(evt),
{
    let effect = Effect::from(TimeRequest);
    Command { effect, event_constructor: Some(evt) }
}

} // verus!
