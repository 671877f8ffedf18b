//! The platform capability: asks the shell which platform it runs on.
use vstd::prelude::*;
use vstd::std_specs::convert::FromSpec;
use crate::command::Command;

verus! {

/// A request for the name of the platform.
#[derive(Debug, PartialEq)]
pub struct PlatformRequest;

/// A command that asks for the platform; its outcome goes to `evt`.
pub fn get<Ctor, Effect>(evt: Ctor) -> (cmd: Command<Effect, Ctor>) where
    Effect: From<PlatformRequest>,

    ensures
        <Effect as FromSpec<PlatformRequest>>::obeys_from_spec() ==> cmd.effect == <Effect as FromSpec<
            PlatformRequest,
        >>::from_spec(PlatformRequest),
        call_ensures(Effect::from, (PlatformRequest,), cmd.effect),
        cmd.event_constructor == Some(evt),
{
    let effect = Effect::from(PlatformRequest);
    Command { effect, event_constructor: Some(evt) }
}

} // verus!
