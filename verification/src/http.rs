//! The HTTP capability.
use vstd::prelude::*;
use vstd::std_specs::convert::FromSpec;
use crate::command::Command;

verus! {

/// An HTTP method.
#[derive(Debug, PartialEq)]
pub enum Method {
    Get,
    Post,
    Update,
    Delete,
}

/// An HTTP request for the shell to perform.
#[derive(Debug, PartialEq)]
pub struct Request {
    pub url: String,
    pub method: Method,
}

/// The response to an HTTP request.
#[derive(Debug, PartialEq)]
pub struct Response {
    pub body: Vec<u8>,
}

/// A command that fetches `url` with a GET request; its outcome goes to `evt`.
pub fn get<Ctor, Effect>(url: String, evt: Ctor) -> (cmd: Command<Effect, Ctor>) where
    Effect: From<Request>,

    ensures
        <Effect as FromSpec<Request>>::obeys_from_spec() ==> cmd.effect == <Effect as FromSpec<
            Request,
        >>::from_spec((Request { url: url, method: Method::Get })),
        call_ensures(Effect::from, ((Request { url: url, method: Method::Get }),), cmd.effect),
        cmd.event_constructor == Some(evt),
{
    let effect = Effect::from(Request { url, method: Method::Get });
    Command { effect, event_constructor: Some(evt) }
}

} // verus!
