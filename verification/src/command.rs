//! Commands: an effect to perform, plus what turns its outcome into an event.
use vstd::prelude::*;

verus! {

/// Something that turns the outcome of an effect into an event for the app.
///
/// `accepts` says which outcomes it knows how to handle (an outcome of
/// another kind of effect is a caller error); `event_for` is the event that
/// it builds from an accepted outcome.
pub trait IntoEventConstructor<Output, Event>: Sized {
    spec fn accepts(&self, output: Output) -> bool;

    spec fn event_for(&self, output: Output) -> Event;

    /// Whether this constructor accepts `output`.
    fn can_accept(&self, output: &Output) -> (ok: bool)
        ensures
            ok == self.accepts(*output),
    ;

    fn construct(&self, output: Output) -> (event: Event)
        requires
            self.accepts(output),
        ensures
            event == self.event_for(output),
    ;

    /// Applies the constructor to its argument without calling it yet.
    fn into_event_constructor(self, output: Output) -> (f: EventConstructorFunction<Self, Output>)
        ensures
            f.constructor == self,
            f.argument == output,
    {
        EventConstructorFunction { constructor: self, argument: output }
    }
}

/// A partially applied event constructor, which can be called without arguments.
pub struct EventConstructorFunction<C, T> {
    pub constructor: C,
    pub argument: T,
}

impl<C, T> EventConstructorFunction<C, T> {
    /// Builds the event from the stored argument.
    pub fn call<Event>(self) -> (event: Event) where C: IntoEventConstructor<T, Event>
        requires
            self.constructor.accepts(self.argument),
        ensures
            event == self.constructor.event_for(self.argument),
    {
        self.constructor.construct(self.argument)
    }
}

/// Applying a constructor to an argument it accepts and calling the result
/// later gives the same event as applying the constructor directly: the
/// call can be made, and builds the constructor's event for the argument.
pub proof fn lemma_partial_application<C, T, Event>(c: C, t: T, f: EventConstructorFunction<C, T>) where
    C: IntoEventConstructor<T, Event>,

    requires
        c.accepts(t),
        f.constructor == c,
        f.argument == t,
    ensures
        f.constructor.accepts(f.argument),
        f.constructor.event_for(f.argument) == c.event_for(t),
{
}

/// The intent for a side effect, returned by an app's `update`.
///
/// It carries the effect for the shell to perform and, optionally, the
/// constructor that turns the effect's outcome into the next event.
#[derive(Debug, PartialEq)]
pub struct Command<Effect, Ctor> {
    pub effect: Effect,
    pub event_constructor: Option<Ctor>,
}

/// An app: it handles events by updating its model and returning commands,
/// and it shows its model as a view model.
///
/// `updated` and `viewed` are what an implementation promises of `update`
/// and `view`; `ready` is what `update` needs of the app and the event.
pub trait App {
    type Event;
    type Model;
    type ViewModel;
    type Effect;
    type Outcome;
    type Ctor: IntoEventConstructor<Self::Outcome, Self::Event>;

    spec fn ready(&self, event: Self::Event) -> bool;

    spec fn updated(
        &self,
        event: Self::Event,
        before: Self::Model,
        after: Self::Model,
        cmds: Seq<Command<Self::Effect, Self::Ctor>>,
    ) -> bool;

    spec fn viewed(&self, model: Self::Model, view: Self::ViewModel) -> bool;

    fn update(&self, event: Self::Event, model: &mut Self::Model) -> (cmds: Vec<
        Command<Self::Effect, Self::Ctor>,
    >)
        requires
            self.ready(event),
        ensures
            self.updated(event, *old(model), *final(model), cmds@),
    ;

    fn view(&self, model: &Self::Model) -> (view: Self::ViewModel)
        ensures
            self.viewed(*model, view),
    ;
}

} // verus!
