//! Testing support: runs an app's updates without a shell, records the
//! effects it asks for, and lets a test resolve them by hand.
use vstd::prelude::*;
use crate::command::{App, Command, IntoEventConstructor};
use crate::continuations::{ContinuationStore, Request, Response};
use vstd::std_specs::cmp::{PartialEqSpec, PartialEqSpecImpl};

verus! {

/// The store after registering, in order, the constructor `ctors[i]` (when
/// there is one) under the id `ids[i]`.
pub open spec fn registered<C>(
    store: Map<Seq<u8>, C>,
    ids: Seq<Seq<u8>>,
    ctors: Seq<Option<C>>,
) -> Map<Seq<u8>, C>
    decreases ctors.len(),
{
    if ctors.len() == 0 {
        store
    } else {
        let prev = registered(store, ids.drop_last(), ctors.drop_last());
        match ctors.last() {
            Some(c) => prev.insert(ids[ctors.len() - 1], c),
            None => prev,
        }
    }
}

/// The request ids of `effects`, in order.
pub open spec fn effect_ids<T>(effects: Seq<TestEffect<T>>) -> Seq<Seq<u8>> {
    effects.map_values(|e: TestEffect<T>| e.request.uuid@)
}

/// The event constructors of `cmds`, in order.
pub open spec fn constructors<Ef, C>(cmds: Seq<Command<Ef, C>>) -> Seq<Option<C>> {
    cmds.map_values(|c: Command<Ef, C>| c.event_constructor)
}

/// `effects` are the effects of `cmds`, in the same order, each under a
/// random (version 4) request id.
pub open spec fn requested<Ef, C>(effects: Seq<TestEffect<Ef>>, cmds: Seq<Command<Ef, C>>) -> bool {
    &&& effects.len() == cmds.len()
    &&& forall|i: int|
        #![trigger effects[i]]
        0 <= i < effects.len() ==> {
            &&& effects[i].request.effect == cmds[i].effect
            &&& effects[i].request.uuid@.len() == 16
            &&& effects[i].request.uuid@[6] / 16 == 4
            &&& effects[i].request.uuid@[8] / 64 == 2
        }
}

/// An effect that the app asked for, with the id to resolve it by.
#[derive(Debug)]
pub struct TestEffect<T> {
    pub request: Request<T>,
}

impl<T> TestEffect<T> {
    /// The effect itself.
    pub fn as_ref(&self) -> (effect: &T)
        ensures
            *effect == self.request.effect,
    {
        &self.request.effect
    }

    /// The same request with its effect mapped by `f`.
    pub fn map<NewT, F: FnOnce(&T) -> NewT>(&self, f: F) -> (mapped: TestEffect<NewT>)
        requires
            call_requires(f, (&self.request.effect,)),
        ensures
            mapped.request.uuid@ == self.request.uuid@,
            call_ensures(f, (&self.request.effect,), mapped.request.effect),
    {
        let uuid = self.request.uuid.clone();
        assert(uuid@ =~= self.request.uuid@);
        let effect = f(&self.request.effect);
        TestEffect { request: Request { uuid, effect } }
    }
}

/// A test effect equals an effect when its own effect does.
impl<T: PartialEq> PartialEq<T> for TestEffect<T> {
    fn eq(&self, other: &T) -> (equal: bool) {
        self.request.effect.eq(other)
    }
}

impl<T: PartialEq> PartialEqSpecImpl<T> for TestEffect<T> {
    open spec fn obeys_eq_spec() -> bool {
        T::obeys_eq_spec()
    }

    open spec fn eq_spec(&self, other: &T) -> bool {
        self.request.effect.eq_spec(other)
    }
}

/// The effects and events that an update of the app produced.
#[derive(Debug)]
pub struct Update<Ef, Ev> {
    /// Effects requested from the update run.
    pub effects: Vec<TestEffect<Ef>>,
    /// Events dispatched from the update run.
    pub events: Vec<Ev>,
}

/// What an app has asked for and not yet been handed out: the commands of
/// its last update, the events its continuations built, and the
/// continuations waiting for their outcomes.
pub struct AppContext<Ef, Ev, C> {
    pub commands: Vec<Command<Ef, C>>,
    pub events: Vec<Ev>,
    pub steps: ContinuationStore<C>,
}

impl<Ef, Ev, C> AppContext<Ef, Ev, C> {
    /// A context with nothing pending.
    pub fn new() -> (context: Self)
        ensures
            context.commands@.len() == 0,
            context.events@.len() == 0,
            context.steps@ == Map::<Seq<u8>, C>::empty(),
    {
        AppContext { commands: Vec::new(), events: Vec::new(), steps: ContinuationStore::new() }
    }

    /// Hands out what is pending: each command becomes a request under a
    /// fresh id, its continuation (if any) waits under that id, and the
    /// events are handed out as they are.
    pub fn updates(&mut self) -> (update: Update<Ef, Ev>)
        ensures
            requested(update.effects@, old(self).commands@),
            update.events@ == old(self).events@,
            final(self).commands@.len() == 0,
            final(self).events@.len() == 0,
            final(self).steps@ == registered(
                old(self).steps@,
                effect_ids(update.effects@),
                constructors(old(self).commands@),
            ),
    {
        let mut pending: Vec<Command<Ef, C>> = Vec::new();
        std::mem::swap(&mut pending, &mut self.commands);
        let ghost cmds = pending@;
        let ghost store = self.steps@;
        let mut effects: Vec<TestEffect<Ef>> = Vec::new();
        while pending.len() > 0
            invariant
                effects@.len() + pending@.len() == cmds.len(),
                pending@ == cmds.subrange(effects@.len() as int, cmds.len() as int),
                requested(effects@, cmds.take(effects@.len() as int)),
                self.steps@ == registered(
                    store,
                    effect_ids(effects@),
                    constructors(cmds.take(effects@.len() as int)),
                ),
                self.commands@.len() == 0,
                self.events@ == old(self).events@,
            decreases pending@.len(),
        {
            let ghost done = effects@;
            let cmd = pending.remove(0);
            let Command { effect, event_constructor } = cmd;
            let request = self.steps.pause(effect, event_constructor);
            effects.push(TestEffect { request });
            proof {
                let n = done.len() as int;
                assert(cmd == cmds[n]);
                assert(effect_ids(effects@).drop_last() =~= effect_ids(done));
                assert(constructors(cmds.take(n + 1)).drop_last() =~= constructors(cmds.take(n)));
                assert(pending@ =~= cmds.subrange(n + 1, cmds.len() as int));
            }
        }
        proof {
            assert(cmds.take(cmds.len() as int) =~= cmds);
        }
        let mut events: Vec<Ev> = Vec::new();
        std::mem::swap(&mut events, &mut self.events);
        Update { effects, events }
    }
}

/// A simplified execution environment for apps, for use in tests.
///
/// It runs the app's `update` and hands out the effects it asks for; a test
/// plays the shell and resolves them with `TestEffect::resolve`.
pub struct AppTester<A: App> {
    app: A,
    context: AppContext<A::Effect, A::Event, A::Ctor>,
}

impl<A: App> AppTester<A> {
    #[verifier::type_invariant]
    closed spec fn nothing_pending(self) -> bool {
        &&& self.context.commands@.len() == 0
        &&& self.context.events@.len() == 0
    }

    /// The app under test.
    pub closed spec fn app(&self) -> A {
        self.app
    }

    /// The continuations that wait for the outcome of an effect, by request id.
    pub closed spec fn pending(&self) -> Map<Seq<u8>, A::Ctor> {
        self.context.steps@
    }

    /// A tester for `app`, with nothing pending.
    pub fn new(app: A) -> (tester: Self)
        ensures
            tester.app() == app,
            tester.pending() == Map::<Seq<u8>, A::Ctor>::empty(),
    {
        AppTester { app, context: AppContext::new() }
    }

    /// Runs the app's `update` with `event`, and hands out the effects it
    /// asked for, in order, each under a fresh request id.
    pub fn update(&mut self, event: A::Event, model: &mut A::Model) -> (update: Update<
        A::Effect,
        A::Event,
    >)
        requires
            old(self).app().ready(event),
        ensures
            final(self).app() == old(self).app(),
            update.events@.len() == 0,
            exists|cmds: Seq<Command<A::Effect, A::Ctor>>|
                {
                    &&& #[trigger] old(self).app().updated(event, *old(model), *final(model), cmds)
                    &&& requested(update.effects@, cmds)
                    &&& final(self).pending() == registered(
                        old(self).pending(),
                        effect_ids(update.effects@),
                        constructors(cmds),
                    )
                },
    {
        proof { use_type_invariant(&*self); }
        let cmds = self.app.update(event, model);
        let ghost issued = cmds@;
        let mut taken = AppContext::new();
        std::mem::swap(&mut taken, &mut self.context);
        taken.commands = cmds;
        let update = taken.updates();
        self.context = taken;
        assert(self.app.updated(event, *old(model), *model, issued));
        update
    }

    /// Whether `effect` can be resolved with `outcome`: its continuation
    /// still waits and accepts the outcome.
    pub fn can_resolve<T>(&self, effect: &TestEffect<T>, outcome: &A::Outcome) -> (ok: bool)
        ensures
            ok == (self.pending().contains_key(effect.request.uuid@) && self.pending()[effect.request.uuid@].accepts(*outcome)),
    {
        self.context.steps.can_resume(effect.request.uuid.as_slice(), outcome)
    }

    /// Runs the app's `view` on `model`.
    pub fn view(&self, model: &A::Model) -> (view: A::ViewModel)
        ensures
            self.app().viewed(*model, view),
    {
        self.app.view(model)
    }
}

impl<A: App + Default> Default for AppTester<A> {
    /// A tester for the app's default value, with nothing pending.
    fn default() -> (tester: Self)
        ensures
            call_ensures(A::default, (), tester.app()),
            tester.pending() == Map::<Seq<u8>, A::Ctor>::empty(),
    {
        Self::new(A::default())
    }
}

impl<T> TestEffect<T> {
    /// Resolves this effect with `outcome`, as the shell would: the
    /// continuation waiting for it builds an event, which is handed out.
    pub fn resolve<A: App>(&self, tester: &mut AppTester<A>, outcome: A::Outcome) -> (update: Update<
        A::Effect,
        A::Event,
    >)
        requires
            old(tester).pending().contains_key(self.request.uuid@),
            old(tester).pending()[self.request.uuid@].accepts(outcome),
        ensures
            final(tester).app() == old(tester).app(),
            final(tester).pending() == old(tester).pending().remove(self.request.uuid@),
            update.effects@.len() == 0,
            update.events@ == seq![old(tester).pending()[self.request.uuid@].event_for(outcome)],
    {
        proof { use_type_invariant(&*tester); }
        let uuid = self.request.uuid.clone();
        assert(uuid@ =~= self.request.uuid@);
        let mut taken = AppContext::new();
        std::mem::swap(&mut taken, &mut tester.context);
        let event = taken.steps.resume(Response { uuid, outcome });
        taken.events.push(event);
        let update = taken.updates();
        tester.context = taken;
        update
    }
}

/// The items of `s` whose flag in `kept` is set, in order.
pub open spec fn kept_items<T>(s: Seq<T>, kept: Seq<bool>) -> Seq<T>
    decreases s.len(),
{
    if s.len() == 0 {
        Seq::empty()
    } else {
        let prev = kept_items(s.drop_last(), kept.drop_last());
        if kept.last() {
            prev.push(s.last())
        } else {
            prev
        }
    }
}

/// The request ids of `effects` paired with what `outs` maps each effect to,
/// where it maps it to something, in order.
pub open spec fn mapped_requests<T, NewT>(effects: Seq<TestEffect<T>>, outs: Seq<Option<NewT>>) -> Seq<
    (Seq<u8>, NewT),
>
    decreases effects.len(),
{
    if effects.len() == 0 {
        Seq::empty()
    } else {
        let prev = mapped_requests(effects.drop_last(), outs.drop_last());
        match outs.last() {
            Some(t) => prev.push((effects.last().request.uuid@, t)),
            None => prev,
        }
    }
}

impl<Ef, Ev> Update<Ef, Ev> {
    /// The effects for which `f` holds, in order.
    pub fn filter_effects<F: Fn(&Ef) -> bool>(&self, f: F) -> (found: Vec<&TestEffect<Ef>>)
        requires
            forall|i: int|
                0 <= i < self.effects@.len() ==> call_requires(
                    f,
                    (&#[trigger] self.effects@[i].request.effect,),
                ),
        ensures
            exists|kept: Seq<bool>|
                {
                    &&& kept.len() == self.effects@.len()
                    &&& forall|i: int|
                        0 <= i < kept.len() ==> call_ensures(
                            f,
                            (&#[trigger] self.effects@[i].request.effect,),
                            kept[i],
                        )
                    &&& found@.map_values(|e: &TestEffect<Ef>| *e) == kept_items(self.effects@, kept)
                },
    {
        let mut found: Vec<&TestEffect<Ef>> = Vec::new();
        let ghost mut kept: Seq<bool> = Seq::empty();
        let mut i: usize = 0;
        while i < self.effects.len()
            invariant
                i <= self.effects@.len(),
                kept.len() == i,
                forall|j: int|
                    0 <= j < self.effects@.len() ==> call_requires(
                        f,
                        (&#[trigger] self.effects@[j].request.effect,),
                    ),
                forall|j: int|
                    0 <= j < i ==> call_ensures(
                        f,
                        (&#[trigger] self.effects@[j].request.effect,),
                        kept[j],
                    ),
                found@.map_values(|e: &TestEffect<Ef>| *e) == kept_items(
                    self.effects@.take(i as int),
                    kept,
                ),
            decreases self.effects@.len() - i,
        {
            let effect = &self.effects[i];
            let keep = f(&effect.request.effect);
            let ghost before = found@;
            if keep {
                found.push(effect);
            }
            proof {
                let old_kept = kept;
                kept = kept.push(keep);
                assert(self.effects@.take(i + 1).drop_last() =~= self.effects@.take(i as int));
                assert(self.effects@.take(i + 1).last() == self.effects@[i as int]);
                assert(kept.drop_last() =~= old_kept);
                if keep {
                    assert(found@.map_values(|e: &TestEffect<Ef>| *e) =~= before.map_values(
                        |e: &TestEffect<Ef>| *e,
                    ).push(self.effects@[i as int]));
                } else {
                    assert(found@ == before);
                }
                assert(found@.map_values(|e: &TestEffect<Ef>| *e) =~= kept_items(
                    self.effects@.take(i + 1),
                    kept,
                ));
            }
            i = i + 1;
        }
        proof {
            assert(self.effects@.take(i as int) =~= self.effects@);
        }
        found
    }

    /// The effects that `f` maps to something, each mapped and under its own
    /// request id, in order.
    pub fn filter_map_effects<NewT, F: Fn(&Ef) -> Option<NewT>>(&self, f: F) -> (found: Vec<
        TestEffect<NewT>,
    >)
        requires
            forall|i: int|
                0 <= i < self.effects@.len() ==> call_requires(
                    f,
                    (&#[trigger] self.effects@[i].request.effect,),
                ),
        ensures
            exists|outs: Seq<Option<NewT>>|
                {
                    &&& outs.len() == self.effects@.len()
                    &&& forall|i: int|
                        0 <= i < outs.len() ==> call_ensures(
                            f,
                            (&#[trigger] self.effects@[i].request.effect,),
                            outs[i],
                        )
                    &&& found@.map_values(|e: TestEffect<NewT>| (e.request.uuid@, e.request.effect))
                        == mapped_requests(self.effects@, outs)
                },
    {
        let mut found: Vec<TestEffect<NewT>> = Vec::new();
        let ghost mut outs: Seq<Option<NewT>> = Seq::empty();
        let mut i: usize = 0;
        while i < self.effects.len()
            invariant
                i <= self.effects@.len(),
                outs.len() == i,
                forall|j: int|
                    0 <= j < self.effects@.len() ==> call_requires(
                        f,
                        (&#[trigger] self.effects@[j].request.effect,),
                    ),
                forall|j: int|
                    0 <= j < i ==> call_ensures(
                        f,
                        (&#[trigger] self.effects@[j].request.effect,),
                        outs[j],
                    ),
                found@.map_values(|e: TestEffect<NewT>| (e.request.uuid@, e.request.effect))
                    == mapped_requests(self.effects@.take(i as int), outs),
            decreases self.effects@.len() - i,
        {
            let effect = &self.effects[i];
            let out = f(&effect.request.effect);
            let ghost o = out;
            let ghost before = found@;
            match out {
                Some(t) => {
                    let uuid = effect.request.uuid.clone();
                    assert(uuid@ =~= effect.request.uuid@);
                    found.push(TestEffect { request: Request { uuid, effect: t } });
                },
                None => {},
            }
            proof {
                let old_outs = outs;
                outs = outs.push(o);
                assert(self.effects@.take(i + 1).drop_last() =~= self.effects@.take(i as int));
                assert(self.effects@.take(i + 1).last() == self.effects@[i as int]);
                assert(outs.drop_last() =~= old_outs);
                match o {
                    Some(t) => {
                        assert(found@.map_values(
                            |e: TestEffect<NewT>| (e.request.uuid@, e.request.effect),
                        ) =~= before.map_values(
                            |e: TestEffect<NewT>| (e.request.uuid@, e.request.effect),
                        ).push((self.effects@[i as int].request.uuid@, t)));
                    },
                    None => {
                        assert(found@ == before);
                    },
                }
                assert(found@.map_values(
                    |e: TestEffect<NewT>| (e.request.uuid@, e.request.effect),
                ) =~= mapped_requests(self.effects@.take(i + 1), outs));
            }
            i = i + 1;
        }
        proof {
            assert(self.effects@.take(i as int) =~= self.effects@);
        }
        found
    }
}

/// Registering commands under distinct ids that were new to the store
/// keeps what the store held, and files each constructor under the id of
/// its own command: resolving that command's effect later hands the
/// outcome to exactly that constructor.
pub proof fn lemma_registered_lookup<C>(
    store: Map<Seq<u8>, C>,
    ids: Seq<Seq<u8>>,
    ctors: Seq<Option<C>>,
    key: Seq<u8>,
)
    requires
        ids.len() == ctors.len(),
        forall|a: int, b: int| 0 <= a < b < ids.len() ==> ids[a] != ids[b],
        forall|a: int| 0 <= a < ids.len() ==> !store.contains_key(#[trigger] ids[a]),
    ensures
        forall|i: int|
            0 <= i < ids.len() && ids[i] == key ==> match ctors[i] {
                Some(c) => registered(store, ids, ctors).contains_key(key) && registered(
                    store,
                    ids,
                    ctors,
                )[key] == c,
                None => !registered(store, ids, ctors).contains_key(key),
            },
        !ids.contains(key) ==> (registered(store, ids, ctors).contains_key(key)
            == store.contains_key(key)),
        !ids.contains(key) && store.contains_key(key) ==> registered(store, ids, ctors)[key]
            == store[key],
    decreases ctors.len(),
{
    if ctors.len() > 0 {
        let n = ctors.len() - 1;
        let ids0 = ids.drop_last();
        let ctors0 = ctors.drop_last();
        lemma_registered_lookup(store, ids0, ctors0, key);
        if ids[n] == key {
            assert(!ids0.contains(key)) by {
                if ids0.contains(key) {
                    let j = choose|j: int| 0 <= j < ids0.len() && ids0[j] == key;
                    assert(ids[j] == ids[n]);
                }
            }
            assert forall|i: int| 0 <= i < ids.len() && ids[i] == key implies i == n by {
                if i != n {
                    assert(ids[i] == ids[n]);
                }
            }
            assert(!store.contains_key(key)) by {
                assert(!store.contains_key(ids[n]));
            }
        } else {
            assert forall|i: int| 0 <= i < ids.len() && ids[i] == key implies i < n by {}
            assert forall|i: int| 0 <= i < n && ids[i] == key implies ids0[i] == key by {}
            if !ids.contains(key) {
                assert(!ids0.contains(key)) by {
                    if ids0.contains(key) {
                        let j = choose|j: int| 0 <= j < ids0.len() && ids0[j] == key;
                        assert(ids[j] == key);
                    }
                }
            }
        }
    }
}

/// `filter_map_effects` with a function that maps exactly the effects a
/// predicate keeps finds the same requests as `filter_effects` with that
/// predicate: as many, in the same order, under the same ids, each mapped
/// to the function's value.
pub proof fn lemma_filter_map_matches_filter<T, NewT>(
    effects: Seq<TestEffect<T>>,
    kept: Seq<bool>,
    vals: Seq<NewT>,
    outs: Seq<Option<NewT>>,
)
    requires
        kept.len() == effects.len(),
        vals.len() == effects.len(),
        outs.len() == effects.len(),
        forall|i: int|
            0 <= i < effects.len() ==> #[trigger] outs[i] == (if kept[i] {
                Some(vals[i])
            } else {
                None
            }),
    ensures
        mapped_requests(effects, outs).len() == kept_items(effects, kept).len(),
        kept_items(vals, kept).len() == kept_items(effects, kept).len(),
        forall|k: int|
            0 <= k < mapped_requests(effects, outs).len() ==> (#[trigger] mapped_requests(
                effects,
                outs,
            )[k]).0 == kept_items(effects, kept)[k].request.uuid@,
        forall|k: int|
            0 <= k < mapped_requests(effects, outs).len() ==> (#[trigger] mapped_requests(
                effects,
                outs,
            )[k]).1 == kept_items(vals, kept)[k],
    decreases effects.len(),
{
    if effects.len() > 0 {
        let n = effects.len() - 1;
        let e0 = effects.drop_last();
        let k0 = kept.drop_last();
        let v0 = vals.drop_last();
        let o0 = outs.drop_last();
        assert forall|i: int| 0 <= i < e0.len() implies #[trigger] o0[i] == (if k0[i] {
            Some(v0[i])
        } else {
            None
        }) by {
            assert(o0[i] == outs[i]);
        }
        lemma_filter_map_matches_filter(e0, k0, v0, o0);
        assert(outs[n] == (if kept[n] { Some(vals[n]) } else { None }));
        let prev = mapped_requests(e0, o0);
        let kv0 = kept_items(v0, k0);
        let ke0 = kept_items(e0, k0);
        assert forall|k: int| 0 <= k < mapped_requests(effects, outs).len() implies
            (#[trigger] mapped_requests(effects, outs)[k]).1 == kept_items(vals, kept)[k]
            && mapped_requests(effects, outs)[k].0 == kept_items(effects, kept)[k].request.uuid@ by {
            if k < prev.len() {
                assert(mapped_requests(effects, outs)[k] == prev[k]);
                assert(kept_items(vals, kept)[k] == kv0[k]);
                assert(kept_items(effects, kept)[k] == ke0[k]);
            }
        }
    }
}

/// Mapping twice keeps the request id, and the effect is what the second
/// function gives for what the first gave.
pub proof fn lemma_map_composes<T, U, V, F: FnOnce(&T) -> U, G: FnOnce(&U) -> V>(
    effect: TestEffect<T>,
    once: TestEffect<U>,
    twice: TestEffect<V>,
    f: F,
    g: G,
)
    requires
        once.request.uuid@ == effect.request.uuid@,
        call_ensures(f, (&effect.request.effect,), once.request.effect),
        twice.request.uuid@ == once.request.uuid@,
        call_ensures(g, (&once.request.effect,), twice.request.effect),
    ensures
        twice.request.uuid@ == effect.request.uuid@,
        exists|u: U|
            call_ensures(f, (&effect.request.effect,), u) && call_ensures(
                g,
                (&u,),
                twice.request.effect,
            ),
{
}

/// Which continuation a resolve reaches depends on the request id alone:
/// an effect mapped from another, which keeps its id, resolves the same
/// continuation with the same outcome.
pub proof fn lemma_resolve_depends_on_id<A: App, T, U>(
    tester: AppTester<A>,
    effect: TestEffect<T>,
    mapped: TestEffect<U>,
    outcome: A::Outcome,
)
    requires
        mapped.request.uuid@ == effect.request.uuid@,
    ensures
        tester.pending().contains_key(mapped.request.uuid@) == tester.pending().contains_key(
            effect.request.uuid@,
        ),
        tester.pending().contains_key(effect.request.uuid@) ==> {
            &&& tester.pending()[mapped.request.uuid@] == tester.pending()[effect.request.uuid@]
            &&& tester.pending()[mapped.request.uuid@].accepts(outcome) == tester.pending()[effect.request.uuid@].accepts(outcome)
            &&& tester.pending()[mapped.request.uuid@].event_for(outcome) == tester.pending()[effect.request.uuid@].event_for(outcome)
        },
{
}

/// `found` picks out of `s`, in order, exactly the items at the positions
/// `idx`: the positions increase, and `found[k]` is `s[idx[k]]`.
pub open spec fn picks<T>(s: Seq<T>, found: Seq<T>, idx: Seq<int>) -> bool {
    &&& idx.len() == found.len()
    &&& forall|k: int| 0 <= k < idx.len() ==> 0 <= #[trigger] idx[k] < s.len() && found[k] == s[idx[k]]
    &&& forall|a: int, b: int| 0 <= a < b < idx.len() ==> idx[a] < idx[b]
}

/// The items kept by `kept_items` are exactly those whose flag is set, each
/// once, in their order in `s`: no item with a set flag is left out, and
/// no other item is taken.
pub proof fn lemma_kept_items_exact<T>(s: Seq<T>, kept: Seq<bool>) -> (idx: Seq<int>)
    requires
        kept.len() == s.len(),
    ensures
        picks(s, kept_items(s, kept), idx),
        forall|k: int| 0 <= k < idx.len() ==> kept[#[trigger] idx[k]],
        forall|i: int| 0 <= i < s.len() && kept[i] ==> exists|k: int| 0 <= k < idx.len() && #[trigger] idx[k] == i,
    decreases s.len(),
{
    if s.len() == 0 {
        Seq::empty()
    } else {
        let n = s.len() - 1;
        let idx0 = lemma_kept_items_exact(s.drop_last(), kept.drop_last());
        let prev = kept_items(s.drop_last(), kept.drop_last());
        if kept[n] {
            let idx = idx0.push(n);
            assert forall|i: int| 0 <= i < s.len() && kept[i] implies exists|k: int|
                0 <= k < idx.len() && #[trigger] idx[k] == i by {
                if i == n {
                    assert(idx[idx.len() - 1] == i);
                } else {
                    assert(kept.drop_last()[i]);
                    let k = choose|k: int| 0 <= k < idx0.len() && #[trigger] idx0[k] == i;
                    assert(idx[k] == i);
                }
            }
            assert forall|k: int| 0 <= k < idx.len() implies 0 <= #[trigger] idx[k] < s.len()
                && kept_items(s, kept)[k] == s[idx[k]] by {
                if k < idx0.len() {
                    assert(kept_items(s, kept)[k] == prev[k]);
                }
            }
            idx
        } else {
            assert forall|i: int| 0 <= i < s.len() && kept[i] implies exists|k: int|
                0 <= k < idx0.len() && #[trigger] idx0[k] == i by {
                assert(i != n);
                assert(kept.drop_last()[i]);
            }
            idx0
        }
    }
}

/// The requests found by `mapped_requests` are exactly those of the effects
/// that `outs` maps to something, each once, in order, under the effect's
/// own id and with what it was mapped to.
pub proof fn lemma_mapped_requests_exact<T, NewT>(
    effects: Seq<TestEffect<T>>,
    outs: Seq<Option<NewT>>,
) -> (idx: Seq<int>)
    requires
        outs.len() == effects.len(),
    ensures
        idx.len() == mapped_requests(effects, outs).len(),
        forall|k: int|
            0 <= k < idx.len() ==> {
                &&& 0 <= #[trigger] idx[k] < effects.len()
                &&& mapped_requests(effects, outs)[k].0 == effects[idx[k]].request.uuid@
                &&& outs[idx[k]] == Some(mapped_requests(effects, outs)[k].1)
            },
        forall|a: int, b: int| 0 <= a < b < idx.len() ==> idx[a] < idx[b],
        forall|i: int|
            0 <= i < effects.len() && outs[i] is Some ==> exists|k: int| 0 <= k < idx.len() && #[trigger] idx[k] == i,
    decreases effects.len(),
{
    if effects.len() == 0 {
        Seq::empty()
    } else {
        let n = effects.len() - 1;
        let e0 = effects.drop_last();
        let o0 = outs.drop_last();
        let idx0 = lemma_mapped_requests_exact(e0, o0);
        let prev = mapped_requests(e0, o0);
        match outs[n] {
            Some(t) => {
                let idx = idx0.push(n);
                assert forall|i: int| 0 <= i < effects.len() && outs[i] is Some implies exists|k: int|
                    0 <= k < idx.len() && #[trigger] idx[k] == i by {
                    if i == n {
                        assert(idx[idx.len() - 1] == i);
                    } else {
                        assert(o0[i] == outs[i]);
                        let k = choose|k: int| 0 <= k < idx0.len() && #[trigger] idx0[k] == i;
                        assert(idx[k] == i);
                    }
                }
                assert forall|k: int| 0 <= k < idx.len() implies {
                    &&& 0 <= #[trigger] idx[k] < effects.len()
                    &&& mapped_requests(effects, outs)[k].0 == effects[idx[k]].request.uuid@
                    &&& outs[idx[k]] == Some(mapped_requests(effects, outs)[k].1)
                } by {
                    if k < idx0.len() {
                        assert(mapped_requests(effects, outs)[k] == prev[k]);
                        assert(effects[idx[k]] == e0[idx0[k]]);
                        assert(outs[idx[k]] == o0[idx0[k]]);
                    }
                }
                idx
            },
            None => {
                assert forall|i: int| 0 <= i < effects.len() && outs[i] is Some implies exists|k: int|
                    0 <= k < idx0.len() && #[trigger] idx0[k] == i by {
                    assert(i != n);
                    assert(o0[i] == outs[i]);
                }
                assert forall|k: int| 0 <= k < idx0.len() implies {
                    &&& 0 <= #[trigger] idx0[k] < effects.len()
                    &&& mapped_requests(effects, outs)[k].0 == effects[idx0[k]].request.uuid@
                    &&& outs[idx0[k]] == Some(mapped_requests(effects, outs)[k].1)
                } by {
                    assert(effects[idx0[k]] == e0[idx0[k]]);
                    assert(outs[idx0[k]] == o0[idx0[k]]);
                }
                idx0
            },
        }
    }
}

} // verus!
