//! Requests, responses, and the store of continuations waiting for them.
use vstd::prelude::*;
use crate::command::IntoEventConstructor;
use std::collections::HashMap;

verus! {

broadcast use vstd::std_specs::hash::group_hash_axioms;

/// An effect handed to the shell, tagged with the id of its continuation.
#[derive(Debug, PartialEq)]
pub struct Request<Effect> {
    pub uuid: Vec<u8>,
    pub effect: Effect,
}

/// The outcome of an effect, tagged with the id of the request it answers.
#[derive(Debug, PartialEq)]
pub struct Response<Outcome> {
    pub uuid: Vec<u8>,
    pub outcome: Outcome,
}

/// A fresh random (version 4) uuid, as 16 bytes.
///
/// Calls `uuid::Uuid::new_v4` and `Uuid::as_bytes`. The contract states only
/// the length and the version and variant bits that `new_v4` sets; the other
/// bits come from the system's random source, so nothing is said of them.
#[verifier::external_body]
fn fresh_uuid() -> (id: Vec<u8>)
    ensures
        id@.len() == 16,
        id@[6] / 16 == 4,
        id@[8] / 64 == 2,
{
    uuid::Uuid::new_v4().as_bytes().to_vec()
}

/// The bytes of `s` read as a big-endian number.
pub open spec fn id_of(s: Seq<u8>) -> int
    decreases s.len(),
{
    if s.len() == 0 {
        0
    } else {
        id_of(s.drop_last()) * 256 + s.last()
    }
}

/// `256` to the power `n`.
pub open spec fn pow256(n: nat) -> int
    decreases n,
{
    if n == 0 {
        1
    } else {
        pow256((n - 1) as nat) * 256
    }
}

proof fn lemma_id_of_bounded(s: Seq<u8>)
    ensures
        0 <= id_of(s) < pow256(s.len()),
    decreases s.len(),
{
    if s.len() > 0 {
        let d = s.drop_last();
        lemma_id_of_bounded(d);
        let a = id_of(d);
        let p = pow256(d.len());
        let x = s.last() as int;
        assert(0 <= a * 256 + x < p * 256) by (nonlinear_arith)
            requires
                0 <= a < p,
                0 <= x < 256,
        ;
    }
}

/// Byte strings of the same length with the same number are equal.
proof fn lemma_id_of_injective(a: Seq<u8>, b: Seq<u8>)
    requires
        a.len() == b.len(),
        id_of(a) == id_of(b),
    ensures
        a == b,
    decreases a.len(),
{
    if a.len() > 0 {
        let da = a.drop_last();
        let db = b.drop_last();
        lemma_id_of_bounded(da);
        lemma_id_of_bounded(db);
        let x = id_of(da);
        let y = id_of(db);
        let u = a.last() as int;
        let v = b.last() as int;
        assert(x == y && u == v) by (nonlinear_arith)
            requires
                x * 256 + u == y * 256 + v,
                0 <= u < 256,
                0 <= v < 256,
                0 <= x,
                0 <= y,
        ;
        lemma_id_of_injective(da, db);
        assert(a =~= da.push(a.last()));
        assert(b =~= db.push(b.last()));
    }
}

proof fn lemma_pow256_grows(i: nat, j: nat)
    requires
        i <= j,
    ensures
        pow256(i) <= pow256(j),
    decreases j,
{
    if i < j {
        lemma_pow256_grows(i, (j - 1) as nat);
        assert(pow256((j - 1) as nat) >= 1) by {
            lemma_pow256_positive((j - 1) as nat);
        }
    }
}

proof fn lemma_pow256_positive(n: nat)
    ensures
        pow256(n) >= 1,
    decreases n,
{
    if n > 0 {
        lemma_pow256_positive((n - 1) as nat);
    }
}

/// The key under which a 16-byte request id is stored: its bytes as a
/// big-endian number.
fn key_of(uuid: &[u8]) -> (key: u128)
    requires
        uuid@.len() == 16,
    ensures
        key == id_of(uuid@),
{
    let mut key: u128 = 0;
    let mut i: usize = 0;
    assert(pow256(16) == 0x1_0000_0000_0000_0000_0000_0000_0000_0000) by {
        reveal_with_fuel(pow256, 17);
    }
    while i < 16
        invariant
            i <= 16,
            uuid@.len() == 16,
            key == id_of(uuid@.take(i as int)),
            pow256(16) == 0x1_0000_0000_0000_0000_0000_0000_0000_0000,
        decreases 16 - i,
    {
        proof {
            lemma_id_of_bounded(uuid@.take(i as int));
            lemma_pow256_grows((i + 1) as nat, 16);
            assert(uuid@.take(i + 1).drop_last() =~= uuid@.take(i as int));
            let a = key as int;
            let p = pow256(i as nat);
            let x = uuid@[i as int] as int;
            assert(a * 256 + x < p * 256) by (nonlinear_arith)
                requires
                    0 <= a < p,
                    0 <= x < 256,
            ;
        }
        key = key * 256 + uuid[i] as u128;
        i = i + 1;
    }
    assert(uuid@.take(16) =~= uuid@);
    key
}

/// A 16-byte id's number fits in a `u128`.
proof fn lemma_id_of_fits(s: Seq<u8>)
    requires
        s.len() == 16,
    ensures
        0 <= id_of(s) < 0x1_0000_0000_0000_0000_0000_0000_0000_0000,
{
    lemma_id_of_bounded(s);
    assert(pow256(16) == 0x1_0000_0000_0000_0000_0000_0000_0000_0000) by {
        reveal_with_fuel(pow256, 17);
    }
}

/// Two 16-byte ids have the same key only when they are equal.
proof fn lemma_keys_differ(a: Seq<u8>, b: Seq<u8>)
    requires
        a.len() == 16,
        b.len() == 16,
        a != b,
    ensures
        id_of(a) as u128 != id_of(b) as u128,
{
    lemma_id_of_fits(a);
    lemma_id_of_fits(b);
    if id_of(a) == id_of(b) {
        lemma_id_of_injective(a, b);
    }
}

/// Continuations waiting for the outcome of an effect, keyed by request id.
///
/// Request ids are 16 bytes long; each is stored under its bytes read as a
/// big-endian `u128`, so the store behaves as a map from ids to
/// continuations.
pub struct ContinuationStore<C> {
    entries: HashMap<u128, C>,
    contents: Ghost<Map<Seq<u8>, C>>,
}

impl<C> View for ContinuationStore<C> {
    type V = Map<Seq<u8>, C>;

    closed spec fn view(&self) -> Map<Seq<u8>, C> {
        self.contents@
    }
}

impl<C> ContinuationStore<C> {
    /// `entries` holds, under the key of each id in `map`, what `map` holds
    /// under that id, and nothing under the key of any other 16-byte id.
    closed spec fn models(entries: Map<u128, C>, map: Map<Seq<u8>, C>) -> bool {
        &&& forall|s: Seq<u8>| #[trigger] map.contains_key(s) ==> s.len() == 16
        &&& forall|s: Seq<u8>|
            s.len() == 16 ==> (#[trigger] map.contains_key(s) <==> entries.contains_key(
                id_of(s) as u128,
            ))
        &&& forall|s: Seq<u8>| #[trigger] map.contains_key(s) ==> entries[id_of(s) as u128] == map[s]
    }

    #[verifier::type_invariant]
    closed spec fn well_formed(self) -> bool {
        Self::models(self.entries@, self.contents@)
    }

    /// An empty store.
    pub fn new() -> (store: Self)
        ensures
            store@ == Map::<Seq<u8>, C>::empty(),
    {
        ContinuationStore { entries: HashMap::new(), contents: Ghost(Map::empty()) }
    }

    /// What is stored under `uuid`, if anything is.
    fn get(&self, uuid: &[u8]) -> (c: Option<&C>)
        ensures
            self@.contains_key(uuid@) ==> (c matches Some(x) && *x == self@[uuid@]),
            !self@.contains_key(uuid@) ==> c is None,
    {
        proof { use_type_invariant(self); }
        if uuid.len() != 16 {
            return None;
        }
        let key = key_of(uuid);
        assert(self@.contains_key(uuid@) == self.entries@.contains_key(key));
        self.entries.get(&key)
    }

    /// Whether `resume` can take a response with `uuid` and `outcome`: a
    /// continuation waits under `uuid` and accepts `outcome`.
    pub fn can_resume<Outcome, Event>(&self, uuid: &[u8], outcome: &Outcome) -> (ok: bool) where
        C: IntoEventConstructor<Outcome, Event>,

        ensures
            ok == (self@.contains_key(uuid@) && self@[uuid@].accepts(*outcome)),
    {
        match self.get(uuid) {
            Some(c) => c.can_accept(outcome),
            None => false,
        }
    }

    /// Stores `c` under `uuid`, replacing what was stored there before.
    fn insert(&mut self, uuid: &[u8], c: C)
        requires
            uuid@.len() == 16,
        ensures
            final(self)@ == old(self)@.insert(uuid@, c),
    {
        let mut taken = Self::new();
        std::mem::swap(&mut taken, self);
        proof { use_type_invariant(&taken); }
        let key = key_of(uuid);
        let ghost old_map = taken.contents@;
        let ghost new_map = old_map.insert(uuid@, c);
        let ContinuationStore { mut entries, contents: _ } = taken;
        entries.insert(key, c);
        assert forall|s: Seq<u8>| s.len() == 16 && s != uuid@ implies id_of(s) as u128 != key by {
            lemma_keys_differ(s, uuid@);
        }
        assert(Self::models(entries@, new_map));
        *self = ContinuationStore { entries, contents: Ghost(new_map) };
    }

    /// Removes and returns what is stored under `uuid`, if anything is.
    fn take(&mut self, uuid: &[u8]) -> (c: Option<C>)
        ensures
            old(self)@.contains_key(uuid@) ==> c == Some(old(self)@[uuid@]),
            !old(self)@.contains_key(uuid@) ==> c is None,
            final(self)@ == old(self)@.remove(uuid@),
    {
        proof { use_type_invariant(&*self); }
        if uuid.len() != 16 {
            assert(self@.remove(uuid@) =~= self@);
            return None;
        }
        let mut taken = Self::new();
        std::mem::swap(&mut taken, self);
        let key = key_of(uuid);
        let ghost old_map = taken.contents@;
        let ghost new_map = old_map.remove(uuid@);
        let ContinuationStore { mut entries, contents: _ } = taken;
        let c = entries.remove(&key);
        assert forall|s: Seq<u8>| s.len() == 16 && s != uuid@ implies id_of(s) as u128 != key by {
            lemma_keys_differ(s, uuid@);
        }
        assert(Self::models(entries@, new_map));
        *self = ContinuationStore { entries, contents: Ghost(new_map) };
        c
    }

    /// Whether a continuation waits under `uuid`.
    pub fn is_paused(&self, uuid: &[u8]) -> (paused: bool)
        ensures
            paused == self@.contains_key(uuid@),
    {
        self.get(uuid).is_some()
    }

    /// Registers the continuation of `effect` under `uuid`, when there is one,
    /// and returns the request that the shell is to perform.
    pub fn pause_with_uuid<Effect>(
        &mut self,
        uuid: Vec<u8>,
        effect: Effect,
        event_ctor: Option<C>,
    ) -> (request: Request<Effect>)
        requires
            uuid@.len() == 16,
        ensures
            request.uuid@ == uuid@,
            request.effect == effect,
            final(self)@ == match event_ctor {
                Some(c) => old(self)@.insert(uuid@, c),
                None => old(self)@,
            },
    {
        match event_ctor {
            Some(c) => self.insert(uuid.as_slice(), c),
            None => {},
        }
        Request { uuid, effect }
    }

    /// Registers the continuation of `effect` under a fresh random uuid and
    /// returns the request that the shell is to perform.
    pub fn pause<Effect>(&mut self, effect: Effect, event_ctor: Option<C>) -> (request: Request<
        Effect,
    >)
        ensures
            request.effect == effect,
            request.uuid@.len() == 16,
            request.uuid@[6] / 16 == 4,
            request.uuid@[8] / 64 == 2,
            final(self)@ == match event_ctor {
                Some(c) => old(self)@.insert(request.uuid@, c),
                None => old(self)@,
            },
    {
        let uuid = fresh_uuid();
        self.pause_with_uuid(uuid, effect, event_ctor)
    }

    /// Hands the outcome in `response` to the continuation waiting for it,
    /// which is then forgotten, and returns the event it builds.
    pub fn resume<Outcome, Event>(&mut self, response: Response<Outcome>) -> (event: Event) where
        C: IntoEventConstructor<Outcome, Event>,

        requires
            old(self)@.contains_key(response.uuid@),
            old(self)@[response.uuid@].accepts(response.outcome),
        ensures
            event == old(self)@[response.uuid@].event_for(response.outcome),
            final(self)@ == old(self)@.remove(response.uuid@),
    {
        let Response { uuid, outcome } = response;
        let cont = self.take(uuid.as_slice());
        let c = cont.unwrap();
        c.into_event_constructor(outcome).call()
    }
}

impl<C> Default for ContinuationStore<C> {
    fn default() -> (store: Self)
        ensures
            store@ == Map::<Seq<u8>, C>::empty(),
    {
        Self::new()
    }
}

/// Resuming the request that a pause returned hands the outcome to the
/// constructor given with the pause: when that constructor accepts the
/// outcome, the resume can be made and its event is the constructor's event
/// for the outcome. When the request id was new, forgetting the constructor
/// leaves the store as it was before the pause.
pub proof fn lemma_resume_after_pause<C, Outcome, Event>(
    store: Map<Seq<u8>, C>,
    uuid: Seq<u8>,
    c: C,
    outcome: Outcome,
) where C: IntoEventConstructor<Outcome, Event>
    requires
        c.accepts(outcome),
    ensures
        store.insert(uuid, c).contains_key(uuid),
        store.insert(uuid, c)[uuid].accepts(outcome),
        store.insert(uuid, c)[uuid].event_for(outcome) == c.event_for(outcome),
        !store.contains_key(uuid) ==> store.insert(uuid, c).remove(uuid) == store,
{
    if !store.contains_key(uuid) {
        assert(store.insert(uuid, c).remove(uuid) =~= store);
    }
}

/// A continuation is resumed at most once: after a resume nothing waits
/// under its id, and every other continuation still waits.
pub proof fn lemma_resume_forgets<C>(store: Map<Seq<u8>, C>, uuid: Seq<u8>, other: Seq<u8>)
    requires
        store.contains_key(other),
        other != uuid,
    ensures
        !store.remove(uuid).contains_key(uuid),
        store.remove(uuid).contains_key(other),
        store.remove(uuid)[other] == store[other],
{
}

} // verus!
