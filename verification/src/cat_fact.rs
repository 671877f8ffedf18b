//! The cat facts app: fetches a cat fact and a cat picture, remembers when
//! the fact arrived, and keeps its state in the key-value store.
use vstd::prelude::*;
use vstd::std_specs::convert::FromSpecImpl;
use crate::command::{App, Command, IntoEventConstructor};
use crate::http;
use crate::key_value::{self, Key, KeyValue};
use crate::platform::PlatformRequest;
use crate::text::{append_decimal, decimal, lemma_decimal_reads_as, reads_as};
use crate::time::{self, TimeRequest};

verus! {

/// Where the facts come from.
pub open spec fn fact_api_url() -> Seq<char> {
    "https://catfact.ninja/fact"@
}

/// Where the pictures come from.
pub open spec fn image_api_url() -> Seq<char> {
    "https://aws.random.cat/meow"@
}

/// The picture shown while a new one loads.
pub open spec fn cat_loading_url() -> Seq<char> {
    "https://c.tenor.com/qACzaJ1EBVYAAAAd/tenor.gif"@
}

/// The key under which the app keeps its state.
pub open spec fn state_key() -> Seq<char> {
    "state"@
}

/// A fact about cats, with its length as the fact service reports it.
#[derive(Debug, Clone, PartialEq, Eq)]
pub struct CatFact {
    pub fact: String,
    pub length: i32,
}

impl CatFact {
    /// The text that `format` gives: the fact, then its length in bytes.
    pub open spec fn formatted(fact: Seq<char>, length: i32) -> Seq<char> {
        fact + " ("@ + decimal(length as int) + " bytes)"@
    }

    /// The fact followed by its length, as "fact (length bytes)".
    pub fn format(&self) -> (text: String)
        ensures
            text@ == Self::formatted(self.fact@, self.length),
    {
        let mut text = self.fact.clone();
        text.append(" (");
        append_decimal(&mut text, self.length);
        text.append(" bytes)");
        text
    }
}

impl Default for CatFact {
    /// An empty fact of length zero.
    fn default() -> (fact: CatFact)
        ensures
            fact.fact@ == Seq::<char>::empty(),
            fact.length == 0,
    {
        CatFact { fact: String::new(), length: 0 }
    }
}

/// A picture of a cat, by its address.
#[derive(Debug, Clone, PartialEq, Eq)]
pub struct CatImage {
    pub file: String,
}

impl CatImage {
    /// The picture shown while a new one loads.
    pub fn loading() -> (image: CatImage)
        ensures
            image.file@ == cat_loading_url(),
    {
        CatImage { file: String::from_str("https://c.tenor.com/qACzaJ1EBVYAAAAd/tenor.gif") }
    }

    /// A copy of the picture.
    pub fn duplicate(&self) -> (image: CatImage)
        ensures
            image.file@ == self.file@,
    {
        CatImage { file: self.file.clone() }
    }
}

impl Default for CatImage {
    fn default() -> (image: CatImage)
        ensures
            image.file@ == cat_loading_url(),
    {
        CatImage::loading()
    }
}

/// The state of the app.
#[derive(Debug, PartialEq)]
pub struct Model {
    pub cat_fact: Option<CatFact>,
    pub cat_image: Option<CatImage>,
    pub time: Option<String>,
}

impl Model {
    /// A model with nothing in it.
    pub fn new() -> (model: Model)
        ensures
            model.cat_fact is None,
            model.cat_image is None,
            model.time is None,
    {
        Model { cat_fact: None, cat_image: None, time: None }
    }
}

impl Default for Model {
    fn default() -> (model: Model)
        ensures
            model.cat_fact is None,
            model.cat_image is None,
            model.time is None,
    {
        Model::new()
    }
}

/// What the app shows.
#[derive(Debug, PartialEq)]
pub struct ViewModel {
    pub fact: String,
    pub image: Option<CatImage>,
}

impl Default for ViewModel {
    /// An empty view, with no picture.
    fn default() -> (view: ViewModel)
        ensures
            view.fact@ == Seq::<char>::empty(),
            view.image is None,
    {
        ViewModel { fact: String::new(), image: None }
    }
}

/// The events of the app.
#[allow(inconsistent_fields)]
#[derive(Debug, PartialEq)]
pub enum Msg {
    /// Nothing to do.
    Nothing,
    Clear,
    Get,
    Fetch,
    Restore,
    SetState { bytes: Option<Vec<u8>> },
    SetFact { bytes: Vec<u8> },
    SetImage { bytes: Vec<u8> },
    CurrentTime { iso_time: String },
}

/// The effects that the app asks the shell for.
#[derive(Debug, PartialEq)]
pub enum Effect {
    Http(http::Request),
    KVRead(Key),
    KVWrite(KeyValue),
    Platform(PlatformRequest),
    Render,
    Time(TimeRequest),
}

impl From<http::Request> for Effect {
    fn from(request: http::Request) -> (effect: Effect) {
        Effect::Http(request)
    }
}

impl FromSpecImpl<http::Request> for Effect {
    open spec fn obeys_from_spec() -> bool {
        true
    }

    open spec fn from_spec(request: http::Request) -> Effect {
        Effect::Http(request)
    }
}

impl From<Key> for Effect {
    fn from(key: Key) -> (effect: Effect) {
        Effect::KVRead(key)
    }
}

impl FromSpecImpl<Key> for Effect {
    open spec fn obeys_from_spec() -> bool {
        true
    }

    open spec fn from_spec(key: Key) -> Effect {
        Effect::KVRead(key)
    }
}

impl From<KeyValue> for Effect {
    fn from(kv: KeyValue) -> (effect: Effect) {
        Effect::KVWrite(kv)
    }
}

impl FromSpecImpl<KeyValue> for Effect {
    open spec fn obeys_from_spec() -> bool {
        true
    }

    open spec fn from_spec(kv: KeyValue) -> Effect {
        Effect::KVWrite(kv)
    }
}

impl From<PlatformRequest> for Effect {
    fn from(request: PlatformRequest) -> (effect: Effect) {
        Effect::Platform(request)
    }
}

impl FromSpecImpl<PlatformRequest> for Effect {
    open spec fn obeys_from_spec() -> bool {
        true
    }

    open spec fn from_spec(request: PlatformRequest) -> Effect {
        Effect::Platform(request)
    }
}

impl From<TimeRequest> for Effect {
    fn from(request: TimeRequest) -> (effect: Effect) {
        Effect::Time(request)
    }
}

impl FromSpecImpl<TimeRequest> for Effect {
    open spec fn obeys_from_spec() -> bool {
        true
    }

    open spec fn from_spec(request: TimeRequest) -> Effect {
        Effect::Time(request)
    }
}

/// What the shell reports back once it has performed an effect.
#[derive(Debug, PartialEq)]
pub enum Outcome {
    Cap(String),
    Http(Vec<u8>),
    KVRead(Option<Vec<u8>>),
    KVWrite(bool),
    Platform(String),
    Time(String),
}

/// The event constructors that the app hands to its commands.
#[derive(Debug, PartialEq)]
pub enum MsgConstructor {
    /// Ignores the outcome: `|_| Msg::Nothing`.
    Ignore,
    /// `|bytes| Msg::SetFact { bytes }`.
    SetFact,
    /// `|bytes| Msg::SetImage { bytes }`.
    SetImage,
    /// `|bytes| Msg::SetState { bytes }`.
    SetState,
    /// `|iso_time| Msg::CurrentTime { iso_time }`.
    CurrentTime,
}

impl IntoEventConstructor<Outcome, Msg> for MsgConstructor {
    open spec fn accepts(&self, output: Outcome) -> bool {
        match self {
            MsgConstructor::Ignore => true,
            MsgConstructor::SetFact => output is Http,
            MsgConstructor::SetImage => output is Http,
            MsgConstructor::SetState => output is KVRead,
            MsgConstructor::CurrentTime => output is Cap || output is Platform || output is Time,
        }
    }

    open spec fn event_for(&self, output: Outcome) -> Msg {
        match (self, output) {
            (MsgConstructor::SetFact, Outcome::Http(bytes)) => Msg::SetFact { bytes },
            (MsgConstructor::SetImage, Outcome::Http(bytes)) => Msg::SetImage { bytes },
            (MsgConstructor::SetState, Outcome::KVRead(bytes)) => Msg::SetState { bytes },
            (MsgConstructor::CurrentTime, Outcome::Cap(iso_time)) => Msg::CurrentTime { iso_time },
            (MsgConstructor::CurrentTime, Outcome::Platform(iso_time)) => Msg::CurrentTime {
                iso_time,
            },
            (MsgConstructor::CurrentTime, Outcome::Time(iso_time)) => Msg::CurrentTime { iso_time },
            _ => Msg::Nothing,
        }
    }

    fn can_accept(&self, output: &Outcome) -> (ok: bool) {
        match (self, output) {
            (MsgConstructor::Ignore, _) => true,
            (MsgConstructor::SetFact, Outcome::Http(_)) => true,
            (MsgConstructor::SetImage, Outcome::Http(_)) => true,
            (MsgConstructor::SetState, Outcome::KVRead(_)) => true,
            (MsgConstructor::CurrentTime, Outcome::Cap(_)) => true,
            (MsgConstructor::CurrentTime, Outcome::Platform(_)) => true,
            (MsgConstructor::CurrentTime, Outcome::Time(_)) => true,
            _ => false,
        }
    }

    fn construct(&self, output: Outcome) -> (event: Msg) {
        match (self, output) {
            (MsgConstructor::SetFact, Outcome::Http(bytes)) => Msg::SetFact { bytes },
            (MsgConstructor::SetImage, Outcome::Http(bytes)) => Msg::SetImage { bytes },
            (MsgConstructor::SetState, Outcome::KVRead(bytes)) => Msg::SetState { bytes },
            (MsgConstructor::CurrentTime, Outcome::Cap(iso_time)) => Msg::CurrentTime { iso_time },
            (MsgConstructor::CurrentTime, Outcome::Platform(iso_time)) => Msg::CurrentTime {
                iso_time,
            },
            (MsgConstructor::CurrentTime, Outcome::Time(iso_time)) => Msg::CurrentTime { iso_time },
            _ => Msg::Nothing,
        }
    }
}

/// What the view shows as the fact: "Fact from <time>: <fact>" once both a
/// fact and the time it arrived are known, and "No fact" otherwise.
pub open spec fn fact_text(model: Model) -> Seq<char> {
    match (model.cat_fact, model.time) {
        (Some(fact), Some(time)) => "Fact from "@ + time@ + ": "@ + CatFact::formatted(
            fact.fact@,
            fact.length,
        ),
        _ => "No fact"@,
    }
}

/// Whether `a` and `b` show the same picture (or both show none).
pub open spec fn same_image(a: Option<CatImage>, b: Option<CatImage>) -> bool {
    match (a, b) {
        (Some(x), Some(y)) => x.file@ == y.file@,
        (None, None) => true,
        _ => false,
    }
}

/// The command asks the shell to render the view, and expects nothing back.
pub open spec fn renders(cmd: Command<Effect, MsgConstructor>) -> bool {
    &&& cmd.effect is Render
    &&& cmd.event_constructor is None
}

/// The command fetches `url` with a GET request and hands the body to `ctor`.
pub open spec fn fetches(cmd: Command<Effect, MsgConstructor>, url: Seq<char>, ctor: MsgConstructor) -> bool {
    &&& cmd.effect matches Effect::Http(request) && request.url@ == url && request.method is Get
    &&& cmd.event_constructor == Some(ctor)
}

/// The command reads the saved state and hands it to `SetState`.
pub open spec fn reads_state(cmd: Command<Effect, MsgConstructor>) -> bool {
    &&& cmd.effect matches Effect::KVRead(Key(key)) && key@ == state_key()
    &&& cmd.event_constructor == Some(MsgConstructor::SetState)
}

/// The command asks for the current time and hands it to `CurrentTime`.
pub open spec fn asks_time(cmd: Command<Effect, MsgConstructor>) -> bool {
    &&& cmd.effect is Time
    &&& cmd.event_constructor == Some(MsgConstructor::CurrentTime)
}

/// The update that starts loading a new fact and picture: the picture
/// becomes the loading one and both are requested, then the view renders.
pub open spec fn fetching(before: Model, after: Model, cmds: Seq<Command<Effect, MsgConstructor>>) -> bool {
    &&& after.cat_fact == before.cat_fact
    &&& after.time == before.time
    &&& after.cat_image matches Some(image) && image.file@ == cat_loading_url()
    &&& cmds.len() == 3
    &&& fetches(cmds[0], fact_api_url(), MsgConstructor::SetFact)
    &&& fetches(cmds[1], image_api_url(), MsgConstructor::SetImage)
    &&& renders(cmds[2])
}

/// The cat facts app.
///
/// The app keeps its state in JSON; turning bytes into values and values
/// into bytes is the business of the functions it is built with:
/// `encode_model` writes a model, and `decode_fact`, `decode_image` and
/// `decode_model` read what the services and the store hand back.
pub struct CatFacts<E, F, I, S> {
    pub encode_model: E,
    pub decode_fact: F,
    pub decode_image: I,
    pub decode_model: S,
}

impl<E, F, I, S> CatFacts<E, F, I, S> where
    E: Fn(&Model) -> Vec<u8>,
    F: Fn(&Vec<u8>) -> CatFact,
    I: Fn(&Vec<u8>) -> CatImage,
    S: Fn(&Vec<u8>) -> Model,
 {
    /// The app with the given ways to write and read its data.
    pub fn new(encode_model: E, decode_fact: F, decode_image: I, decode_model: S) -> (app: Self)
        ensures
            app.encode_model == encode_model,
            app.decode_fact == decode_fact,
            app.decode_image == decode_image,
            app.decode_model == decode_model,
    {
        CatFacts { encode_model, decode_fact, decode_image, decode_model }
    }

    /// The encoder can write any model.
    pub open spec fn encoder_ready(&self) -> bool {
        forall|m: Model| #[trigger] call_requires(self.encode_model, (&m,))
    }

    /// `update` can handle `msg`: the encoder can write any model, and the
    /// bytes in `msg`, if any, meet the precondition of the decoder that
    /// reads them.
    pub open spec fn can_handle(&self, msg: Msg) -> bool {
        &&& self.encoder_ready()
        &&& match msg {
            Msg::SetFact { bytes } => call_requires(self.decode_fact, (&bytes,)),
            Msg::SetImage { bytes } => call_requires(self.decode_image, (&bytes,)),
            Msg::SetState { bytes: Some(b) } => call_requires(self.decode_model, (&b,)),
            _ => true,
        }
    }

    /// The command saves `model`, as `encode_model` writes it, under the
    /// state key, and ignores the outcome.
    pub open spec fn persists(&self, cmd: Command<Effect, MsgConstructor>, model: Model) -> bool {
        &&& cmd.effect matches Effect::KVWrite(KeyValue(Key(key), bytes)) && key@ == state_key()
            && call_ensures(self.encode_model, (&model,), bytes)
        &&& cmd.event_constructor == Some(MsgConstructor::Ignore)
    }

    /// What `update` does with `msg`: the model goes from `before` to
    /// `after`, and `cmds` are the commands it returns.
    pub open spec fn updated(
        &self,
        msg: Msg,
        before: Model,
        after: Model,
        cmds: Seq<Command<Effect, MsgConstructor>>,
    ) -> bool {
        match msg {
            Msg::Nothing => after == before && cmds.len() == 0,
            Msg::Clear => {
                &&& after == (Model { cat_fact: None, cat_image: None, time: before.time })
                &&& cmds.len() == 2
                &&& self.persists(cmds[0], after)
                &&& renders(cmds[1])
            },
            Msg::Get => if before.cat_fact is Some {
                &&& after == before
                &&& cmds.len() == 1
                &&& renders(cmds[0])
            } else {
                fetching(before, after, cmds)
            },
            Msg::Fetch => fetching(before, after, cmds),
            Msg::SetFact { bytes } => {
                &&& after.cat_fact matches Some(fact) && call_ensures(self.decode_fact, (&bytes,), fact)
                &&& after.cat_image == before.cat_image
                &&& after.time == before.time
                &&& cmds.len() == 2
                &&& self.persists(cmds[0], after)
                &&& asks_time(cmds[1])
            },
            Msg::CurrentTime { iso_time } => {
                &&& after == (Model { cat_fact: before.cat_fact, cat_image: before.cat_image, time: Some(iso_time) })
                &&& cmds.len() == 2
                &&& self.persists(cmds[0], after)
                &&& renders(cmds[1])
            },
            Msg::SetImage { bytes } => {
                &&& after.cat_fact == before.cat_fact
                &&& after.cat_image matches Some(image) && call_ensures(self.decode_image, (&bytes,), image)
                &&& after.time == before.time
                &&& cmds.len() == 2
                &&& self.persists(cmds[0], after)
                &&& renders(cmds[1])
            },
            Msg::Restore => {
                &&& after == before
                &&& cmds.len() == 1
                &&& reads_state(cmds[0])
            },
            Msg::SetState { bytes } => {
                &&& match bytes {
                    Some(b) => call_ensures(self.decode_model, (&b,), after),
                    None => after == before,
                }
                &&& cmds.len() == 1
                &&& renders(cmds[0])
            },
        }
    }

    fn render() -> (cmd: Command<Effect, MsgConstructor>)
        ensures
            renders(cmd),
    {
        Command { effect: Effect::Render, event_constructor: None }
    }

    fn persist(&self, model: &Model) -> (cmd: Command<Effect, MsgConstructor>)
        requires
            self.encoder_ready(),
        ensures
            self.persists(cmd, *model),
    {
        let bytes = (self.encode_model)(model);
        key_value::write(String::from_str("state"), bytes, MsgConstructor::Ignore)
    }

    fn fetch_all(model: &mut Model) -> (cmds: Vec<Command<Effect, MsgConstructor>>)
        ensures
            fetching(*old(model), *final(model), cmds@),
    {
        model.cat_image = Some(CatImage::loading());
        let mut cmds = Vec::new();
        cmds.push(http::get(String::from_str("https://catfact.ninja/fact"), MsgConstructor::SetFact));
        cmds.push(http::get(String::from_str("https://aws.random.cat/meow"), MsgConstructor::SetImage));
        cmds.push(Self::render());
        cmds
    }

    /// Handles `msg`: updates the model and returns the commands for the shell.
    pub fn update(&self, msg: Msg, model: &mut Model) -> (cmds: Vec<Command<Effect, MsgConstructor>>)
        requires
            self.can_handle(msg),
        ensures
            self.updated(msg, *old(model), *final(model), cmds@),
    {
        let mut cmds = Vec::new();
        match msg {
            Msg::Nothing => {},
            Msg::Clear => {
                model.cat_fact = None;
                model.cat_image = None;
                cmds.push(self.persist(model));
                cmds.push(Self::render());
            },
            Msg::Get => {
                if model.cat_fact.is_some() {
                    cmds.push(Self::render());
                } else {
                    cmds = Self::fetch_all(model);
                }
            },
            Msg::Fetch => {
                cmds = Self::fetch_all(model);
            },
            Msg::SetFact { bytes } => {
                let fact = (self.decode_fact)(&bytes);
                model.cat_fact = Some(fact);
                cmds.push(self.persist(model));
                cmds.push(time::get(MsgConstructor::CurrentTime));
            },
            Msg::CurrentTime { iso_time } => {
                model.time = Some(iso_time);
                cmds.push(self.persist(model));
                cmds.push(Self::render());
            },
            Msg::SetImage { bytes } => {
                let image = (self.decode_image)(&bytes);
                model.cat_image = Some(image);
                cmds.push(self.persist(model));
                cmds.push(Self::render());
            },
            Msg::Restore => {
                cmds.push(key_value::read(String::from_str("state"), MsgConstructor::SetState));
            },
            Msg::SetState { bytes } => {
                match bytes {
                    Some(b) => {
                        *model = (self.decode_model)(&b);
                    },
                    None => {},
                }
                cmds.push(Self::render());
            },
        }
        cmds
    }

    /// What the app shows for `model`.
    pub fn view(&self, model: &Model) -> (view: ViewModel)
        ensures
            view.fact@ == fact_text(*model),
            same_image(view.image, model.cat_image),
    {
        let fact = match (&model.cat_fact, &model.time) {
            (Some(fact), Some(time)) => {
                let mut text = String::from_str("Fact from ");
                text.append(time.as_str());
                text.append(": ");
                let formatted = fact.format();
                text.append(formatted.as_str());
                text
            },
            _ => String::from_str("No fact"),
        };
        let image = match &model.cat_image {
            Some(image) => Some(image.duplicate()),
            None => None,
        };
        ViewModel { fact, image }
    }
}

impl<E, F, I, S> App for CatFacts<E, F, I, S> where
    E: Fn(&Model) -> Vec<u8>,
    F: Fn(&Vec<u8>) -> CatFact,
    I: Fn(&Vec<u8>) -> CatImage,
    S: Fn(&Vec<u8>) -> Model,
 {
    type Event = Msg;
    type Model = Model;
    type ViewModel = ViewModel;
    type Effect = Effect;
    type Outcome = Outcome;
    type Ctor = MsgConstructor;

    open spec fn ready(&self, event: Msg) -> bool {
        self.can_handle(event)
    }

    open spec fn updated(
        &self,
        event: Msg,
        before: Model,
        after: Model,
        cmds: Seq<Command<Effect, MsgConstructor>>,
    ) -> bool {
        CatFacts::updated(self, event, before, after, cmds)
    }

    open spec fn viewed(&self, model: Model, view: ViewModel) -> bool {
        &&& view.fact@ == fact_text(model)
        &&& same_image(view.image, model.cat_image)
    }

    fn update(&self, event: Msg, model: &mut Model) -> (cmds: Vec<Command<Effect, MsgConstructor>>) {
        CatFacts::update(self, event, model)
    }

    fn view(&self, model: &Model) -> (view: ViewModel) {
        CatFacts::view(self, model)
    }
}

impl<E, F, I, S> CatFacts<E, F, I, S> where
    E: Fn(&Model) -> Vec<u8>,
    F: Fn(&Vec<u8>) -> CatFact,
    I: Fn(&Vec<u8>) -> CatImage,
    S: Fn(&Vec<u8>) -> Model,
 {
    /// The saved state is never stale: every command of an update that
    /// writes to the store writes the model as it stands after that update.
    pub proof fn lemma_saves_current_model(
        &self,
        msg: Msg,
        before: Model,
        after: Model,
        cmds: Seq<Command<Effect, MsgConstructor>>,
    )
        requires
            self.updated(msg, before, after, cmds),
        ensures
            forall|i: int|
                0 <= i < cmds.len() && (#[trigger] cmds[i]).effect is KVWrite ==> self.persists(
                    cmds[i],
                    after,
                ),
    {
    }

    /// Restoring what was saved brings the saved model back, when the app's
    /// decoder reads back what its encoder writes: the bytes that a save
    /// command wrote for `saved`, handed back by the store as `SetState`,
    /// make the model `saved` again, and the view renders.
    pub proof fn lemma_restore_brings_back_saved(
        &self,
        saved: Model,
        save: Command<Effect, MsgConstructor>,
        bytes: Vec<u8>,
        before: Model,
        after: Model,
        cmds: Seq<Command<Effect, MsgConstructor>>,
    )
        requires
            forall|m: Model, written: Vec<u8>, read: Vec<u8>, r: Model|
                #![trigger call_ensures(self.encode_model, (&m,), written), call_ensures(self.decode_model, (&read,), r)]
                call_ensures(self.encode_model, (&m,), written) && read@ == written@
                    && call_ensures(self.decode_model, (&read,), r) ==> r == m,
            self.persists(save, saved),
            save.effect matches Effect::KVWrite(KeyValue(_, written)) && written@ == bytes@,
            self.updated((Msg::SetState { bytes: Some(bytes) }), before, after, cmds),
        ensures
            after == saved,
            cmds.len() == 1,
            renders(cmds[0]),
    {
        let written = match save.effect {
            Effect::KVWrite(KeyValue(_, written)) => written,
            _ => bytes,
        };
        assert(call_ensures(self.encode_model, (&saved,), written));
        assert(call_ensures(self.decode_model, (&bytes,), after));
    }

    /// What each event may change: only `Clear`, `SetFact` and `SetState`
    /// change the fact; only `CurrentTime` and `SetState` change the time;
    /// only `Clear`, `Get`, `Fetch`, `SetImage` and `SetState` change the
    /// picture.
    pub proof fn lemma_update_changes_only_its_part(
        &self,
        msg: Msg,
        before: Model,
        after: Model,
        cmds: Seq<Command<Effect, MsgConstructor>>,
    )
        requires
            self.updated(msg, before, after, cmds),
        ensures
            after.cat_fact != before.cat_fact ==> (msg is Clear || msg is SetFact || msg is SetState),
            after.time != before.time ==> (msg is CurrentTime || msg is SetState),
            after.cat_image != before.cat_image ==> (msg is Clear || msg is Get || msg is Fetch
                || msg is SetImage || msg is SetState),
    {
    }

    /// A new picture changes only the picture: the fact and the time stay,
    /// so the view's text stays, and the saved state keeps the fact.
    pub proof fn lemma_set_image_keeps_fact(
        &self,
        bytes: Vec<u8>,
        before: Model,
        after: Model,
        cmds: Seq<Command<Effect, MsgConstructor>>,
    )
        requires
            self.updated((Msg::SetImage { bytes }), before, after, cmds),
        ensures
            after.cat_fact == before.cat_fact,
            after.time == before.time,
            fact_text(after) == fact_text(before),
            after.cat_image matches Some(image) && call_ensures(self.decode_image, (&bytes,), image),
            cmds.len() == 2,
            self.persists(cmds[0], after),
    {
    }

    /// Clearing forgets the fact and the picture, so the view shows no fact
    /// and no picture, whatever it showed before.
    pub proof fn lemma_clear_shows_nothing(
        &self,
        before: Model,
        after: Model,
        cmds: Seq<Command<Effect, MsgConstructor>>,
    )
        requires
            self.updated(Msg::Clear, before, after, cmds),
        ensures
            fact_text(after) == "No fact"@,
            after.cat_image is None,
    {
    }

    /// Once a fact is known, `Get` changes nothing and only renders; asking
    /// again gives the same answer.
    pub proof fn lemma_get_keeps_known_fact(
        &self,
        before: Model,
        after: Model,
        cmds: Seq<Command<Effect, MsgConstructor>>,
    )
        requires
            before.cat_fact is Some,
            self.updated(Msg::Get, before, after, cmds),
        ensures
            after == before,
            cmds.len() == 1,
            renders(cmds[0]),
            self.updated(Msg::Get, after, after, cmds),
    {
    }

    /// Without a fact, `Get` does just what `Fetch` does.
    pub proof fn lemma_get_without_fact_fetches(
        &self,
        before: Model,
        after: Model,
        cmds: Seq<Command<Effect, MsgConstructor>>,
    )
        requires
            before.cat_fact is None,
        ensures
            self.updated(Msg::Get, before, after, cmds) == self.updated(Msg::Fetch, before, after, cmds),
    {
    }

    /// The commands of a fetch route their answers back: the body of the
    /// fact request comes back as `SetFact`, that of the picture request as
    /// `SetImage`.
    pub proof fn lemma_fetch_answers_come_back(
        &self,
        before: Model,
        after: Model,
        cmds: Seq<Command<Effect, MsgConstructor>>,
        fact_body: Vec<u8>,
        image_body: Vec<u8>,
    )
        requires
            self.updated(Msg::Fetch, before, after, cmds),
        ensures
            cmds[0].event_constructor matches Some(c) && c.accepts(Outcome::Http(fact_body))
                && c.event_for(Outcome::Http(fact_body)) == (Msg::SetFact { bytes: fact_body }),
            cmds[1].event_constructor matches Some(c) && c.accepts(Outcome::Http(image_body))
                && c.event_for(Outcome::Http(image_body)) == (Msg::SetImage { bytes: image_body }),
    {
    }

    /// A new fact asks for the time, and the time that comes back becomes
    /// `CurrentTime`.
    pub proof fn lemma_fact_asks_for_its_time(
        &self,
        bytes: Vec<u8>,
        before: Model,
        after: Model,
        cmds: Seq<Command<Effect, MsgConstructor>>,
        iso_time: String,
    )
        requires
            self.updated(Msg::SetFact { bytes }, before, after, cmds),
        ensures
            cmds[1].effect is Time,
            cmds[1].event_constructor matches Some(c) && c.accepts(Outcome::Time(iso_time))
                && c.event_for(Outcome::Time(iso_time)) == (Msg::CurrentTime { iso_time }),
    {
    }

    /// `Restore` changes nothing itself; it reads the saved state, and what
    /// the store hands back comes back as `SetState`.
    pub proof fn lemma_restore_reads_back(
        &self,
        before: Model,
        after: Model,
        cmds: Seq<Command<Effect, MsgConstructor>>,
        saved: Option<Vec<u8>>,
    )
        requires
            self.updated(Msg::Restore, before, after, cmds),
        ensures
            after == before,
            cmds[0].event_constructor matches Some(c) && c.accepts(Outcome::KVRead(saved))
                && c.event_for(Outcome::KVRead(saved)) == (Msg::SetState { bytes: saved }),
    {
    }
}

/// The formatted fact is the whole fact, then its length as a decimal
/// numeral that reads back as the length, in the form "fact (n bytes)".
pub proof fn lemma_format_shows_fact_and_length(fact: Seq<char>, length: i32)
    ensures
        exists|numeral: Seq<char>|
            #[trigger] reads_as(numeral, length as int) && CatFact::formatted(fact, length) == fact
                + " ("@ + numeral + " bytes)"@,
{
    lemma_decimal_reads_as(length as int);
    assert(reads_as(decimal(length as int), length as int));
}

/// The view shows a fact only once both the fact and the time it arrived
/// are known, and then shows the whole fact text, unshortened, after the
/// time, followed by its length as a decimal numeral that reads back as the
/// length; otherwise it shows "No fact".
pub proof fn lemma_view_shows_whole_fact(model: Model)
    ensures
        match (model.cat_fact, model.time) {
            (Some(fact), Some(time)) => exists|numeral: Seq<char>|
                #[trigger] reads_as(numeral, fact.length as int) && fact_text(model) == "Fact from "@
                    + time@ + ": "@ + fact.fact@ + " ("@ + numeral + " bytes)"@,
            _ => fact_text(model) == "No fact"@,
        },
{
    match (model.cat_fact, model.time) {
        (Some(fact), Some(time)) => {
            lemma_decimal_reads_as(fact.length as int);
            assert(reads_as(decimal(fact.length as int), fact.length as int));
            assert(fact_text(model) =~= "Fact from "@ + time@ + ": "@ + fact.fact@ + " ("@
                + decimal(fact.length as int) + " bytes)"@);
        },
        _ => {},
    }
}

/// The ignoring constructor takes every outcome and builds the empty event,
/// so the outcome of a save (a success or a failure alike) never changes
/// the app.
pub proof fn lemma_ignore_builds_nothing(outcome: Outcome)
    ensures
        MsgConstructor::Ignore.accepts(outcome),
        MsgConstructor::Ignore.event_for(outcome) == Msg::Nothing,
{
}

/// Each other constructor takes exactly the outcomes of its own effect and
/// passes their payload on unchanged in its own event: the body of an HTTP
/// response as `SetFact` or `SetImage`, what the store read as `SetState`,
/// the time string as `CurrentTime`.
pub proof fn lemma_constructors_pass_payload_on(outcome: Outcome)
    ensures
        MsgConstructor::SetFact.accepts(outcome) <==> outcome is Http,
        MsgConstructor::SetImage.accepts(outcome) <==> outcome is Http,
        MsgConstructor::SetState.accepts(outcome) <==> outcome is KVRead,
        MsgConstructor::CurrentTime.accepts(outcome) <==> (outcome is Cap || outcome is Platform
            || outcome is Time),
        outcome matches Outcome::Http(b) ==> MsgConstructor::SetFact.event_for(outcome) == (Msg::SetFact { bytes: b })
            && MsgConstructor::SetImage.event_for(outcome) == (Msg::SetImage { bytes: b }),
        outcome matches Outcome::KVRead(b) ==> MsgConstructor::SetState.event_for(outcome) == (Msg::SetState { bytes: b }),
        outcome matches Outcome::Time(t) ==> MsgConstructor::CurrentTime.event_for(outcome) == (Msg::CurrentTime { iso_time: t }),
        outcome matches Outcome::Cap(t) ==> MsgConstructor::CurrentTime.event_for(outcome) == (Msg::CurrentTime { iso_time: t }),
        outcome matches Outcome::Platform(t) ==> MsgConstructor::CurrentTime.event_for(outcome) == (Msg::CurrentTime { iso_time: t }),
{
}

} // verus!
