use crux_core::cat_fact::{CatFact, CatFacts, CatImage, Effect, Model, Msg, MsgConstructor, Outcome};
use crux_core::http::{self, Method};
use crux_core::key_value::{Key, KeyValue};
use crux_core::time::TimeRequest;
use crux_core::{Command, IntoEventConstructor};
use serde_json::Value;

const LOADING: &str = "https://c.tenor.com/qACzaJ1EBVYAAAAd/tenor.gif";

fn opt_string(s: &Option<String>) -> Value {
    match s {
        Some(s) => Value::String(s.clone()),
        None => Value::Null,
    }
}

fn encode(model: &Model) -> Vec<u8> {
    let mut m = serde_json::Map::new();
    let fact = match &model.cat_fact {
        Some(f) => {
            let mut o = serde_json::Map::new();
            o.insert("fact".to_string(), Value::String(f.fact.clone()));
            o.insert("length".to_string(), Value::from(f.length));
            Value::Object(o)
        }
        None => Value::Null,
    };
    let image = match &model.cat_image {
        Some(i) => {
            let mut o = serde_json::Map::new();
            o.insert("file".to_string(), Value::String(i.file.clone()));
            Value::Object(o)
        }
        None => Value::Null,
    };
    m.insert("cat_fact".to_string(), fact);
    m.insert("cat_image".to_string(), image);
    m.insert("time".to_string(), opt_string(&model.time));
    serde_json::to_vec(&Value::Object(m)).unwrap()
}

fn fact_of(v: &Value) -> CatFact {
    CatFact { fact: v["fact"].as_str().unwrap().to_string(), length: v["length"].as_i64().unwrap() as i32 }
}

fn image_of(v: &Value) -> CatImage {
    CatImage { file: v["file"].as_str().unwrap().to_string() }
}

fn decode_fact(bytes: &Vec<u8>) -> CatFact {
    fact_of(&serde_json::from_slice::<Value>(bytes).unwrap())
}

fn decode_image(bytes: &Vec<u8>) -> CatImage {
    image_of(&serde_json::from_slice::<Value>(bytes).unwrap())
}

fn decode_model(bytes: &Vec<u8>) -> Model {
    let v: Value = serde_json::from_slice(bytes).unwrap();
    Model {
        cat_fact: if v["cat_fact"].is_null() { None } else { Some(fact_of(&v["cat_fact"])) },
        cat_image: if v["cat_image"].is_null() { None } else { Some(image_of(&v["cat_image"])) },
        time: v["time"].as_str().map(|s| s.to_string()),
    }
}

type App = CatFacts<
    fn(&Model) -> Vec<u8>,
    fn(&Vec<u8>) -> CatFact,
    fn(&Vec<u8>) -> CatImage,
    fn(&Vec<u8>) -> Model,
>;

fn app() -> App {
    CatFacts::new(encode, decode_fact, decode_image, decode_model)
}

fn fact(text: &str, length: i32) -> CatFact {
    CatFact { fact: text.to_string(), length }
}

fn full_model() -> Model {
    Model {
        cat_fact: Some(fact("Cats sleep a lot.", 17)),
        cat_image: Some(CatImage { file: "https://example.com/cat.jpg".to_string() }),
        time: Some("2022-01-01T00:00:00Z".to_string()),
    }
}

fn is_render(cmd: &Command<Effect, MsgConstructor>) -> bool {
    cmd.effect == Effect::Render && cmd.event_constructor.is_none()
}

fn saved_bytes(cmd: &Command<Effect, MsgConstructor>) -> Vec<u8> {
    match &cmd.effect {
        Effect::KVWrite(KeyValue(Key(key), bytes)) => {
            assert_eq!(key, "state");
            assert_eq!(cmd.event_constructor, Some(MsgConstructor::Ignore));
            bytes.clone()
        }
        other => panic!("not a write: {:?}", other),
    }
}

#[test]
fn format_writes_fact_and_length() {
    assert_eq!(fact("Cats purr.", 10).format(), "Cats purr. (10 bytes)");
    assert_eq!(fact("", 0).format(), " (0 bytes)");
    assert_eq!(fact("x", -45).format(), "x (-45 bytes)");
    assert_eq!(fact("max", i32::MAX).format(), "max (2147483647 bytes)");
    assert_eq!(fact("min", i32::MIN).format(), "min (-2147483648 bytes)");
}

#[test]
fn default_image_is_the_loading_picture() {
    assert_eq!(CatImage::default().file, LOADING);
    assert_eq!(CatImage::loading().file, LOADING);
}

#[test]
fn view_without_fact_says_no_fact() {
    let view = app().view(&Model::new());
    assert_eq!(view.fact, "No fact");
    assert_eq!(view.image, None);
}

#[test]
fn view_without_time_says_no_fact() {
    let mut model = full_model();
    model.time = None;
    assert_eq!(app().view(&model).fact, "No fact");
}

#[test]
fn view_with_fact_and_time() {
    let view = app().view(&full_model());
    assert_eq!(view.fact, "Fact from 2022-01-01T00:00:00Z: Cats sleep a lot. (17 bytes)");
    assert_eq!(view.image, Some(CatImage { file: "https://example.com/cat.jpg".to_string() }));
}

#[test]
fn nothing_does_nothing() {
    let mut model = full_model();
    let cmds = app().update(Msg::Nothing, &mut model);
    assert!(cmds.is_empty());
    assert_eq!(model, full_model());
}

#[test]
fn clear_forgets_fact_and_image_and_saves() {
    let mut model = full_model();
    let cmds = app().update(Msg::Clear, &mut model);
    assert_eq!(model.cat_fact, None);
    assert_eq!(model.cat_image, None);
    assert_eq!(model.time, Some("2022-01-01T00:00:00Z".to_string()));
    assert_eq!(cmds.len(), 2);
    assert_eq!(saved_bytes(&cmds[0]), encode(&model));
    assert!(is_render(&cmds[1]));
    assert_eq!(app().view(&model).fact, "No fact");
}

#[test]
fn get_with_fact_only_renders() {
    let mut model = full_model();
    let cmds = app().update(Msg::Get, &mut model);
    assert_eq!(cmds.len(), 1);
    assert!(is_render(&cmds[0]));
    assert_eq!(model, full_model());
}

fn check_fetch(cmds: &[Command<Effect, MsgConstructor>]) {
    assert_eq!(cmds.len(), 3);
    assert_eq!(
        cmds[0].effect,
        Effect::Http(http::Request { url: "https://catfact.ninja/fact".to_string(), method: Method::Get })
    );
    assert_eq!(cmds[0].event_constructor, Some(MsgConstructor::SetFact));
    assert_eq!(
        cmds[1].effect,
        Effect::Http(http::Request { url: "https://aws.random.cat/meow".to_string(), method: Method::Get })
    );
    assert_eq!(cmds[1].event_constructor, Some(MsgConstructor::SetImage));
    assert!(is_render(&cmds[2]));
}

#[test]
fn get_without_fact_fetches() {
    let mut model = Model::new();
    let cmds = app().update(Msg::Get, &mut model);
    check_fetch(&cmds);
    assert_eq!(model.cat_image, Some(CatImage { file: LOADING.to_string() }));
    assert_eq!(model.cat_fact, None);
}

#[test]
fn fetch_always_fetches() {
    let mut model = full_model();
    let cmds = app().update(Msg::Fetch, &mut model);
    check_fetch(&cmds);
    assert_eq!(model.cat_image, Some(CatImage { file: LOADING.to_string() }));
    assert_eq!(model.cat_fact, full_model().cat_fact);
    assert_eq!(model.time, full_model().time);
}

#[test]
fn set_fact_stores_fact_saves_and_asks_time() {
    let mut model = Model::new();
    let body = br#"{"fact":"Cats have five toes.","length":20}"#.to_vec();
    let cmds = app().update(Msg::SetFact { bytes: body }, &mut model);
    assert_eq!(model.cat_fact, Some(fact("Cats have five toes.", 20)));
    assert_eq!(cmds.len(), 2);
    assert_eq!(saved_bytes(&cmds[0]), encode(&model));
    assert_eq!(cmds[1].effect, Effect::Time(TimeRequest));
    assert_eq!(cmds[1].event_constructor, Some(MsgConstructor::CurrentTime));
}

#[test]
fn current_time_stores_time_and_saves() {
    let mut model = Model::new();
    let cmds = app().update(Msg::CurrentTime { iso_time: "noon".to_string() }, &mut model);
    assert_eq!(model.time, Some("noon".to_string()));
    assert_eq!(cmds.len(), 2);
    assert_eq!(saved_bytes(&cmds[0]), encode(&model));
    assert!(is_render(&cmds[1]));
}

#[test]
fn set_image_stores_image_and_saves() {
    let mut model = Model::new();
    let body = br#"{"file":"https://example.com/x.png"}"#.to_vec();
    let cmds = app().update(Msg::SetImage { bytes: body }, &mut model);
    assert_eq!(model.cat_image, Some(CatImage { file: "https://example.com/x.png".to_string() }));
    assert_eq!(cmds.len(), 2);
    assert_eq!(saved_bytes(&cmds[0]), encode(&model));
    assert!(is_render(&cmds[1]));
}

#[test]
fn restore_reads_state() {
    let mut model = full_model();
    let cmds = app().update(Msg::Restore, &mut model);
    assert_eq!(model, full_model());
    assert_eq!(cmds.len(), 1);
    assert_eq!(cmds[0].effect, Effect::KVRead(Key("state".to_string())));
    assert_eq!(cmds[0].event_constructor, Some(MsgConstructor::SetState));
}

#[test]
fn set_state_restores_saved_model() {
    let saved = encode(&full_model());
    let mut model = Model::new();
    let event = MsgConstructor::SetState.construct(Outcome::KVRead(Some(saved)));
    let cmds = app().update(event, &mut model);
    assert_eq!(model, full_model());
    assert_eq!(cmds.len(), 1);
    assert!(is_render(&cmds[0]));
}

#[test]
fn set_state_without_saved_state_keeps_model() {
    let mut model = full_model();
    let cmds = app().update(Msg::SetState { bytes: None }, &mut model);
    assert_eq!(model, full_model());
    assert_eq!(cmds.len(), 1);
    assert!(is_render(&cmds[0]));
}

#[test]
fn saved_state_is_the_current_model() {
    let mut model = Model::new();
    let cmds = app().update(Msg::CurrentTime { iso_time: "t1".to_string() }, &mut model);
    let saved = saved_bytes(&cmds[0]);
    assert_eq!(decode_model(&saved), model);
}

#[test]
fn defaults_are_empty() {
    assert_eq!(CatFact::default(), fact("", 0));
    assert_eq!(Model::default(), Model::new());
    assert_eq!(Model::default().cat_fact, None);
    let view = crux_core::cat_fact::ViewModel::default();
    assert_eq!(view.fact, "");
    assert_eq!(view.image, None);
}
