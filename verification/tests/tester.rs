use crux_core::cat_fact::{CatFact, CatFacts, CatImage, Effect, Model, Msg, MsgConstructor, Outcome};
use crux_core::http;
use crux_core::testing::AppTester;
use serde_json::Value;

fn encode(model: &Model) -> Vec<u8> {
    format!("{:?}", model.time).into_bytes()
}

fn decode_fact(bytes: &Vec<u8>) -> CatFact {
    let v: Value = serde_json::from_slice(bytes).unwrap();
    CatFact { fact: v["fact"].as_str().unwrap().to_string(), length: v["length"].as_i64().unwrap() as i32 }
}

fn decode_image(bytes: &Vec<u8>) -> CatImage {
    let v: Value = serde_json::from_slice(bytes).unwrap();
    CatImage { file: v["file"].as_str().unwrap().to_string() }
}

fn decode_model(_bytes: &Vec<u8>) -> Model {
    Model::new()
}

type App = CatFacts<
    fn(&Model) -> Vec<u8>,
    fn(&Vec<u8>) -> CatFact,
    fn(&Vec<u8>) -> CatImage,
    fn(&Vec<u8>) -> Model,
>;

fn tester() -> AppTester<App> {
    AppTester::new(CatFacts::new(encode, decode_fact, decode_image, decode_model))
}

#[test]
fn tester_hands_out_effects_in_order() {
    let mut t = tester();
    let mut model = Model::new();
    let update = t.update(Msg::Fetch, &mut model);
    assert_eq!(update.effects.len(), 3);
    assert!(update.events.is_empty());
    assert!(update.effects[2] == Effect::Render);
    for e in &update.effects {
        assert_eq!(e.request.uuid.len(), 16);
    }
    assert_ne!(update.effects[0].request.uuid, update.effects[1].request.uuid);
}

#[test]
fn filter_effects_keeps_matching_in_order() {
    let mut t = tester();
    let mut model = Model::new();
    let update = t.update(Msg::Fetch, &mut model);
    let http: Vec<_> = update.filter_effects(|e: &Effect| matches!(e, Effect::Http(_)));
    assert_eq!(http.len(), 2);
    assert_eq!(http[0].request.uuid, update.effects[0].request.uuid);
    assert_eq!(http[1].request.uuid, update.effects[1].request.uuid);
    let none = update.filter_effects(|_e: &Effect| false);
    assert!(none.is_empty());
}

#[test]
fn filter_map_effects_maps_and_keeps_ids() {
    let mut t = tester();
    let mut model = Model::new();
    let update = t.update(Msg::Fetch, &mut model);
    let urls = update.filter_map_effects(|e: &Effect| match e {
        Effect::Http(http::Request { url, .. }) => Some(url.clone()),
        _ => None,
    });
    assert_eq!(urls.len(), 2);
    assert_eq!(urls[0].request.effect, "https://catfact.ninja/fact");
    assert_eq!(urls[1].request.effect, "https://aws.random.cat/meow");
    assert_eq!(urls[0].request.uuid, update.effects[0].request.uuid);
    assert_eq!(urls[1].request.uuid, update.effects[1].request.uuid);
}

#[test]
fn map_keeps_the_request_id() {
    let mut t = tester();
    let mut model = Model::new();
    let update = t.update(Msg::Restore, &mut model);
    let mapped = update.effects[0].map(|e: &Effect| matches!(e, Effect::KVRead(_)));
    assert!(mapped.request.effect);
    assert_eq!(mapped.request.uuid, update.effects[0].request.uuid);
    assert_eq!(update.effects[0].as_ref(), &update.effects[0].request.effect);
}

#[test]
fn resolve_routes_outcome_back_as_event() {
    let mut t = tester();
    let mut model = Model::new();
    let update = t.update(Msg::Fetch, &mut model);
    let body = br#"{"fact":"Cats purr.","length":10}"#.to_vec();
    let resolved = update.effects[0].resolve(&mut t, Outcome::Http(body.clone()));
    assert!(resolved.effects.is_empty());
    assert_eq!(resolved.events.len(), 1);
    assert_eq!(resolved.events[0], Msg::SetFact { bytes: body });
    let mut events = resolved.events;
    let next = t.update(events.remove(0), &mut model);
    assert_eq!(model.cat_fact, Some(CatFact { fact: "Cats purr.".to_string(), length: 10 }));
    assert_eq!(next.effects.len(), 2);
    let time = next.effects[1].resolve(&mut t, Outcome::Time("2022-02-02".to_string()));
    assert_eq!(time.events[0], Msg::CurrentTime { iso_time: "2022-02-02".to_string() });
    let mut events = time.events;
    let _ = t.update(events.remove(0), &mut model);
    assert_eq!(t.view(&model).fact, "Fact from 2022-02-02: Cats purr. (10 bytes)");
}

#[test]
fn ignored_outcome_gives_nothing_event() {
    let mut t = tester();
    let mut model = Model::new();
    let update = t.update(Msg::CurrentTime { iso_time: "t".to_string() }, &mut model);
    let resolved = update.effects[0].resolve(&mut t, Outcome::KVWrite(true));
    assert_eq!(resolved.events, vec![Msg::Nothing]);
}


#[test]
fn can_resolve_only_pending_effects() {
    let mut t = tester();
    let mut model = Model::new();
    let update = t.update(Msg::Restore, &mut model);
    assert!(t.can_resolve(&update.effects[0], &Outcome::KVRead(None)));
    assert!(!t.can_resolve(&update.effects[0], &Outcome::Http(vec![])));
    let _ = update.effects[0].resolve(&mut t, Outcome::KVRead(None));
    assert!(!t.can_resolve(&update.effects[0], &Outcome::KVRead(None)));
    let render = t.update(Msg::SetState { bytes: None }, &mut model);
    assert!(!t.can_resolve(&render.effects[0], &Outcome::KVWrite(true)));
}

#[test]
fn filter_map_finds_what_filter_finds() {
    let mut t = tester();
    let mut model = Model::new();
    let update = t.update(Msg::Fetch, &mut model);
    let is_http = |e: &Effect| matches!(e, Effect::Http(_));
    let filtered = update.filter_effects(is_http);
    let mapped = update.filter_map_effects(|e: &Effect| if is_http(e) { Some(1u8) } else { None });
    assert_eq!(filtered.len(), mapped.len());
    for k in 0..filtered.len() {
        assert_eq!(filtered[k].request.uuid, mapped[k].request.uuid);
        assert_eq!(mapped[k].request.effect, 1u8);
    }
}

#[test]
fn map_twice_composes() {
    let mut t = tester();
    let mut model = Model::new();
    let update = t.update(Msg::Restore, &mut model);
    let once = update.effects[0].map(|e: &Effect| matches!(e, Effect::KVRead(_)));
    let twice = once.map(|b: &bool| if *b { 10u32 } else { 20u32 });
    assert_eq!(twice.request.uuid, update.effects[0].request.uuid);
    assert_eq!(twice.request.effect, 10u32);
}

#[test]
fn mapped_effect_resolves_the_same_continuation() {
    let mut t = tester();
    let mut model = Model::new();
    let update = t.update(Msg::Restore, &mut model);
    let mapped = update.effects[0].map(|_e: &Effect| ());
    let resolved = mapped.resolve(&mut t, Outcome::KVRead(Some(vec![1, 2])));
    assert_eq!(resolved.events, vec![Msg::SetState { bytes: Some(vec![1, 2]) }]);
    assert!(!t.can_resolve(&update.effects[0], &Outcome::KVRead(None)));
}
