use crux_core::cat_fact::{Effect, Msg, MsgConstructor, Outcome};
use crux_core::http::{self, Method};
use crux_core::key_value::{self, Key, KeyValue};
use crux_core::platform::{self, PlatformRequest};
use crux_core::time::{self, TimeRequest};
use crux_core::{Command, ContinuationStore, IntoEventConstructor, Request, Response};

#[test]
fn http_get_builds_a_get_request() {
    let cmd: Command<Effect, MsgConstructor> =
        http::get("https://example.com/a".to_string(), MsgConstructor::SetFact);
    assert_eq!(
        cmd.effect,
        Effect::Http(http::Request { url: "https://example.com/a".to_string(), method: Method::Get })
    );
    assert_eq!(cmd.event_constructor, Some(MsgConstructor::SetFact));
}

#[test]
fn key_value_read_builds_a_key() {
    let cmd: Command<Effect, MsgConstructor> = key_value::read("state".to_string(), MsgConstructor::SetState);
    assert_eq!(cmd.effect, Effect::KVRead(Key("state".to_string())));
    assert_eq!(cmd.event_constructor, Some(MsgConstructor::SetState));
}

#[test]
fn key_value_write_builds_a_key_and_value() {
    let cmd: Command<Effect, MsgConstructor> =
        key_value::write("k".to_string(), vec![1, 2, 3], MsgConstructor::Ignore);
    assert_eq!(cmd.effect, Effect::KVWrite(KeyValue(Key("k".to_string()), vec![1, 2, 3])));
    assert_eq!(cmd.event_constructor, Some(MsgConstructor::Ignore));
}

#[test]
fn platform_get_asks_for_the_platform() {
    let cmd: Command<Effect, MsgConstructor> = platform::get(MsgConstructor::Ignore);
    assert_eq!(cmd.effect, Effect::Platform(PlatformRequest));
    assert_eq!(cmd.event_constructor, Some(MsgConstructor::Ignore));
}

#[test]
fn time_get_asks_for_the_time() {
    let cmd: Command<Effect, MsgConstructor> = time::get(MsgConstructor::CurrentTime);
    assert_eq!(cmd.effect, Effect::Time(TimeRequest));
    assert_eq!(cmd.event_constructor, Some(MsgConstructor::CurrentTime));
}

#[test]
fn constructors_build_their_events() {
    assert_eq!(MsgConstructor::Ignore.construct(Outcome::KVWrite(true)), Msg::Nothing);
    assert_eq!(
        MsgConstructor::SetFact.construct(Outcome::Http(vec![7])),
        Msg::SetFact { bytes: vec![7] }
    );
    assert_eq!(
        MsgConstructor::SetImage.construct(Outcome::Http(vec![8])),
        Msg::SetImage { bytes: vec![8] }
    );
    assert_eq!(
        MsgConstructor::SetState.construct(Outcome::KVRead(None)),
        Msg::SetState { bytes: None }
    );
    assert_eq!(
        MsgConstructor::CurrentTime.construct(Outcome::Time("noon".to_string())),
        Msg::CurrentTime { iso_time: "noon".to_string() }
    );
    assert_eq!(
        MsgConstructor::CurrentTime.construct(Outcome::Platform("ios".to_string())),
        Msg::CurrentTime { iso_time: "ios".to_string() }
    );
}

#[test]
fn partially_applied_constructor_calls_later() {
    let f = MsgConstructor::SetFact.into_event_constructor(Outcome::Http(vec![1, 2]));
    assert_eq!(f.call(), Msg::SetFact { bytes: vec![1, 2] });
}

#[test]
fn pause_gives_a_version_four_uuid() {
    let mut store: ContinuationStore<MsgConstructor> = ContinuationStore::new();
    let request: Request<Effect> = store.pause(Effect::Render, None);
    assert_eq!(request.uuid.len(), 16);
    assert_eq!(request.uuid[6] >> 4, 4);
    assert_eq!(request.uuid[8] >> 6, 2);
    assert_eq!(request.effect, Effect::Render);
    assert!(!store.is_paused(&request.uuid));
}

#[test]
fn pause_then_resume_hands_the_outcome_over() {
    let mut store: ContinuationStore<MsgConstructor> = ContinuationStore::default();
    let request = store.pause(Effect::Time(TimeRequest), Some(MsgConstructor::CurrentTime));
    assert!(store.is_paused(&request.uuid));
    let event = store.resume(Response {
        uuid: request.uuid.clone(),
        outcome: Outcome::Time("2024-01-01T00:00:00Z".to_string()),
    });
    assert_eq!(event, Msg::CurrentTime { iso_time: "2024-01-01T00:00:00Z".to_string() });
    assert!(!store.is_paused(&request.uuid));
}

#[test]
fn two_pauses_get_different_ids() {
    let mut store: ContinuationStore<MsgConstructor> = ContinuationStore::new();
    let a = store.pause(Effect::Render, Some(MsgConstructor::Ignore));
    let b = store.pause(Effect::Render, Some(MsgConstructor::Ignore));
    assert_ne!(a.uuid, b.uuid);
    assert!(store.is_paused(&a.uuid));
    assert!(store.is_paused(&b.uuid));
    let _ = store.resume(Response { uuid: a.uuid.clone(), outcome: Outcome::KVWrite(true) });
    assert!(!store.is_paused(&a.uuid));
    assert!(store.is_paused(&b.uuid));
}

#[test]
fn pause_with_known_uuid_replaces_the_continuation() {
    let mut store: ContinuationStore<MsgConstructor> = ContinuationStore::new();
    let id = vec![9u8; 16];
    let first = store.pause_with_uuid(id.clone(), Effect::Render, Some(MsgConstructor::SetFact));
    assert_eq!(first.uuid, id);
    let _ = store.pause_with_uuid(id.clone(), Effect::Render, Some(MsgConstructor::SetImage));
    let event = store.resume(Response { uuid: id.clone(), outcome: Outcome::Http(vec![5]) });
    assert_eq!(event, Msg::SetImage { bytes: vec![5] });
    assert!(!store.is_paused(&id));
}

#[test]
fn pause_without_constructor_keeps_nothing() {
    let mut store: ContinuationStore<MsgConstructor> = ContinuationStore::new();
    let id = vec![1u8; 16];
    let request = store.pause_with_uuid(id.clone(), Effect::Render, None);
    assert_eq!(request.uuid, id);
    assert!(!store.is_paused(&id));
}

#[test]
fn can_resume_checks_id_and_kind() {
    let mut store: ContinuationStore<MsgConstructor> = ContinuationStore::new();
    let id = vec![3u8; 16];
    let _ = store.pause_with_uuid(id.clone(), Effect::Render, Some(MsgConstructor::SetFact));
    assert!(store.can_resume(&id, &Outcome::Http(vec![])));
    assert!(!store.can_resume(&id, &Outcome::KVWrite(true)));
    assert!(!store.can_resume(&[4u8; 16], &Outcome::Http(vec![])));
}

#[test]
fn ids_of_other_lengths_are_never_paused() {
    let mut store: ContinuationStore<MsgConstructor> = ContinuationStore::new();
    let id = vec![0u8; 16];
    let _ = store.pause_with_uuid(id.clone(), Effect::Render, Some(MsgConstructor::Ignore));
    assert!(store.is_paused(&id));
    assert!(!store.is_paused(&[0u8; 15]));
    assert!(!store.is_paused(&[0u8; 17]));
    assert!(!store.can_resume(&[], &Outcome::KVWrite(true)));
}

#[test]
fn ids_differing_in_one_byte_are_kept_apart() {
    let mut store: ContinuationStore<MsgConstructor> = ContinuationStore::new();
    let mut a = vec![0u8; 16];
    let mut b = vec![0u8; 16];
    a[15] = 1;
    b[0] = 1;
    let _ = store.pause_with_uuid(a.clone(), Effect::Render, Some(MsgConstructor::SetFact));
    let _ = store.pause_with_uuid(b.clone(), Effect::Render, Some(MsgConstructor::SetImage));
    let ea = store.resume(Response { uuid: a.clone(), outcome: Outcome::Http(vec![1]) });
    assert_eq!(ea, Msg::SetFact { bytes: vec![1] });
    assert!(store.is_paused(&b));
    let eb = store.resume(Response { uuid: b.clone(), outcome: Outcome::Http(vec![2]) });
    assert_eq!(eb, Msg::SetImage { bytes: vec![2] });
}
