use cafe_core::chunk::json_equal;
use cafe_core::bus::protocol::{replay_messages, ReplayMessage};
use cafe_core::bus::filter::{chunk_matches_filter, session_matches_filter, SubscribeFilter};
use cafe_core::bus::protocol::{
    connection_id, create_session, delete_session, publish_request, subscribe_snapshot,
    BusError, ConnectionCounter, NewSessionConfig, PublishOutcome,
};
use cafe_core::bus::registry::{DeletionPlan, SessionRegistry};
use cafe_core::bus::session::{EphemeralConfig, SessionState};
use cafe_core::chunk::{
    Chunk, ContentType, JsonNumber, JsonValue, CAFE_DIRECT_TO, CAFE_RETAIN_SECS,
    CAFE_SOURCE_CONNECTION, CAFE_TRANSIENT,
};

fn s(v: &str) -> JsonValue {
    JsonValue::Str(v.to_string())
}

fn null_chunk(producer: &str) -> Chunk {
    Chunk::new_null("n-1".into(), producer.into())
}

fn text_chunk(content: &str) -> Chunk {
    Chunk::new_text(format!("id-{content}"), content.into(), "test".into())
}

fn transient(mut c: Chunk) -> Chunk {
    c.set_annotation(CAFE_TRANSIENT.into(), JsonValue::Bool(true));
    c
}

fn retained(c: Chunk, secs: u64) -> Chunk {
    let mut c = transient(c);
    c.set_annotation(CAFE_RETAIN_SECS.into(), JsonValue::Number(JsonNumber::PosInt(secs)));
    c
}

fn test_chunk() -> Chunk {
    let mut c = null_chunk("test");
    c.set_annotation("key1".into(), s("value1"));
    c
}

fn test_session(id: &str, agent: &str) -> SessionState {
    SessionState::new(id.into(), agent.into())
}

#[test]
fn chunk_filter_no_filter() {
    let f = SubscribeFilter::default();
    assert!(chunk_matches_filter(&test_chunk(), &f));
}

#[test]
fn chunk_filter_by_content_type() {
    let f = SubscribeFilter { content_types: Some(vec![ContentType::Text]), ..Default::default() };
    let text = text_chunk("hello");
    let mut bin = null_chunk("test");
    bin.content_type = ContentType::Binary;
    bin.data = Some(vec![1, 2]);
    assert!(chunk_matches_filter(&text, &f));
    assert!(!chunk_matches_filter(&bin, &f));
    assert!(!chunk_matches_filter(&null_chunk("test"), &f));
}

#[test]
fn chunk_filter_by_annotation() {
    let f = SubscribeFilter { annotations: Some(vec![("key1".into(), s("value1"))]), ..Default::default() };
    let matching = test_chunk();
    let mut non_matching = null_chunk("test");
    non_matching.set_annotation("key1".into(), s("wrong"));
    assert!(chunk_matches_filter(&matching, &f));
    assert!(!chunk_matches_filter(&non_matching, &f));
}

#[test]
fn chunk_filter_both_type_and_annotation() {
    let f = SubscribeFilter {
        content_types: Some(vec![ContentType::Text]),
        annotations: Some(vec![("key1".into(), s("value1"))]),
        ..Default::default()
    };
    let mut chunk = text_chunk("hello");
    chunk.set_annotation("key1".into(), s("value1"));
    assert!(chunk_matches_filter(&chunk, &f));
    let mut wrong_type = null_chunk("test");
    wrong_type.content_type = ContentType::Binary;
    wrong_type.set_annotation("key1".into(), s("value1"));
    assert!(!chunk_matches_filter(&wrong_type, &f));
    let mut wrong_ann = text_chunk("hello");
    wrong_ann.set_annotation("key1".into(), s("wrong"));
    assert!(!chunk_matches_filter(&wrong_ann, &f));
}

#[test]
fn chunk_filter_false_matches_absent() {
    let f = SubscribeFilter { annotations: Some(vec![("missing".into(), JsonValue::Bool(false))]), ..Default::default() };
    assert!(chunk_matches_filter(&test_chunk(), &f));
    let f = SubscribeFilter { annotations: Some(vec![("key1".into(), JsonValue::Bool(false))]), ..Default::default() };
    assert!(!chunk_matches_filter(&test_chunk(), &f));
}

#[test]
fn session_filter_empty() {
    let st = test_session("s1", "agent1");
    let f = SubscribeFilter::default();
    assert!(session_matches_filter(&st, &f));
}

#[test]
fn session_filter_by_id() {
    let st = test_session("s1", "agent1");
    let f = SubscribeFilter { sessions: Some(vec!["s1".into(), "s2".into()]), ..Default::default() };
    assert!(session_matches_filter(&st, &f));
    let f2 = SubscribeFilter { sessions: Some(vec!["s3".into()]), ..Default::default() };
    assert!(!session_matches_filter(&st, &f2));
}

#[test]
fn session_filter_by_agent() {
    let st = test_session("s1", "agent1");
    let f = SubscribeFilter { agents: Some(vec!["agent1".into()]), ..Default::default() };
    assert!(session_matches_filter(&st, &f));
    let f2 = SubscribeFilter { agents: Some(vec!["agent2".into()]), ..Default::default() };
    assert!(!session_matches_filter(&st, &f2));
}

#[test]
fn connection_ids_are_monotonic() {
    let mut ids = ConnectionCounter::new();
    let first = ids.next_id();
    let second = ids.next_id();
    assert!(second > first, "connection IDs must be strictly increasing");
    assert_eq!(second, first + 1, "connection IDs must be sequential");
}

#[test]
fn connection_id_format_is_c_prefix() {
    let mut ids = ConnectionCounter::new();
    let id = ids.next_id();
    let conn_id = connection_id(id);
    assert!(conn_id.starts_with("c-"), "connection ID must start with 'c-'");
    let parsed: u64 = conn_id.strip_prefix("c-").unwrap().parse().unwrap();
    assert_eq!(parsed, id);
    assert_eq!(connection_id(1234), "c-1234");
}

#[test]
fn insert_then_contains() {
    let state = test_session("sid", "agent");
    let mut reg = SessionRegistry::new();
    assert!(!reg.contains("sid"));
    reg.insert(state);
    assert!(reg.contains("sid"));
}

#[test]
fn remove_then_not_contains() {
    let mut reg = SessionRegistry::new();
    reg.insert(test_session("sid", "agent"));
    assert!(reg.contains("sid"));
    assert!(reg.remove("sid"));
    assert!(!reg.contains("sid"));
}

#[test]
fn remove_nonexistent_returns_false() {
    let mut reg = SessionRegistry::new();
    reg.insert(test_session("sid", "agent"));
    assert!(!reg.remove("other"));
}

#[test]
fn insert_then_list_contains() {
    let mut reg = SessionRegistry::new();
    reg.insert(test_session("sid", "aid"));
    let sessions = reg.list();
    assert!(sessions.iter().any(|x| x.session_id == "sid" && x.agent_id == "aid"));
}

#[test]
fn remove_then_list_excludes() {
    let mut reg = SessionRegistry::new();
    reg.insert(test_session("sid", "aid"));
    reg.remove("sid");
    assert!(!reg.list().iter().any(|x| x.session_id == "sid"));
}

#[test]
fn list_returns_all_inserted() {
    let mut reg = SessionRegistry::new();
    for i in 0..12 {
        reg.insert(test_session(&format!("0000000{i}-aaaa"), "agent"));
    }
    assert_eq!(reg.list().len(), 12);
}

#[test]
fn event_tx_broadcasts_session_created() {
    // The registry reports what changed; the bus announces it.
    let mut reg = SessionRegistry::new();
    let r = create_session(&mut reg, "sid".into(), "aid".into(), NewSessionConfig {
        backend: None, model: None, system_prompt: None, temperature: None, max_tokens: None,
    }, "c".into(), 0);
    assert!(r.is_ok());
    let info = reg.list();
    assert_eq!(info[0].session_id, "sid");
    assert_eq!(info[0].agent_id, "aid");
}

#[test]
fn event_tx_broadcasts_session_deleted() {
    let mut reg = SessionRegistry::new();
    reg.insert(test_session("sid", "aid"));
    assert!(delete_session(&mut reg, "sid".into()).is_ok());
    match delete_session(&mut reg, "sid".into()) {
        Err(e) => {
            assert_eq!(e.code(), "SESSION_NOT_FOUND");
            assert_eq!(e.message(), "Session not found: sid");
        }
        Ok(()) => panic!("expected SESSION_NOT_FOUND"),
    }
}

#[test]
fn get_returns_inserted_session() {
    let mut reg = SessionRegistry::new();
    reg.insert(test_session("sid", "aid"));
    assert!(reg.get("sid").is_some());
    assert_eq!(reg.get("sid").unwrap().session_id, "sid");
}

#[test]
fn get_mut_returns_inserted_session() {
    let mut reg = SessionRegistry::new();
    reg.insert(test_session("sid", "aid"));
    assert!(reg.get_mut("sid").is_some());
}

#[test]
fn list_message_count_matches_history() {
    let mut state = test_session("sid", "aid");
    state.publish(text_chunk("hello"), 0);
    let mut reg = SessionRegistry::new();
    reg.insert(state);
    let sessions = reg.list();
    let info = sessions.iter().find(|x| x.session_id == "sid").unwrap();
    assert_eq!(info.message_count, 1);
}

#[test]
fn schedule_deletion_immediate_removes_session() {
    let mut state = test_session("s1", "a1");
    state.ephemeral = Some(EphemeralConfig { keepalive_secs: 0, count_role: None });
    let mut reg = SessionRegistry::new();
    reg.insert(state);
    assert!(reg.contains("s1"));
    assert_eq!(reg.schedule_deletion("s1", None), DeletionPlan::Deleted);
    assert!(!reg.contains("s1"));
}

#[test]
fn schedule_deletion_non_ephemeral_not_deleted() {
    let mut reg = SessionRegistry::new();
    reg.insert(test_session("s1", "a1"));
    assert_eq!(reg.schedule_deletion("s1", None), DeletionPlan::Keep);
    assert!(reg.contains("s1"), "non-ephemeral sessions should not be deleted via schedule_deletion");
}

#[test]
fn schedule_deletion_with_delay_checks_later() {
    let mut state = test_session("s1", "a1");
    state.ephemeral = Some(EphemeralConfig { keepalive_secs: 5, count_role: None });
    state.add_subscriber("c-1".into(), None);
    let mut reg = SessionRegistry::new();
    reg.insert(state);
    assert_eq!(reg.schedule_deletion("s1", Some(5000)), DeletionPlan::After(5000));
    assert!(!reg.expire_if_idle("s1"));
    reg.get_mut("s1").unwrap().remove_subscriber("c-1");
    assert!(reg.expire_if_idle("s1"));
    assert!(!reg.contains("s1"));
}

#[test]
fn cancel_scheduled_deletion_is_noop() {
    let mut reg = SessionRegistry::new();
    reg.cancel_scheduled_deletion("nonexistent");
    reg.cancel_scheduled_deletion("s1");
    assert_eq!(reg.list().len(), 0);
}

#[test]
fn set_tags_updates_list_output() {
    let tags: Vec<String> = vec!["work".into(), "urgent".into()];
    let mut reg = SessionRegistry::new();
    reg.insert(test_session("sid", "aid"));
    assert!(reg.set_tags("sid", tags.clone()));
    let sessions = reg.list();
    let info = sessions.iter().find(|x| x.session_id == "sid").unwrap();
    assert_eq!(info.tags, tags);
}

#[test]
fn set_tags_nonexistent_returns_false() {
    let mut reg = SessionRegistry::new();
    reg.insert(test_session("sid", "aid"));
    assert!(!reg.set_tags("sid_x", vec!["a".into()]));
}

#[test]
fn set_tags_broadcasts_event() {
    let mut reg = SessionRegistry::new();
    reg.insert(test_session("sid", "aid"));
    let tags: Vec<String> = vec!["tag1".into()];
    assert!(reg.set_tags("sid", tags.clone()));
    assert_eq!(reg.get("sid").unwrap().tags, tags);
}

#[test]
fn set_tags_overwrites_previous() {
    let mut state = test_session("sid", "aid");
    state.tags = vec!["old".into()];
    let mut reg = SessionRegistry::new();
    reg.insert(state);
    assert!(reg.set_tags("sid", vec!["new".into()]));
    let sessions = reg.list();
    let info = sessions.iter().find(|x| x.session_id == "sid").unwrap();
    assert_eq!(info.tags, vec!["new"]);
    assert!(!info.tags.contains(&"old".to_string()));
}

#[test]
fn set_tags_empty_replaces() {
    let mut state = test_session("sid", "aid");
    state.tags = vec!["old".into()];
    let mut reg = SessionRegistry::new();
    reg.insert(state);
    assert!(reg.set_tags("sid", vec![]));
    let sessions = reg.list();
    let info = sessions.iter().find(|x| x.session_id == "sid").unwrap();
    assert!(info.tags.is_empty());
}

#[test]
fn ephemeral_session_is_listed() {
    let mut state = test_session("s1", "a1");
    state.ephemeral = Some(EphemeralConfig { keepalive_secs: 30, count_role: Some("user".into()) });
    let mut reg = SessionRegistry::new();
    reg.insert(state);
    let sessions = reg.list();
    let info = sessions.iter().find(|x| x.session_id == "s1").unwrap();
    assert_eq!(info.agent_id, "a1");
    assert_eq!(info.message_count, 0);
    assert_eq!(info.ui_mode, "chat");
}

#[test]
fn session_isolation_two_sessions() {
    let mut a = test_session("0000000a", "agent");
    let mut b = test_session("0000000b", "agent");
    a.publish(text_chunk("hello from A"), 0);
    b.publish(text_chunk("hello from B"), 0);
    assert_eq!(a.history.len(), 1);
    assert_eq!(b.history.len(), 1);
    assert_eq!(a.history[0].content, Some("hello from A".into()));
    assert_eq!(b.history[0].content, Some("hello from B".into()));
}

#[test]
fn transient_chunk_broadcast_but_not_in_history() {
    let mut state = test_session("test-session", "test-agent");
    let chunk = transient(text_chunk("hello"));
    state.publish(chunk, 0);
    assert!(state.history.is_empty());
}

#[test]
fn non_transient_chunk_appended_to_history() {
    let mut state = test_session("test-session", "test-agent");
    let chunk = text_chunk("hello");
    state.publish(chunk.clone(), 0);
    assert_eq!(state.history.len(), 1);
    assert_eq!(state.history[0].content, chunk.content);
}

#[test]
fn transient_chunk_not_in_replay() {
    let mut state = test_session("test-session", "test-agent");
    state.publish(transient(text_chunk("transient")), 0);
    state.publish(text_chunk("normal"), 0);
    assert_eq!(state.history.len(), 1);
    assert_eq!(state.history[0].content, Some("normal".into()));
}

fn mixed_chunks() -> Vec<Chunk> {
    vec![
        text_chunk("a"),
        transient(text_chunk("b")),
        text_chunk("c"),
        retained(text_chunk("d"), 10),
        text_chunk("e"),
    ]
}

#[test]
fn session_history_count() {
    let mut state = test_session("test", "test");
    let chunks = mixed_chunks();
    let non_transient_count = chunks.iter().filter(|c| !c.is_transient()).count();
    for c in &chunks {
        state.publish(c.clone(), 0);
    }
    assert_eq!(state.history.len(), non_transient_count);
}

#[test]
fn session_history_empty_when_all_transient() {
    let mut state = test_session("test", "test");
    for c in mixed_chunks() {
        let t = transient(c);
        assert!(t.is_transient());
        state.publish(t, 0);
    }
    assert!(state.history.is_empty());
}

#[test]
fn session_history_order_preserved() {
    let mut state = test_session("test", "test");
    let chunks = mixed_chunks();
    for c in &chunks {
        state.publish(c.clone(), 0);
    }
    let non_transient: Vec<_> = chunks.iter().filter(|c| !c.is_transient()).collect();
    assert_eq!(state.history.len(), non_transient.len());
    for (i, c) in non_transient.iter().enumerate() {
        assert_eq!(state.history[i].id, c.id);
    }
}

#[test]
fn retained_transient_in_drain_not_history() {
    let mut state = test_session("test", "test");
    let chunk = retained(text_chunk("r"), 60);
    state.publish(chunk.clone(), 1_000);
    assert!(state.history.is_empty());
    let drained = state.drain_retained(1_000);
    assert_eq!(drained.len(), 1);
    assert_eq!(drained[0].id, chunk.id);
}

#[test]
fn drain_retained_empty_when_no_retained_chunks() {
    let mut state = test_session("test", "test");
    for c in mixed_chunks() {
        let mut plain = c.clone();
        plain.annotations.retain(|(k, _)| k != CAFE_RETAIN_SECS);
        state.publish(plain, 0);
    }
    assert!(state.drain_retained(0).is_empty());
}

#[test]
fn retained_transient_order_in_drain() {
    let mut state = test_session("test", "test");
    let retained_chunks = vec![retained(text_chunk("r1"), 5), retained(text_chunk("r2"), 5)];
    for (h, r) in mixed_chunks().iter().zip(retained_chunks.iter()) {
        state.publish(h.clone(), 0);
        state.publish(r.clone(), 0);
    }
    let drained = state.drain_retained(1);
    assert!(drained.len() <= retained_chunks.len() + 1);
    for c in &drained {
        assert!(c.is_transient());
        assert!(c.retain_secs().is_some());
    }
    assert_eq!(drained[0].id, "id-r1");
    assert_eq!(drained[drained.len() - 1].id, "id-r2");
}

#[test]
fn replay_count_matches_history_plus_retained() {
    let mut state = test_session("test", "test");
    let history_chunks = mixed_chunks();
    let non_transient_count = history_chunks.iter().filter(|c| !c.is_transient()).count();
    for c in &history_chunks {
        state.publish(c.clone(), 0);
    }
    for c in [retained(text_chunk("x"), 3)] {
        state.publish(c, 0);
    }
    let _retained_replay = state.drain_retained(0).len();
    assert_eq!(state.history.len(), non_transient_count);
}

#[test]
fn retained_chunk_expires_after_deadline() {
    let mut state = test_session("test", "test");
    state.publish(retained(text_chunk("e"), 0), 500);
    assert!(state.history.is_empty());
    assert!(state.drain_retained(500).is_empty(), "expected expired chunk to be absent from drain");
    assert!(state.drain_retained(500).is_empty());
    assert!(state.retained.is_empty());
}

#[test]
fn retained_chunk_with_nonzero_secs_survives() {
    let mut state = test_session("test", "test");
    state.publish(retained(text_chunk("e"), 3600), 0);
    assert_eq!(state.drain_retained(1).len(), 1);
    assert_eq!(state.drain_retained(3_599_999).len(), 1);
    assert_eq!(state.drain_retained(3_600_000).len(), 0);
}

#[test]
fn retained_transient_available_across_drain() {
    let mut state = test_session("test", "test");
    state.publish(retained(text_chunk("e"), 10), 0);
    assert!(state.history.is_empty());
    let first = state.drain_retained(5);
    assert!(!first.is_empty());
    let second = state.drain_retained(5);
    assert_eq!(second.len(), first.len());
}

#[test]
fn no_ephemeral_all_subscribers_count() {
    let mut state = test_session("s1", "a1");
    assert!(!state.is_ephemeral());
    state.add_subscriber("c-1".into(), None);
    state.add_subscriber("c-2".into(), Some("user".into()));
    assert_eq!(state.counted_subscriber_count(), 2);
}

#[test]
fn ephemeral_no_role_filter_counts_all() {
    let mut state = test_session("s1", "a1");
    state.ephemeral = Some(EphemeralConfig { keepalive_secs: 0, count_role: None });
    assert!(state.is_ephemeral());
    state.add_subscriber("c-1".into(), None);
    state.add_subscriber("c-2".into(), Some("user".into()));
    assert_eq!(state.counted_subscriber_count(), 2);
}

#[test]
fn ephemeral_role_filter_matching_role() {
    let mut state = test_session("s1", "a1");
    state.ephemeral = Some(EphemeralConfig { keepalive_secs: 30, count_role: Some("user".into()) });
    state.add_subscriber("c-1".into(), None);
    state.add_subscriber("c-2".into(), Some("user".into()));
    state.add_subscriber("c-3".into(), Some("user".into()));
    assert_eq!(state.counted_subscriber_count(), 2);
}

#[test]
fn ephemeral_role_filter_no_matching_role() {
    let mut state = test_session("s1", "a1");
    state.ephemeral = Some(EphemeralConfig { keepalive_secs: 0, count_role: Some("admin".into()) });
    state.add_subscriber("c-1".into(), None);
    state.add_subscriber("c-2".into(), Some("user".into()));
    assert_eq!(state.counted_subscriber_count(), 0);
}

#[test]
fn add_remove_subscriber_tracking() {
    let mut state = test_session("s1", "a1");
    state.ephemeral = Some(EphemeralConfig { keepalive_secs: 0, count_role: None });
    let prev = state.add_subscriber("c-1".into(), Some("user".into()));
    assert!(prev.is_none());
    assert_eq!(state.counted_subscriber_count(), 1);
    let prev = state.add_subscriber("c-1".into(), Some("admin".into()));
    assert!(prev.is_some());
    assert_eq!(prev.unwrap().role, Some("user".into()));
    assert_eq!(state.counted_subscriber_count(), 1);
    let removed = state.remove_subscriber("c-1");
    assert!(removed.is_some());
    assert_eq!(state.counted_subscriber_count(), 0);
    let removed = state.remove_subscriber("c-999");
    assert!(removed.is_none());
}

#[test]
fn prop_subscriber_count_matches_without_role_filter() {
    for role in [None, Some("r".to_string())] {
        let mut state = test_session("s", "a");
        state.ephemeral = Some(EphemeralConfig { keepalive_secs: 1, count_role: role.clone() });
        let ids = ["a-1", "b-2", "c-3"];
        for id in ids {
            state.add_subscriber(id.into(), None);
        }
        let expected = if role.is_some() { 0 } else { ids.len() };
        assert_eq!(state.counted_subscriber_count(), expected);
    }
}

#[test]
fn prop_subscriber_count_with_role_filter() {
    let mut state = test_session("s", "a");
    state.ephemeral = Some(EphemeralConfig { keepalive_secs: 0, count_role: Some("x".into()) });
    let subs = [("a", Some("x")), ("b", None), ("c", Some("y")), ("d", Some("x"))];
    for (id, role) in subs {
        state.add_subscriber(id.into(), role.map(String::from));
    }
    assert_eq!(state.counted_subscriber_count(), 2);
}

#[test]
fn prop_remove_nonexistent_returns_none() {
    let mut state = test_session("s", "a");
    state.add_subscriber("conn".into(), None);
    assert!(state.remove_subscriber("other").is_none());
}

#[test]
fn prop_counted_count_zero_on_empty() {
    let state = test_session("s", "a");
    assert_eq!(state.counted_subscriber_count(), 0);
}

#[test]
fn subscriber_conn_ids_lists_each_once() {
    let mut state = test_session("s", "a");
    state.add_subscriber("c-1".into(), None);
    state.add_subscriber("c-2".into(), None);
    state.add_subscriber("c-1".into(), Some("user".into()));
    assert_eq!(state.subscriber_conn_ids(), vec!["c-1".to_string(), "c-2".to_string()]);
}

#[test]
fn create_session_rejects_existing_and_seeds_config() {
    let mut reg = SessionRegistry::new();
    let cfg = || NewSessionConfig {
        backend: Some("ollama".into()),
        model: None,
        system_prompt: None,
        temperature: None,
        max_tokens: Some(64),
    };
    assert!(create_session(&mut reg, "s".into(), "a".into(), cfg(), "cfg-1".into(), 0).is_ok());
    let st = reg.get("s").unwrap();
    assert_eq!(st.history.len(), 1);
    assert_eq!(st.history[0].annotations[0], ("config.type".to_string(), s("runtime")));
    match create_session(&mut reg, "s".into(), "a".into(), cfg(), "cfg-2".into(), 0) {
        Err(e) => {
            assert_eq!(e.code(), "SESSION_EXISTS");
            assert_eq!(e.message(), "Session already exists: s");
        }
        Ok(()) => panic!("expected SESSION_EXISTS"),
    }
}

#[test]
fn publish_tags_source_and_routes_direct() {
    let mut reg = SessionRegistry::new();
    reg.insert(test_session("s", "a"));
    match publish_request(&mut reg, "s".into(), text_chunk("hi"), "c-7", 0) {
        PublishOutcome::Published(c) => {
            assert_eq!(c.annotations.iter().find(|(k, _)| k == CAFE_SOURCE_CONNECTION).unwrap().1, s("c-7"));
        }
        other => panic!("unexpected {:?}", other),
    }
    assert_eq!(reg.get("s").unwrap().history.len(), 1);
    let mut direct = text_chunk("dm");
    direct.set_annotation(CAFE_DIRECT_TO.into(), s("c-9"));
    match publish_request(&mut reg, "s".into(), direct, "c-7", 0) {
        PublishOutcome::Direct { target, .. } => assert_eq!(target, "c-9"),
        other => panic!("unexpected {:?}", other),
    }
    assert_eq!(reg.get("s").unwrap().history.len(), 1);
    match publish_request(&mut reg, "missing".into(), text_chunk("x"), "c-7", 0) {
        PublishOutcome::Refused(BusError::SessionNotFound(id)) => assert_eq!(id, "missing"),
        other => panic!("unexpected {:?}", other),
    }
}

#[test]
fn subscribe_snapshot_replays_history_and_retained() {
    let mut reg = SessionRegistry::new();
    reg.insert(test_session("s", "a"));
    publish_request(&mut reg, "s".into(), text_chunk("h1"), "c-1", 0);
    publish_request(&mut reg, "s".into(), retained(text_chunk("r1"), 1), "c-1", 0);
    let (h, r) = subscribe_snapshot(&mut reg, "s".into(), 10).unwrap();
    assert_eq!(h.len(), 1);
    assert_eq!(r.len(), 1);
    let (_, r) = subscribe_snapshot(&mut reg, "s".into(), 2_000).unwrap();
    assert!(r.is_empty());
    assert!(subscribe_snapshot(&mut reg, "none".into(), 0).is_err());
}

#[test]
fn mutation_does_not_modify_history() {
    let mut state = test_session("test", "test");
    for c in [text_chunk("a"), test_chunk(), transient(text_chunk("t")), text_chunk("b")] {
        state.publish(c, 0);
    }
    let before: Vec<_> = state.history.iter().map(|c| c.annotations.clone()).collect();
    let last_id = state.history.last().unwrap().id.clone();
    let mut mutation = Chunk::mutation("m".into(), last_id, "test-mutator".into());
    mutation.set_annotation("test.key".into(), s("test.value"));
    state.publish(mutation, 0);
    assert_eq!(state.history.len(), before.len() + 1);
    for (i, ann) in before.iter().enumerate() {
        assert_eq!(&state.history[i].annotations, ann, "mutation modified history[{}] annotations", i);
    }
}

#[test]
fn replay_sends_history_then_retained_then_count() {
    let t = |id: &str| Chunk::new_text(id.to_string(), "x".to_string(), "test".to_string());
    let h = vec![t("h1"), t("h2")];
    let r = vec![t("r1")];
    let msgs = replay_messages(h, r);
    assert_eq!(msgs.len(), 4);
    let ids: Vec<String> = msgs
        .iter()
        .filter_map(|m| match m {
            ReplayMessage::Chunk(c) => Some(c.id.clone()),
            _ => None,
        })
        .collect();
    assert_eq!(ids, vec!["h1", "h2", "r1"]);
    assert!(matches!(msgs[3], ReplayMessage::HistoryComplete(3)));
    let empty = replay_messages(vec![], vec![]);
    assert!(matches!(empty[0], ReplayMessage::HistoryComplete(0)));
}

#[test]
fn nested_zero_floats_compare_equal_whatever_their_sign() {
    let arr = |t: &str| JsonValue::Array(t.to_string());
    assert!(json_equal(&arr("[-0.0,1]"), &arr("[0.0,1]")));
    assert!(json_equal(&arr("[{\"a\":-0.0}]"), &arr("[{\"a\":0.0}]")));
    assert!(!json_equal(&arr("[\"-0.0\"]"), &arr("[\"0.0\"]")));
    assert!(!json_equal(&arr("[-0.05]"), &arr("[0.05]")));
    assert!(!json_equal(&arr("[-0.0e1]"), &arr("[0.0e1]")));
    let obj = |v: &str| JsonValue::Object(vec![("k".to_string(), v.to_string())]);
    assert!(json_equal(&obj("-0.0"), &obj("0.0")));
    assert!(!json_equal(&obj("\"\\\"-0.0\""), &obj("\"\\\"0.0\"")));
}
