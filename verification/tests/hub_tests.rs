use std::cell::RefCell;
use std::rc::Rc;

use emit_hub::channel::{ChannelSettings, ChannelStatus, CreateChannelRequest};
use emit_hub::errors::HubError;
use emit_hub::hub::{AppState, Session};
use emit_hub::message::{BroadcastRequest, MessageSender, MessageType};
use emit_hub::service::{ChannelService, MessageService};

/// A scripted transport endpoint: delivery succeeds while `failures_left`
/// is zero, and everything received or closed is observable from outside.
#[derive(Clone)]
struct TestSession {
    failures_left: Rc<RefCell<u32>>,
    inbox: Rc<RefCell<Vec<String>>>,
    closed: Rc<RefCell<bool>>,
}

impl TestSession {
    fn reliable() -> TestSession {
        TestSession {
            failures_left: Rc::new(RefCell::new(0)),
            inbox: Rc::new(RefCell::new(Vec::new())),
            closed: Rc::new(RefCell::new(false)),
        }
    }

    fn failing(times: u32) -> TestSession {
        let s = TestSession::reliable();
        *s.failures_left.borrow_mut() = times;
        s
    }
}

impl Session for TestSession {
    fn write(&mut self, payload: &str) -> bool {
        let mut left = self.failures_left.borrow_mut();
        if *left > 0 {
            *left -= 1;
            false
        } else {
            self.inbox.borrow_mut().push(payload.to_string());
            true
        }
    }

    fn close(&mut self) -> bool {
        *self.closed.borrow_mut() = true;
        true
    }
}

fn fresh_state() -> AppState<TestSession> {
    let path = format!("/tmp/emit_hub_{}.redb", uuid::Uuid::new_v4().simple());
    AppState::new(&path).expect("store opens")
}

fn request(name: &str) -> CreateChannelRequest {
    CreateChannelRequest { name: name.to_string(), description: None, settings: None }
}

fn publish(
    state: &mut AppState<TestSession>,
    channel_id: u128,
    text: &str,
) -> Result<(emit_hub::message::BroadcastMessage, usize), HubError> {
    MessageService::broadcast_message(
        state,
        channel_id,
        BroadcastRequest { content: text.to_string(), message_type: None },
    )
}

#[test]
fn test_create_applies_defaults() {
    let mut state = fresh_state();
    let c = ChannelService::create_channel(&mut state, request("news")).unwrap();
    assert!(matches!(c.status, ChannelStatus::Created));
    assert_eq!(c.settings.max_connections, 1000);
    assert!(c.settings.allow_client_messages);
    assert!(!c.settings.persist_messages);
    assert_eq!(c.settings.rate_limit_per_minute, Some(60));
    assert_eq!(c.created_at, c.updated_at);

    let got = state.get_channel(c.id).unwrap();
    assert_eq!(got, c);
}

#[test]
fn test_create_keeps_given_settings() {
    let mut state = fresh_state();
    let settings = ChannelSettings {
        max_connections: 5,
        allow_client_messages: false,
        persist_messages: true,
        rate_limit_per_minute: None,
    };
    let c = ChannelService::create_channel(
        &mut state,
        CreateChannelRequest {
            name: "alerts".to_string(),
            description: Some("ops alerts".to_string()),
            settings: Some(settings),
        },
    )
    .unwrap();
    assert_eq!(c.settings, settings);
    assert_eq!(c.description.as_deref(), Some("ops alerts"));
    assert_eq!(state.get_channel(c.id).unwrap().settings, settings);
}

#[test]
fn test_create_empty_name_rejected() {
    let mut state = fresh_state();
    let r = ChannelService::create_channel(&mut state, request(""));
    assert_eq!(r.unwrap_err(), HubError::ValidationError);
}

#[test]
fn test_update_status_idempotent() {
    let mut state = fresh_state();
    let c = ChannelService::create_channel(&mut state, request("news")).unwrap();
    let once = ChannelService::pause_channel(&mut state, c.id).unwrap();
    let twice = ChannelService::pause_channel(&mut state, c.id).unwrap();
    assert!(matches!(once.status, ChannelStatus::Paused));
    assert_eq!(once.status, twice.status);
    assert!(once.updated_at >= c.updated_at);
    assert!(twice.updated_at >= once.updated_at);
    assert_eq!(state.get_channel(c.id).unwrap(), twice);
}

#[test]
fn test_attach_requires_active() {
    let mut state = fresh_state();
    let c = ChannelService::create_channel(&mut state, request("news")).unwrap();

    let early = TestSession::reliable();
    let r = state.attach_session(c.id, 1, early.clone());
    assert_eq!(r.unwrap_err(), HubError::ChannelNotActive);

    let r = state.attach_session(9999, 1, TestSession::reliable());
    assert_eq!(r.unwrap_err(), HubError::NotFound);

    ChannelService::start_channel(&mut state, c.id).unwrap();
    let late = TestSession::reliable();
    state.attach_session(c.id, 2, late.clone()).unwrap();

    let (_m, sent) = publish(&mut state, c.id, "hello subscribers").unwrap();
    assert_eq!(sent, 1);
    assert!(early.inbox.borrow().is_empty());
    assert_eq!(late.inbox.borrow().len(), 1);
    assert!(late.inbox.borrow()[0].contains("hello subscribers"));
}

#[test]
fn test_broadcast_prunes_failed_sessions() {
    let mut state = fresh_state();
    let c = ChannelService::create_channel(&mut state, request("news")).unwrap();
    ChannelService::start_channel(&mut state, c.id).unwrap();

    let s1 = TestSession::reliable();
    let s2 = TestSession::failing(1);
    let s3 = TestSession::reliable();
    state.attach_session(c.id, 1, s1.clone()).unwrap();
    state.attach_session(c.id, 2, s2.clone()).unwrap();
    state.attach_session(c.id, 3, s3.clone()).unwrap();

    let (_m, sent) = publish(&mut state, c.id, "first").unwrap();
    assert_eq!(sent, 2);

    // the failed session was dropped: it would succeed now, but is never
    // attempted again
    let (_m, sent) = publish(&mut state, c.id, "second").unwrap();
    assert_eq!(sent, 2);
    assert!(s2.inbox.borrow().is_empty());
    assert_eq!(s1.inbox.borrow().len(), 2);
    assert_eq!(s3.inbox.borrow().len(), 2);
}

#[test]
fn test_stop_closes_only_this_channel() {
    let mut state = fresh_state();
    let a = ChannelService::create_channel(&mut state, request("a")).unwrap();
    let b = ChannelService::create_channel(&mut state, request("b")).unwrap();
    ChannelService::start_channel(&mut state, a.id).unwrap();
    ChannelService::start_channel(&mut state, b.id).unwrap();

    let a1 = TestSession::reliable();
    let a2 = TestSession::reliable();
    let b1 = TestSession::reliable();
    state.attach_session(a.id, 1, a1.clone()).unwrap();
    state.attach_session(a.id, 2, a2.clone()).unwrap();
    state.attach_session(b.id, 3, b1.clone()).unwrap();

    let stopped = ChannelService::stop_channel(&mut state, a.id).unwrap();
    assert!(matches!(stopped.status, ChannelStatus::Stopped));
    assert!(*a1.closed.borrow());
    assert!(*a2.closed.borrow());
    assert!(!*b1.closed.borrow());

    // the drained channel delivers to nobody even once restarted
    ChannelService::start_channel(&mut state, a.id).unwrap();
    let (_m, sent) = publish(&mut state, a.id, "anyone?").unwrap();
    assert_eq!(sent, 0);

    let (_m, sent) = publish(&mut state, b.id, "still here").unwrap();
    assert_eq!(sent, 1);
}

#[test]
fn test_detach_stops_delivery() {
    let mut state = fresh_state();
    let c = ChannelService::create_channel(&mut state, request("news")).unwrap();
    ChannelService::start_channel(&mut state, c.id).unwrap();
    let s = TestSession::reliable();
    state.attach_session(c.id, 7, s.clone()).unwrap();
    state.remove_connection(c.id, 7);
    let (_m, sent) = publish(&mut state, c.id, "gone").unwrap();
    assert_eq!(sent, 0);
    assert!(s.inbox.borrow().is_empty());
}

#[test]
fn test_restart_reloads_live_channels() {
    let path = format!("/tmp/emit_hub_{}.redb", uuid::Uuid::new_v4().simple());
    let (active, paused, created, stopped);
    {
        let mut state: AppState<TestSession> = AppState::new(&path).expect("store opens");
        let a = ChannelService::create_channel(&mut state, request("active-one")).unwrap();
        active = ChannelService::start_channel(&mut state, a.id).unwrap();
        let p = ChannelService::create_channel(&mut state, request("paused-one")).unwrap();
        paused = ChannelService::pause_channel(&mut state, p.id).unwrap();
        created = ChannelService::create_channel(&mut state, request("created-one")).unwrap();
        let s = ChannelService::create_channel(&mut state, request("stopped-one")).unwrap();
        ChannelService::start_channel(&mut state, s.id).unwrap();
        stopped = ChannelService::stop_channel(&mut state, s.id).unwrap();
    }

    let reloaded: AppState<TestSession> = AppState::new(&path).expect("store reopens");
    assert_eq!(reloaded.get_channel(active.id), Some(active));
    assert_eq!(reloaded.get_channel(paused.id), Some(paused));
    assert_eq!(reloaded.get_channel(created.id), None);
    assert_eq!(reloaded.get_channel(stopped.id), None);
}

#[test]
fn test_publish_errors() {
    let mut state = fresh_state();
    assert_eq!(publish(&mut state, 42, "nobody home").unwrap_err(), HubError::NotFound);

    let c = ChannelService::create_channel(&mut state, request("news")).unwrap();
    assert_eq!(publish(&mut state, c.id, "too early").unwrap_err(), HubError::ChannelNotActive);

    ChannelService::pause_channel(&mut state, c.id).unwrap();
    assert_eq!(publish(&mut state, c.id, "paused").unwrap_err(), HubError::ChannelNotActive);

    assert_eq!(
        ChannelService::start_channel(&mut state, 42).unwrap_err(),
        HubError::NotFound
    );
}

#[test]
fn test_publish_message_fields() {
    let mut state = fresh_state();
    let c = ChannelService::create_channel(&mut state, request("news")).unwrap();
    ChannelService::start_channel(&mut state, c.id).unwrap();
    let (m, sent) = MessageService::broadcast_message(
        &mut state,
        c.id,
        BroadcastRequest {
            content: "breaking".to_string(),
            message_type: Some(MessageType::System),
        },
    )
    .unwrap();
    assert_eq!(sent, 0);
    assert_eq!(m.channel_id, c.id);
    assert_eq!(m.content, "breaking");
    assert!(matches!(m.message_type, MessageType::System));
    assert!(matches!(m.sender, MessageSender::Server));
}

#[test]
fn test_handle_client_text() {
    let mut state = fresh_state();
    let c = ChannelService::create_channel(&mut state, request("chat")).unwrap();
    ChannelService::start_channel(&mut state, c.id).unwrap();
    let s = TestSession::reliable();
    state.attach_session(c.id, 1, s.clone()).unwrap();

    let (m, sent) = MessageService::handle_client_text(&mut state, c.id, "hi there".to_string())
        .expect("client messages are allowed by default");
    assert_eq!(sent, 1);
    assert!(matches!(m.message_type, MessageType::ClientMessage));
    assert!(matches!(&m.sender, MessageSender::Client(who) if who == "anonymous"));
    assert!(s.inbox.borrow()[0].contains("hi there"));

    let quiet = ChannelService::create_channel(
        &mut state,
        CreateChannelRequest {
            name: "quiet".to_string(),
            description: None,
            settings: Some(ChannelSettings {
                max_connections: 10,
                allow_client_messages: false,
                persist_messages: false,
                rate_limit_per_minute: None,
            }),
        },
    )
    .unwrap();
    ChannelService::start_channel(&mut state, quiet.id).unwrap();
    assert!(MessageService::handle_client_text(&mut state, quiet.id, "psst".to_string()).is_none());
    assert!(MessageService::handle_client_text(&mut state, 999, "void".to_string()).is_none());
}

#[test]
fn test_list_channels() {
    let mut state = fresh_state();
    let a = ChannelService::create_channel(&mut state, request("a")).unwrap();
    let b = ChannelService::create_channel(&mut state, request("b")).unwrap();
    let listed = ChannelService::list_channels(&state);
    assert_eq!(listed.len(), 2);
    assert!(listed.contains(&a));
    assert!(listed.contains(&b));
}

#[test]
fn test_error_descriptions() {
    assert_eq!(HubError::ValidationError.describe(), "invalid input");
    assert_eq!(HubError::NotFound.describe(), "channel not found");
    assert_eq!(HubError::ChannelNotActive.describe(), "channel is not active");
    assert_eq!(HubError::PersistenceError.describe(), "persistence failure");
}

#[test]
fn test_full_scenario() {
    let mut state = fresh_state();

    let c = ChannelService::create_channel(&mut state, request("demo")).unwrap();
    assert!(matches!(c.status, ChannelStatus::Created));

    let started = ChannelService::start_channel(&mut state, c.id).unwrap();
    assert!(matches!(started.status, ChannelStatus::Active));

    let a = TestSession::reliable();
    state.attach_session(c.id, 1, a.clone()).unwrap();

    let (m, sent) = MessageService::broadcast_message(
        &mut state,
        c.id,
        BroadcastRequest {
            content: "hello".to_string(),
            message_type: Some(MessageType::Broadcast),
        },
    )
    .unwrap();
    assert_eq!(m.content, "hello");
    assert_eq!(sent, 1);
    assert!(a.inbox.borrow()[0].contains("hello"));

    let stopped = ChannelService::stop_channel(&mut state, c.id).unwrap();
    assert!(matches!(stopped.status, ChannelStatus::Stopped));
    assert!(*a.closed.borrow());

    assert_eq!(publish(&mut state, c.id, "anyone?").unwrap_err(), HubError::ChannelNotActive);
}
