//! The service layer: channel lifecycle (create, start, pause, stop, list)
//! and the broadcast engine (publish, client re-broadcast), orchestrating
//! the registries and the durable store.

use vstd::prelude::*;
use vstd::string::StringExecFns;
use crate::channel::{created_channel_view, default_settings, with_status, Channel,
    ChannelSettings, ChannelStatus, CreateChannelRequest};
use crate::clock::now_millis;
use crate::codec::{channel_record, encode_envelope, message_record};
use crate::errors::HubError;
use crate::hub::{conns_except, find_channel, live_count, pruned_by_outcomes,
    store_after_failed_overwrite, AppState, Session};
use crate::ident::fresh_id;
use crate::message::{server_message_view, BroadcastMessage, BroadcastRequest, MessageSender,
    MessageSenderView, MessageType, WebSocketResponse};
use crate::store::id_key;

verus! {

/// The snapshot a creation request yields under a given id and time.
pub open spec fn requested_channel_view(
    request: CreateChannelRequest,
    cid: u128,
    ts: u64,
) -> crate::channel::ChannelView {
    created_channel_view(
        request.name@,
        match request.description {
            Some(d) => Some(d@),
            None => None,
        },
        match request.settings {
            Some(st) => st,
            None => default_settings(),
        },
        cid,
        ts,
    )
}

/// The snapshot a publish request yields under a given id and time.
pub open spec fn requested_message_view(
    channel_id: u128,
    request: BroadcastRequest,
    mid: u128,
    ts: u64,
) -> crate::message::BroadcastMessageView {
    server_message_view(
        channel_id,
        request.content@,
        match request.message_type {
            Some(t) => t,
            None => MessageType::Broadcast,
        },
        mid,
        ts,
    )
}

/// Channel lifecycle operations over the hub state.
pub struct ChannelService;

/// The broadcast engine over the hub state.
pub struct MessageService;

impl ChannelService {
    /// Create a channel: a fresh id, status `Created`, both timestamps set
    /// to now, and the request's settings completed with the documented
    /// defaults when omitted. The snapshot is written to the durable store
    /// before the registry learns of it; an empty name is refused outright.
    pub fn create_channel<S>(state: &mut AppState<S>, request: CreateChannelRequest) -> (r: Result<
        Channel,
        HubError,
    >)
        requires
            old(state).wf(),
        ensures
            final(state).wf(),
            final(state).conns() == old(state).conns(),
            final(state).store_messages() == old(state).store_messages(),
            r == Err::<Channel, HubError>(HubError::ValidationError) <==> request.name@.len() == 0,
            r is Err ==> final(state).channels() == old(state).channels() && (r
                == Err::<Channel, HubError>(HubError::ValidationError) || r
                == Err::<Channel, HubError>(HubError::PersistenceError)),
            r == Err::<Channel, HubError>(HubError::ValidationError) ==> final(state).store_channels() == old(state).store_channels(),
            r == Err::<Channel, HubError>(HubError::PersistenceError) ==> final(state).store_channels() == old(state).store_channels() || exists|cid: u128, ts: u64|
                final(state).store_channels() == old(state).store_channels().insert(
                    id_key(cid),
                    #[trigger] channel_record(requested_channel_view(request, cid, ts)),
                ),
            r matches Ok(c) ==> {
                &&& c.status == ChannelStatus::Created
                &&& c.name == request.name
                &&& c.description == request.description
                &&& c.created_at == c.updated_at
                &&& c.settings == (match request.settings {
                    Some(s) => s,
                    None => default_settings(),
                })
                &&& c.wf()
                &&& find_channel(final(state).channels(), c.id) == Some(c)
                &&& forall|other: u128|
                    other != c.id ==> #[trigger] find_channel(final(state).channels(), other)
                        == find_channel(old(state).channels(), other)
                &&& final(state).store_channels() == old(state).store_channels().insert(
                    id_key(c.id),
                    channel_record(c@),
                )
            },
    {
        if request.name.as_str().is_empty() {
            return Err(HubError::ValidationError);
        }
        let settings = match request.settings {
            Some(s) => s,
            None => ChannelSettings::default(),
        };
        let now = now_millis();
        let id = fresh_id();
        let ghost g_req = request;
        let channel = Channel {
            id: id,
            name: request.name,
            description: request.description,
            status: ChannelStatus::Created,
            created_at: now,
            updated_at: now,
            settings: settings,
        };
        match state.save_channel(&channel) {
            Err(e) => {
                proof {
                    assert(channel@ == requested_channel_view(g_req, id, now));
                    if state.store_channels() != old(state).store_channels() {
                        assert(state.store_channels() == old(state).store_channels().insert(
                            id_key(id),
                            channel_record(requested_channel_view(g_req, id, now)),
                        ));
                    }
                }
                return Err(e);
            },
            Ok(()) => {},
        }
        let ret = channel.snapshot();
        state.upsert_channel(channel);
        Ok(ret)
    }

    /// Start the channel: its status becomes `Active`, whatever it was.
    pub fn start_channel<S>(state: &mut AppState<S>, channel_id: u128) -> (r: Result<
        Channel,
        HubError,
    >)
        requires
            old(state).wf(),
        ensures
            final(state).wf(),
            final(state).conns() == old(state).conns(),
            final(state).store_messages() == old(state).store_messages(),
            r == Err::<Channel, HubError>(HubError::NotFound) <==> find_channel(
                old(state).channels(),
                channel_id,
            ) is None,
            r is Err ==> final(state).channels() == old(state).channels() && (r
                == Err::<Channel, HubError>(HubError::NotFound) || r
                == Err::<Channel, HubError>(HubError::PersistenceError)),
            r == Err::<Channel, HubError>(HubError::NotFound) ==> final(state).store_channels()
                == old(state).store_channels(),
            r == Err::<Channel, HubError>(HubError::PersistenceError)
                ==> store_after_failed_overwrite(
                *old(state),
                *final(state),
                channel_id,
                ChannelStatus::Active,
            ),
            r matches Ok(c) ==> c.status == ChannelStatus::Active && lifecycle_step(
                *old(state),
                *final(state),
                channel_id,
                c,
            ),
    {
        state.update_channel_status(channel_id, ChannelStatus::Active)
    }

    /// Pause the channel: its status becomes `Paused`, whatever it was.
    pub fn pause_channel<S>(state: &mut AppState<S>, channel_id: u128) -> (r: Result<
        Channel,
        HubError,
    >)
        requires
            old(state).wf(),
        ensures
            final(state).wf(),
            final(state).conns() == old(state).conns(),
            final(state).store_messages() == old(state).store_messages(),
            r == Err::<Channel, HubError>(HubError::NotFound) <==> find_channel(
                old(state).channels(),
                channel_id,
            ) is None,
            r is Err ==> final(state).channels() == old(state).channels() && (r
                == Err::<Channel, HubError>(HubError::NotFound) || r
                == Err::<Channel, HubError>(HubError::PersistenceError)),
            r == Err::<Channel, HubError>(HubError::NotFound) ==> final(state).store_channels()
                == old(state).store_channels(),
            r == Err::<Channel, HubError>(HubError::PersistenceError)
                ==> store_after_failed_overwrite(
                *old(state),
                *final(state),
                channel_id,
                ChannelStatus::Paused,
            ),
            r matches Ok(c) ==> c.status == ChannelStatus::Paused && lifecycle_step(
                *old(state),
                *final(state),
                channel_id,
                c,
            ),
    {
        state.update_channel_status(channel_id, ChannelStatus::Paused)
    }

    /// Stop the channel: its status becomes `Stopped` and every attached
    /// session is closed (best effort) and detached. A failed store write
    /// aborts before any teardown; an unknown id still drains whatever
    /// attachments carry it, as the teardown is keyed by id alone.
    pub fn stop_channel<S: Session>(state: &mut AppState<S>, channel_id: u128) -> (r: Result<
        Channel,
        HubError,
    >)
        requires
            old(state).wf(),
        ensures
            final(state).wf(),
            final(state).store_messages() == old(state).store_messages(),
            r == Err::<Channel, HubError>(HubError::NotFound) <==> find_channel(
                old(state).channels(),
                channel_id,
            ) is None,
            r is Err ==> final(state).channels() == old(state).channels() && (r
                == Err::<Channel, HubError>(HubError::NotFound) || r
                == Err::<Channel, HubError>(HubError::PersistenceError)),
            r == Err::<Channel, HubError>(HubError::NotFound) ==> final(state).store_channels()
                == old(state).store_channels(),
            r == Err::<Channel, HubError>(HubError::PersistenceError)
                ==> store_after_failed_overwrite(
                *old(state),
                *final(state),
                channel_id,
                ChannelStatus::Stopped,
            ),
            r == Err::<Channel, HubError>(HubError::PersistenceError) ==> final(state).conns()
                == old(state).conns(),
            r is Ok || r == Err::<Channel, HubError>(HubError::NotFound) ==> final(state).conns()
                == conns_except(old(state).conns(), channel_id) && live_count(
                final(state).conns(),
                channel_id,
            ) == 0,
            r matches Ok(c) ==> c.status == ChannelStatus::Stopped && lifecycle_step(
                *old(state),
                *final(state),
                channel_id,
                c,
            ),
    {
        match state.update_channel_status(channel_id, ChannelStatus::Stopped) {
            Err(HubError::PersistenceError) => Err(HubError::PersistenceError),
            Err(e) => {
                state.close_all(channel_id);
                proof {
                    let ghost o: u128 = if channel_id == 0 { 1 } else { 0 };
                    crate::hub::lemma_conns_except_counts(old(state).conns(), channel_id, o);
                }
                Err(e)
            },
            Ok(c) => {
                state.close_all(channel_id);
                proof {
                    let ghost o: u128 = if channel_id == 0 { 1 } else { 0 };
                    crate::hub::lemma_conns_except_counts(old(state).conns(), channel_id, o);
                }
                Ok(c)
            },
        }
    }

    /// A snapshot of every registered channel, in registry order.
    pub fn list_channels<S>(state: &AppState<S>) -> (r: Vec<Channel>)
        ensures
            r@ == state.channels(),
    {
        state.list_channels()
    }
}

/// What every successful status overwrite guarantees: the returned snapshot
/// is the old channel with the new status and a refreshed (never receding)
/// last-update time, the registry maps the id to exactly that snapshot and
/// is otherwise untouched, and the store holds its record.
pub open spec fn lifecycle_step<S>(
    pre: AppState<S>,
    post: AppState<S>,
    channel_id: u128,
    c: Channel,
) -> bool {
    &&& find_channel(pre.channels(), channel_id) matches Some(c0) && c == with_status(
        c0,
        c.status,
        c.updated_at,
    ) && c.updated_at >= c0.updated_at
    &&& c.id == channel_id
    &&& find_channel(post.channels(), channel_id) == Some(c)
    &&& forall|other: u128|
        other != channel_id ==> #[trigger] find_channel(post.channels(), other) == find_channel(
            pre.channels(),
            other,
        )
    &&& post.channels().len() == pre.channels().len()
    &&& post.store_channels() == pre.store_channels().insert(id_key(channel_id), channel_record(c@))
}

impl MessageService {
    /// Publish to a channel: refused when the channel is unknown or not
    /// `Active`; the message is persisted first when the channel's settings
    /// ask for it (and the publish aborts if that write fails); then the
    /// envelope is fanned out and the delivery count returned.
    pub fn broadcast_message<S: Session>(
        state: &mut AppState<S>,
        channel_id: u128,
        request: BroadcastRequest,
    ) -> (r: Result<(BroadcastMessage, usize), HubError>)
        requires
            old(state).wf(),
        ensures
            final(state).wf(),
            final(state).channels() == old(state).channels(),
            final(state).store_channels() == old(state).store_channels(),
            r == Err::<(BroadcastMessage, usize), HubError>(HubError::NotFound) <==> find_channel(
                old(state).channels(),
                channel_id,
            ) is None,
            r == Err::<(BroadcastMessage, usize), HubError>(HubError::ChannelNotActive) <==> (
            find_channel(old(state).channels(), channel_id) matches Some(c) && c.status
                != ChannelStatus::Active),
            r is Err ==> final(state).conns() == old(state).conns() && (r
                == Err::<(BroadcastMessage, usize), HubError>(HubError::NotFound) || r
                == Err::<(BroadcastMessage, usize), HubError>(HubError::ChannelNotActive) || r
                == Err::<(BroadcastMessage, usize), HubError>(HubError::PersistenceError)),
            (r == Err::<(BroadcastMessage, usize), HubError>(HubError::NotFound) || r
                == Err::<(BroadcastMessage, usize), HubError>(HubError::ChannelNotActive))
                ==> final(state).store_messages() == old(state).store_messages(),
            r == Err::<(BroadcastMessage, usize), HubError>(HubError::PersistenceError)
                ==> final(state).store_messages() == old(state).store_messages() || exists|
                mid: u128,
                ts: u64,
            |
                final(state).store_messages() == old(state).store_messages().insert(
                    id_key(mid),
                    #[trigger] message_record(requested_message_view(channel_id, request, mid, ts)),
                ),
            r == Err::<(BroadcastMessage, usize), HubError>(HubError::PersistenceError) ==> (
            find_channel(old(state).channels(), channel_id) matches Some(c) && c.status
                == ChannelStatus::Active && c.settings.persist_messages),
            (find_channel(old(state).channels(), channel_id) matches Some(c) && c.status
                == ChannelStatus::Active && !c.settings.persist_messages) ==> r is Ok,
            r matches Ok((m, sent)) ==> {
                &&& find_channel(old(state).channels(), channel_id) matches Some(c0) && c0.status
                    == ChannelStatus::Active && (c0.settings.persist_messages ==> final(state).store_messages() == old(state).store_messages().insert(
                    id_key(m.id),
                    message_record(m@),
                )) && (!c0.settings.persist_messages ==> final(state).store_messages() == old(state).store_messages())
                &&& m.channel_id == channel_id
                &&& m.content == request.content
                &&& m.message_type == (match request.message_type {
                    Some(t) => t,
                    None => MessageType::Broadcast,
                })
                &&& m.sender == MessageSender::Server
                &&& sent == live_count(final(state).conns(), channel_id)
                &&& live_count(final(state).conns(), channel_id) <= live_count(
                    old(state).conns(),
                    channel_id,
                )
                &&& pruned_by_outcomes(
                    old(state).conns(),
                    final(state).conns(),
                    channel_id,
                    sent as nat,
                )
                &&& conns_except(final(state).conns(), channel_id) == conns_except(
                    old(state).conns(),
                    channel_id,
                )
            },
    {
        let channel = match state.get_channel(channel_id) {
            Some(c) => c,
            None => {
                return Err(HubError::NotFound);
            },
        };
        let active = match channel.status {
            ChannelStatus::Active => true,
            _ => false,
        };
        if !active {
            return Err(HubError::ChannelNotActive);
        }
        let ghost g_req = request;
        let message = BroadcastMessage {
            id: fresh_id(),
            channel_id: channel_id,
            content: request.content,
            message_type: match request.message_type {
                Some(t) => t,
                None => MessageType::Broadcast,
            },
            sender: MessageSender::Server,
            timestamp: now_millis(),
        };
        if channel.settings.persist_messages {
            match state.save_message(&message) {
                Err(e) => {
                    proof {
                        let mv = requested_message_view(
                            channel_id,
                            g_req,
                            message.id,
                            message.timestamp,
                        );
                        assert(message@ == mv);
                        if state.store_messages() != old(state).store_messages() {
                            assert(state.store_messages() == old(state).store_messages().insert(
                                id_key(message.id),
                                message_record(mv),
                            ));
                        }
                    }
                    return Err(e);
                },
                Ok(()) => {},
            }
        }
        let envelope = WebSocketResponse {
            status: String::from_str("broadcast"),
            message: message.content.clone(),
            channel_id: channel_id,
            timestamp: message.timestamp,
            data: None,
        };
        let payload = encode_envelope(&envelope);
        let sent = state.broadcast_to_channel(channel_id, payload.as_str());
        Ok((message, sent))
    }

    /// Re-broadcast text a session sent inbound. A silent no-op — nothing
    /// delivered, nothing persisted — when the channel is unknown or does
    /// not allow client messages. Persisting a client message is best
    /// effort: a store failure is swallowed and the fan-out still happens.
    pub fn handle_client_text<S: Session>(
        state: &mut AppState<S>,
        channel_id: u128,
        text: String,
    ) -> (r: Option<(BroadcastMessage, usize)>)
        requires
            old(state).wf(),
        ensures
            final(state).wf(),
            final(state).channels() == old(state).channels(),
            final(state).store_channels() == old(state).store_channels(),
            r is None <==> !(find_channel(old(state).channels(), channel_id) matches Some(c)
                && c.settings.allow_client_messages),
            r is None ==> final(state).conns() == old(state).conns() && final(state).store_messages() == old(state).store_messages(),
            r matches Some((m, sent)) ==> {
                &&& find_channel(old(state).channels(), channel_id) matches Some(c0)
                    && c0.settings.allow_client_messages && (final(state).store_messages() == old(state).store_messages() || (c0.settings.persist_messages && final(state).store_messages() == old(state).store_messages().insert(
                    id_key(m.id),
                    message_record(m@),
                )))
                &&& m.channel_id == channel_id
                &&& m.content == text
                &&& m.message_type == MessageType::ClientMessage
                &&& m.sender@ == MessageSenderView::Client("anonymous"@)
                &&& sent == live_count(final(state).conns(), channel_id)
                &&& live_count(final(state).conns(), channel_id) <= live_count(
                    old(state).conns(),
                    channel_id,
                )
                &&& pruned_by_outcomes(
                    old(state).conns(),
                    final(state).conns(),
                    channel_id,
                    sent as nat,
                )
                &&& conns_except(final(state).conns(), channel_id) == conns_except(
                    old(state).conns(),
                    channel_id,
                )
            },
    {
        let channel = match state.get_channel(channel_id) {
            Some(c) => c,
            None => {
                return None;
            },
        };
        if !channel.settings.allow_client_messages {
            return None;
        }
        let message = BroadcastMessage {
            id: fresh_id(),
            channel_id: channel_id,
            content: text,
            message_type: MessageType::ClientMessage,
            sender: MessageSender::Client(String::from_str("anonymous")),
            timestamp: now_millis(),
        };
        if channel.settings.persist_messages {
            let _persisted = state.save_message(&message);
        }
        let note = String::from_str("Client message in ").concat(
            channel.name.as_str(),
        ).concat(": ").concat(message.content.as_str());
        let envelope = WebSocketResponse {
            status: String::from_str("client_message"),
            message: note,
            channel_id: channel_id,
            timestamp: message.timestamp,
            data: Some(message.content.clone()),
        };
        let payload = encode_envelope(&envelope);
        let sent = state.broadcast_to_channel(channel_id, payload.as_str());
        Some((message, sent))
    }
}

} // verus!
