//! Channel metadata: lifecycle status, per-channel settings, and the channel
//! record itself, together with the request types the registry accepts.

use vstd::prelude::*;

verus! {

/// Lifecycle state of a channel. A channel is created in `Created`, may be
/// started (`Active`), paused (`Paused`) and stopped (`Stopped`); the
/// transition table places no guard on any edge.
#[derive(Clone, Copy, Debug, PartialEq, Eq, Structural)]
pub enum ChannelStatus {
    Created,
    Active,
    Paused,
    Stopped,
}

/// Per-channel settings. The rate limit is recorded but not enforced by the
/// hub core.
#[derive(Clone, Copy, Debug, PartialEq, Eq)]
pub struct ChannelSettings {
    pub max_connections: usize,
    pub allow_client_messages: bool,
    pub persist_messages: bool,
    pub rate_limit_per_minute: Option<u32>,
}

/// The documented defaults: 1000 connections, client messages allowed,
/// messages not persisted, a rate limit of 60 per minute.
pub open spec fn default_settings() -> ChannelSettings {
    ChannelSettings {
        max_connections: 1000,
        allow_client_messages: true,
        persist_messages: false,
        rate_limit_per_minute: Some(60u32),
    }
}

impl Default for ChannelSettings {
    /// The defaults used when a creation request carries no settings.
    fn default() -> (r: Self)
        ensures
            r == default_settings(),
    {
        ChannelSettings {
            max_connections: 1000,
            allow_client_messages: true,
            persist_messages: false,
            rate_limit_per_minute: Some(60u32),
        }
    }
}

/// A broadcast channel: a named topic with a lifecycle status, settings and
/// creation / last-update timestamps (milliseconds). The id is a 128-bit
/// value allocated at creation and never changed.
#[derive(Debug, Clone, PartialEq)]
pub struct Channel {
    pub id: u128,
    pub name: String,
    pub description: Option<String>,
    pub status: ChannelStatus,
    pub created_at: u64,
    pub updated_at: u64,
    pub settings: ChannelSettings,
}

/// Mathematical image of a channel: strings become character sequences.
pub ghost struct ChannelView {
    pub id: u128,
    pub name: Seq<char>,
    pub description: Option<Seq<char>>,
    pub status: ChannelStatus,
    pub created_at: u64,
    pub updated_at: u64,
    pub settings: ChannelSettings,
}

impl ChannelView {
    /// A channel is well formed when its name is non-empty and its
    /// last-update time is no earlier than its creation time.
    pub open spec fn wf(self) -> bool {
        &&& self.name.len() > 0
        &&& self.created_at <= self.updated_at
    }
}

impl View for Channel {
    type V = ChannelView;

    open spec fn view(&self) -> ChannelView {
        ChannelView {
            id: self.id,
            name: self.name@,
            description: match self.description {
                Some(d) => Some(d@),
                None => None,
            },
            status: self.status,
            created_at: self.created_at,
            updated_at: self.updated_at,
            settings: self.settings,
        }
    }
}

impl Channel {
    pub open spec fn wf(&self) -> bool {
        self@.wf()
    }

    /// An exact copy: every field of the result equals the original's.
    pub fn snapshot(&self) -> (r: Channel)
        ensures
            r == *self,
    {
        Channel {
            id: self.id,
            name: self.name.clone(),
            description: match &self.description {
                Some(d) => Some(d.clone()),
                None => None,
            },
            status: self.status,
            created_at: self.created_at,
            updated_at: self.updated_at,
            settings: self.settings,
        }
    }
}

/// The channel `c` after a status overwrite at time `now`: the status is
/// replaced unconditionally and the last-update time is refreshed, never
/// moving backwards.
pub open spec fn with_status(c: Channel, st: ChannelStatus, now: u64) -> Channel {
    Channel {
        status: st,
        updated_at: if now > c.updated_at {
            now
        } else {
            c.updated_at
        },
        ..c
    }
}

/// The snapshot a creation at time `ts` under id `id` yields: status
/// `Created`, both timestamps at `ts`, and the given name, description and
/// settings.
pub open spec fn created_channel_view(
    name: Seq<char>,
    description: Option<Seq<char>>,
    settings: ChannelSettings,
    id: u128,
    ts: u64,
) -> ChannelView {
    ChannelView {
        id,
        name,
        description,
        status: ChannelStatus::Created,
        created_at: ts,
        updated_at: ts,
        settings,
    }
}

/// Overwriting a status is idempotent in what is observable: applying the
/// same status a second time leaves the status as the first application set
/// it, and the last-update time never recedes — neither across the two
/// applications nor against the original channel.
pub proof fn lemma_update_status_idempotent(c: Channel, st: ChannelStatus, t1: u64, t2: u64)
    ensures
        with_status(with_status(c, st, t1), st, t2).status == with_status(c, st, t1).status,
        with_status(with_status(c, st, t1), st, t2).updated_at >= with_status(
            c,
            st,
            t1,
        ).updated_at,
        with_status(c, st, t1).updated_at >= c.updated_at,
        with_status(with_status(c, st, t1), st, t2).id == c.id,
        with_status(with_status(c, st, t1), st, t2).name == c.name,
        with_status(with_status(c, st, t1), st, t2).settings == c.settings,
{
}

/// What a caller hands the registry to create a channel.
#[derive(Debug)]
pub struct CreateChannelRequest {
    pub name: String,
    pub description: Option<String>,
    pub settings: Option<ChannelSettings>,
}

/// What a caller hands the registry to overwrite a channel's status.
#[derive(Debug)]
pub struct UpdateChannelStatusRequest {
    pub status: ChannelStatus,
}

} // verus!
