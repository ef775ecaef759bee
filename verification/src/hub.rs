//! The hub state: the in-memory channel registry (synchronized with the
//! durable store) and the per-channel registry of live sessions, with the
//! fan-out loop that delivers one payload to every session of a channel and
//! prunes the sessions whose delivery failed.

use vstd::prelude::*;
use crate::channel::{Channel, ChannelStatus, with_status};
use crate::clock::now_millis;
use crate::codec::{channel_record, parse_channel_record};
use crate::errors::HubError;
use crate::store::{from_store, id_key, is_live, record_live, Store};

verus! {

/// The delivery capability of one attached transport connection: the hub
/// writes payloads to it and asks it to close, and learns only whether each
/// attempt succeeded. Implemented outside the hub by the transport layer,
/// and by test doubles.
pub trait Session {
    /// Attempt to deliver `payload`; `true` on success.
    fn write(&mut self, payload: &str) -> bool;

    /// Ask the transport to close the connection; `true` on success.
    fn close(&mut self) -> bool;
}

/// One live attachment: a session bound to a channel, under an opaque
/// identifier assigned at attach time.
pub struct Conn<S> {
    pub channel_id: u128,
    pub session_id: u64,
    pub session: S,
}

/// The first channel with the given id, scanning front to back.
pub open spec fn find_channel(cs: Seq<Channel>, id: u128) -> Option<Channel>
    decreases cs.len(),
{
    if cs.len() == 0 {
        None
    } else if cs[0].id == id {
        Some(cs[0])
    } else {
        find_channel(cs.drop_first(), id)
    }
}

/// The attachments that belong to the channel, in order.
pub open spec fn channel_conns<S>(conns: Seq<Conn<S>>, id: u128) -> Seq<Conn<S>> {
    conns.filter(|c: Conn<S>| c.channel_id == id)
}

/// The attachments of every other channel, in order.
pub open spec fn conns_except<S>(conns: Seq<Conn<S>>, id: u128) -> Seq<Conn<S>> {
    conns.filter(|c: Conn<S>| c.channel_id != id)
}

/// The attachments left after detaching one session from one channel.
pub open spec fn retained<S>(conns: Seq<Conn<S>>, id: u128, session_id: u64) -> Seq<Conn<S>> {
    conns.filter(|c: Conn<S>| !(c.channel_id == id && c.session_id == session_id))
}

/// How many live sessions a channel has.
pub open spec fn live_count<S>(conns: Seq<Conn<S>>, id: u128) -> nat {
    channel_conns(conns, id).len()
}

/// The identifying pair of each attachment, in order.
pub open spec fn conn_keys<S>(conns: Seq<Conn<S>>) -> Seq<(u128, u64)> {
    conns.map_values(|c: Conn<S>| (c.channel_id, c.session_id))
}

/// The keys whose flag is set, in their original order. Meaningful when the
/// two sequences have the same length.
pub open spec fn selected_keys(keys: Seq<(u128, u64)>, picked: Seq<bool>) -> Seq<(u128, u64)>
    decreases keys.len(),
{
    if keys.len() == 0 {
        Seq::empty()
    } else {
        let rest = selected_keys(keys.drop_last(), picked.drop_last());
        if picked.len() == keys.len() && picked.last() {
            rest.push(keys.last())
        } else {
            rest
        }
    }
}

/// How many flags are set.
pub open spec fn count_true(picked: Seq<bool>) -> nat
    decreases picked.len(),
{
    if picked.len() == 0 {
        0
    } else {
        count_true(picked.drop_last()) + if picked.last() {
            1nat
        } else {
            0nat
        }
    }
}

/// What one fan-out does to a channel's live set, abstractly: one outcome
/// flag per old attachment, the survivors are exactly the flagged ones (by
/// identity, in their original order), and the delivery count is the number
/// flagged.
pub open spec fn pruned_by_outcomes<S>(
    pre: Seq<Conn<S>>,
    post: Seq<Conn<S>>,
    id: u128,
    sent: nat,
) -> bool {
    exists|picked: Seq<bool>|
        {
            &&& picked.len() == live_count(pre, id)
            &&& conn_keys(channel_conns(post, id)) == #[trigger] selected_keys(
                conn_keys(channel_conns(pre, id)),
                picked,
            )
            &&& sent == count_true(picked)
        }
}

pub proof fn lemma_conn_keys_push<S>(s: Seq<Conn<S>>, c: Conn<S>)
    ensures
        conn_keys(s.push(c)) == conn_keys(s).push((c.channel_id, c.session_id)),
{
    assert(conn_keys(s.push(c)) =~= conn_keys(s).push((c.channel_id, c.session_id)));
}

pub proof fn lemma_selected_keys_push(
    keys: Seq<(u128, u64)>,
    picked: Seq<bool>,
    k: (u128, u64),
    b: bool,
)
    requires
        keys.len() == picked.len(),
    ensures
        selected_keys(keys.push(k), picked.push(b)) == if b {
            selected_keys(keys, picked).push(k)
        } else {
            selected_keys(keys, picked)
        },
        count_true(picked.push(b)) == count_true(picked) + if b {
            1nat
        } else {
            0nat
        },
{
    assert(keys.push(k).drop_last() =~= keys);
    assert(picked.push(b).drop_last() =~= picked);
}

pub proof fn lemma_channel_conns_empty<S>(id: u128, session_id: u64)
    ensures
        channel_conns(Seq::<Conn<S>>::empty(), id) == Seq::<Conn<S>>::empty(),
        conns_except(Seq::<Conn<S>>::empty(), id) == Seq::<Conn<S>>::empty(),
        retained(Seq::<Conn<S>>::empty(), id, session_id) == Seq::<Conn<S>>::empty(),
{
    reveal(Seq::filter);
}

pub proof fn lemma_channel_conns_push<S>(s: Seq<Conn<S>>, c: Conn<S>, id: u128, session_id: u64)
    ensures
        channel_conns(s.push(c), id) == if c.channel_id == id {
            channel_conns(s, id).push(c)
        } else {
            channel_conns(s, id)
        },
        conns_except(s.push(c), id) == if c.channel_id != id {
            conns_except(s, id).push(c)
        } else {
            conns_except(s, id)
        },
        retained(s.push(c), id, session_id) == if !(c.channel_id == id && c.session_id
            == session_id) {
            retained(s, id, session_id).push(c)
        } else {
            retained(s, id, session_id)
        },
{
    reveal(Seq::filter);
    assert(s.push(c).drop_last() =~= s);
}

/// Closing a channel's attachments empties that channel's live set and
/// leaves every other channel's attachments exactly as they were.
pub proof fn lemma_conns_except_counts<S>(conns: Seq<Conn<S>>, id: u128, other: u128)
    requires
        other != id,
    ensures
        live_count(conns_except(conns, id), id) == 0,
        channel_conns(conns_except(conns, id), other) == channel_conns(conns, other),
    decreases conns.len(),
{
    reveal(Seq::filter);
    if conns.len() > 0 {
        let dl = conns.drop_last();
        let c = conns.last();
        lemma_conns_except_counts(dl, id, other);
        if c.channel_id != id {
            assert(conns_except(conns, id) == conns_except(dl, id).push(c));
            lemma_channel_conns_push(conns_except(dl, id), c, id, 0);
            lemma_channel_conns_push(conns_except(dl, id), c, other, 0);
            assert(dl.push(c) =~= conns);
        }
    }
}

pub proof fn lemma_find_none(cs: Seq<Channel>, id: u128)
    requires
        find_channel(cs, id) is None,
    ensures
        forall|j: int| 0 <= j < cs.len() ==> (#[trigger] cs[j]).id != id,
    decreases cs.len(),
{
    if cs.len() > 0 {
        lemma_find_none(cs.drop_first(), id);
        assert forall|j: int| 0 <= j < cs.len() implies (#[trigger] cs[j]).id != id by {
            if j > 0 {
                assert(cs.drop_first()[j - 1] == cs[j]);
            }
        }
    }
}

/// Replacing the first channel that carries an id changes what `find`
/// returns for that id and nothing else.
pub proof fn lemma_find_update(cs: Seq<Channel>, i: int, c: Channel, id: u128)
    requires
        0 <= i < cs.len(),
        cs[i].id == c.id,
        forall|j: int| 0 <= j < i ==> (#[trigger] cs[j]).id != c.id,
    ensures
        find_channel(cs.update(i, c), c.id) == Some(c),
        id != c.id ==> find_channel(cs.update(i, c), id) == find_channel(cs, id),
    decreases i,
{
    if i == 0 {
        assert(cs.update(0, c).drop_first() =~= cs.drop_first());
    } else {
        assert(cs.update(i, c).drop_first() =~= cs.drop_first().update(i - 1, c));
        assert forall|j: int| 0 <= j < i - 1 implies (#[trigger] cs.drop_first()[j]).id != c.id by {
            assert(cs.drop_first()[j] == cs[j + 1]);
        }
        assert(cs.drop_first()[i - 1] == cs[i]);
        lemma_find_update(cs.drop_first(), i - 1, c, id);
        assert(cs[0].id != c.id);
    }
}

/// Appending a channel whose id is not yet present changes what `find`
/// returns for that id and nothing else.
pub proof fn lemma_find_push(cs: Seq<Channel>, c: Channel, id: u128)
    ensures
        find_channel(cs.push(c), id) == if find_channel(cs, id) is Some {
            find_channel(cs, id)
        } else if c.id == id {
            Some(c)
        } else {
            None::<Channel>
        },
    decreases cs.len(),
{
    if cs.len() == 0 {
        assert(cs.push(c)[0] == c);
        assert(cs.push(c).drop_first() =~= Seq::<Channel>::empty());
    } else {
        assert(cs.push(c).drop_first() =~= cs.drop_first().push(c));
        lemma_find_push(cs.drop_first(), c, id);
    }
}

/// The hub's shared state: the durable store, the in-memory channel
/// registry, and the live attachments of every channel.
pub struct AppState<S> {
    store: Store,
    active_channels: Vec<Channel>,
    connections: Vec<Conn<S>>,
}

/// What a status overwrite that failed in the store leaves behind there:
/// usually nothing, but a write whose commit failed late may already have
/// become durable, so the table may instead hold the new snapshot (at some
/// clock reading).
pub open spec fn store_after_failed_overwrite<S>(
    pre: AppState<S>,
    post: AppState<S>,
    channel_id: u128,
    st: ChannelStatus,
) -> bool {
    find_channel(pre.channels(), channel_id) matches Some(c0) && (post.store_channels()
        == pre.store_channels() || exists|ts: u64|
        post.store_channels() == pre.store_channels().insert(
            id_key(channel_id),
            #[trigger] channel_record(with_status(c0, st, ts)@),
        ))
}

impl<S> AppState<S> {
    /// The in-memory channel registry.
    pub closed spec fn channels(&self) -> Seq<Channel> {
        self.active_channels@
    }

    /// The live attachments.
    pub closed spec fn conns(&self) -> Seq<Conn<S>> {
        self.connections@
    }

    /// The durable `channels` table.
    pub closed spec fn store_channels(&self) -> Map<Seq<char>, Seq<char>> {
        self.store.channels()
    }

    /// The durable `messages` table.
    pub closed spec fn store_messages(&self) -> Map<Seq<char>, Seq<char>> {
        self.store.messages()
    }

    /// Registry invariant: ids are unique, and every channel is well formed.
    pub open spec fn wf(&self) -> bool {
        &&& forall|i: int, j: int|
            0 <= i < j < self.channels().len() ==> (#[trigger] self.channels()[i]).id != (
            #[trigger] self.channels()[j]).id
        &&& forall|i: int| 0 <= i < self.channels().len() ==> (#[trigger] self.channels()[i]).wf()
    }

    /// Open the durable store at `db_path` and load the registry from it:
    /// exactly the stored channels whose records decode to an `Active` or
    /// `Paused` snapshot come back; `Created` and `Stopped` channels and
    /// undecodable records are not resurrected. No sessions are attached.
    pub fn new(db_path: &str) -> (r: Result<AppState<S>, HubError>)
        ensures
            r is Err ==> r == Err::<AppState<S>, HubError>(HubError::PersistenceError),
            r matches Ok(st) ==> {
                &&& st.wf()
                &&& st.conns().len() == 0
                &&& forall|i: int|
                    0 <= i < st.channels().len() ==> is_live(
                        (#[trigger] st.channels()[i]).status,
                    ) && from_store(st.store_channels(), st.channels()[i])
                &&& forall|k: Seq<char>|
                    st.store_channels().dom().contains(k) && #[trigger] record_live(
                        st.store_channels()[k],
                    ) ==> find_channel(
                        st.channels(),
                        parse_channel_record(st.store_channels()[k])->Some_0.id,
                    ) is Some
            },
    {
        let store = match Store::open(db_path) {
            Some(s) => s,
            None => {
                return Err(HubError::PersistenceError);
            },
        };
        let loaded = match store.load_live_channels() {
            Ok(cs) => cs,
            Err(e) => {
                return Err(e);
            },
        };
        let ghost m0 = store.channels();
        let mut st = AppState { store, active_channels: Vec::new(), connections: Vec::new() };
        let mut idx: usize = 0;
        while idx < loaded.len()
            invariant
                idx <= loaded@.len(),
                st.wf(),
                st.conns().len() == 0,
                st.store_channels() == m0,
                forall|i: int|
                    0 <= i < loaded@.len() ==> (#[trigger] loaded@[i]).wf() && is_live(
                        loaded@[i].status,
                    ) && from_store(m0, loaded@[i]),
                forall|i: int|
                    0 <= i < st.channels().len() ==> is_live(
                        (#[trigger] st.channels()[i]).status,
                    ) && from_store(m0, st.channels()[i]),
                forall|j: int|
                    0 <= j < idx ==> find_channel(st.channels(), (#[trigger] loaded@[j]).id)
                        is Some,
            decreases loaded@.len() - idx,
        {
            let c = loaded[idx].snapshot();
            let ghost pre = st.channels();
            let ghost cj = c;
            st.upsert_channel(c);
            proof {
                assert forall|j: int| 0 <= j < idx + 1 implies find_channel(
                    st.channels(),
                    (#[trigger] loaded@[j]).id,
                ) is Some by {
                    if j < idx && loaded@[j].id != cj.id {
                        assert(find_channel(st.channels(), loaded@[j].id) == find_channel(
                            pre,
                            loaded@[j].id,
                        ));
                    }
                }
                assert forall|i: int| 0 <= i < st.channels().len() implies is_live(
                    (#[trigger] st.channels()[i]).status,
                ) && from_store(m0, st.channels()[i]) by {
                    if st.channels()[i] != cj {
                        assert(pre.contains(st.channels()[i]));
                        let j = choose|j: int| 0 <= j < pre.len() && pre[j] == st.channels()[i];
                        assert(is_live(pre[j].status) && from_store(m0, pre[j]));
                    }
                }
            }
            idx = idx + 1;
        }
        proof {
            assert forall|k: Seq<char>|
                st.store_channels().dom().contains(k) && #[trigger] record_live(
                    st.store_channels()[k],
                ) implies find_channel(
                st.channels(),
                parse_channel_record(st.store_channels()[k])->Some_0.id,
            ) is Some by {
                let i = choose|i: int|
                    0 <= i < loaded@.len() && Some((#[trigger] loaded@[i])@) == parse_channel_record(
                        m0[k],
                    );
                assert(find_channel(st.channels(), loaded@[i].id) is Some);
            }
        }
        Ok(st)
    }

    /// Scan for the channel's position. Yields the first index carrying the
    /// id, or nothing when no channel does.
    fn find_index(&self, channel_id: u128) -> (r: Option<usize>)
        ensures
            match r {
                Some(i) => i < self.channels().len() && self.channels()[i as int].id == channel_id
                    && find_channel(self.channels(), channel_id) == Some(
                    self.channels()[i as int],
                ) && forall|j: int| 0 <= j < i ==> (#[trigger] self.channels()[j]).id != channel_id,
                None => find_channel(self.channels(), channel_id) is None,
            },
    {
        let n = self.active_channels.len();
        proof {
            assert(self.channels().subrange(0, n as int) =~= self.channels());
        }
        let mut i: usize = 0;
        while i < n
            invariant
                i <= n,
                n == self.channels().len(),
                find_channel(self.channels().subrange(i as int, n as int), channel_id)
                    == find_channel(self.channels(), channel_id),
                forall|j: int| 0 <= j < i ==> (#[trigger] self.channels()[j]).id != channel_id,
            decreases n - i,
        {
            if self.active_channels[i].id == channel_id {
                proof {
                    assert(self.channels().subrange(i as int, n as int)[0] == self.channels()[
                        i as int
                    ]);
                }
                return Some(i);
            }
            proof {
                assert(self.channels().subrange(i as int, n as int).drop_first()
                    =~= self.channels().subrange(i + 1, n as int));
            }
            i = i + 1;
        }
        proof {
            assert(self.channels().subrange(n as int, n as int) =~= Seq::<Channel>::empty());
        }
        None
    }

    /// A snapshot of the channel, when it is registered.
    pub fn get_channel(&self, channel_id: u128) -> (r: Option<Channel>)
        ensures
            r == find_channel(self.channels(), channel_id),
    {
        match self.find_index(channel_id) {
            Some(i) => Some(self.active_channels[i].snapshot()),
            None => None,
        }
    }

    /// A snapshot of the whole registry, in registry order.
    pub fn list_channels(&self) -> (r: Vec<Channel>)
        ensures
            r@ == self.channels(),
    {
        let n = self.active_channels.len();
        let mut out: Vec<Channel> = Vec::new();
        let mut i: usize = 0;
        while i < n
            invariant
                i <= n,
                n == self.channels().len(),
                out@ == self.channels().subrange(0, i as int),
            decreases n - i,
        {
            out.push(self.active_channels[i].snapshot());
            proof {
                assert(self.channels().subrange(0, i + 1) =~= self.channels().subrange(
                    0,
                    i as int,
                ).push(self.channels()[i as int]));
            }
            i = i + 1;
        }
        proof {
            assert(self.channels().subrange(0, n as int) =~= self.channels());
        }
        out
    }

    /// Put the channel into the registry: replace the entry that carries its
    /// id, or append. Only the durable store is left untouched; persisting is
    /// the caller's step.
    pub fn upsert_channel(&mut self, c: Channel)
        requires
            old(self).wf(),
            c.wf(),
        ensures
            final(self).wf(),
            find_channel(final(self).channels(), c.id) == Some(c),
            forall|other: u128|
                other != c.id ==> #[trigger] find_channel(final(self).channels(), other)
                    == find_channel(old(self).channels(), other),
            forall|i: int|
                0 <= i < final(self).channels().len() ==> (#[trigger] final(self).channels()[i])
                    == c || old(self).channels().contains(final(self).channels()[i]),
            final(self).conns() == old(self).conns(),
            final(self).store_channels() == old(self).store_channels(),
            final(self).store_messages() == old(self).store_messages(),
    {
        let ghost pre = self.channels();
        match self.find_index(c.id) {
            Some(i) => {
                let ghost cc = c;
                self.active_channels.remove(i);
                self.active_channels.insert(i, c);
                proof {
                    assert(self.channels() =~= pre.update(i as int, cc));
                    lemma_find_update(pre, i as int, cc, 0);
                    assert forall|other: u128| other != cc.id implies #[trigger] find_channel(
                        self.channels(),
                        other,
                    ) == find_channel(pre, other) by {
                        lemma_find_update(pre, i as int, cc, other);
                    }
                    assert forall|j: int| 0 <= j < self.channels().len() implies (
                    #[trigger] self.channels()[j]) == cc || pre.contains(self.channels()[j]) by {
                        if j != i {
                            assert(self.channels()[j] == pre[j]);
                            assert(pre.contains(pre[j]));
                        }
                    }
                }
            },
            None => {
                let ghost cc = c;
                self.active_channels.push(c);
                proof {
                    lemma_find_none(pre, cc.id);
                    assert(self.channels() =~= pre.push(cc));
                    assert forall|other: u128| other != cc.id implies #[trigger] find_channel(
                        self.channels(),
                        other,
                    ) == find_channel(pre, other) by {
                        lemma_find_push(pre, cc, other);
                    }
                    lemma_find_push(pre, cc, cc.id);
                    assert forall|j: int| 0 <= j < self.channels().len() implies (
                    #[trigger] self.channels()[j]) == cc || pre.contains(self.channels()[j]) by {
                        if j < pre.len() {
                            assert(self.channels()[j] == pre[j]);
                            assert(pre.contains(pre[j]));
                        }
                    }
                }
            },
        }
    }

    /// Overwrite the channel's status (no transition guard), refresh its
    /// last-update time without moving it backwards, and write the snapshot
    /// through to the durable store before the registry is changed. Fails
    /// with `NotFound` exactly when the id is unknown, and with
    /// `PersistenceError` when the store write fails — the registry is then
    /// untouched, though the unacknowledged write may still have reached the
    /// store.
    pub fn update_channel_status(&mut self, channel_id: u128, status: ChannelStatus) -> (r: Result<
        Channel,
        HubError,
    >)
        requires
            old(self).wf(),
        ensures
            final(self).wf(),
            final(self).conns() == old(self).conns(),
            final(self).store_messages() == old(self).store_messages(),
            r == Err::<Channel, HubError>(HubError::NotFound) <==> find_channel(
                old(self).channels(),
                channel_id,
            ) is None,
            r is Err ==> final(self).channels() == old(self).channels() && (r
                == Err::<Channel, HubError>(HubError::NotFound) || r
                == Err::<Channel, HubError>(HubError::PersistenceError)),
            r == Err::<Channel, HubError>(HubError::NotFound) ==> final(self).store_channels()
                == old(self).store_channels(),
            r == Err::<Channel, HubError>(HubError::PersistenceError)
                ==> store_after_failed_overwrite(*old(self), *final(self), channel_id, status),
            r matches Ok(c) ==> {
                &&& find_channel(old(self).channels(), channel_id) matches Some(c0) && c
                    == with_status(c0, status, c.updated_at) && c.updated_at >= c0.updated_at
                &&& c.id == channel_id && c.status == status
                &&& find_channel(final(self).channels(), channel_id) == Some(c)
                &&& forall|other: u128|
                    other != channel_id ==> #[trigger] find_channel(final(self).channels(), other)
                        == find_channel(old(self).channels(), other)
                &&& final(self).channels().len() == old(self).channels().len()
                &&& final(self).store_channels() == old(self).store_channels().insert(
                    id_key(channel_id),
                    channel_record(c@),
                )
            },
    {
        let i = match self.find_index(channel_id) {
            Some(i) => i,
            None => {
                return Err(HubError::NotFound);
            },
        };
        let c0 = self.active_channels[i].snapshot();
        let now = now_millis();
        let updated_at = if now > c0.updated_at {
            now
        } else {
            c0.updated_at
        };
        let ghost c0_snap = c0;
        let c = Channel { status: status, updated_at: updated_at, ..c0 };
        if self.store.save_channel(&c).is_err() {
            proof {
                assert(c == with_status(c0_snap, status, updated_at));
                if self.store.channels() != old(self).store.channels() {
                    assert(self.store.channels() == old(self).store.channels().insert(
                        id_key(channel_id),
                        channel_record(with_status(c0_snap, status, updated_at)@),
                    ));
                }
            }
            return Err(HubError::PersistenceError);
        }
        let ret = c.snapshot();
        let ghost pre = self.channels();
        let ghost cc = c;
        self.active_channels.remove(i);
        self.active_channels.insert(i, c);
        proof {
            assert(self.channels() =~= pre.update(i as int, cc));
            lemma_find_update(pre, i as int, cc, 0);
            assert forall|other: u128| other != channel_id implies #[trigger] find_channel(
                self.channels(),
                other,
            ) == find_channel(pre, other) by {
                lemma_find_update(pre, i as int, cc, other);
            }
        }
        Ok(ret)
    }

    /// Write one channel snapshot through to the durable store. The registry
    /// and the attachments are untouched. On failure the write was not
    /// acknowledged but may still have become durable.
    pub fn save_channel(&mut self, c: &Channel) -> (r: Result<(), HubError>)
        ensures
            r is Ok ==> final(self).store_channels() == old(self).store_channels().insert(
                id_key(c.id),
                channel_record(c@),
            ),
            r is Err ==> r == Err::<(), HubError>(HubError::PersistenceError) && (final(self).store_channels() == old(self).store_channels() || final(self).store_channels()
                == old(self).store_channels().insert(id_key(c.id), channel_record(c@))),
            final(self).store_messages() == old(self).store_messages(),
            final(self).channels() == old(self).channels(),
            final(self).conns() == old(self).conns(),
    {
        self.store.save_channel(c)
    }

    /// Write one message through to the durable store. The registry and the
    /// attachments are untouched. On failure the write was not acknowledged
    /// but may still have become durable.
    pub fn save_message(&mut self, m: &crate::message::BroadcastMessage) -> (r: Result<
        (),
        HubError,
    >)
        ensures
            r is Ok ==> final(self).store_messages() == old(self).store_messages().insert(
                id_key(m.id),
                crate::codec::message_record(m@),
            ),
            r is Err ==> r == Err::<(), HubError>(HubError::PersistenceError) && (final(self).store_messages() == old(self).store_messages() || final(self).store_messages()
                == old(self).store_messages().insert(
                id_key(m.id),
                crate::codec::message_record(m@),
            )),
            final(self).store_channels() == old(self).store_channels(),
            final(self).channels() == old(self).channels(),
            final(self).conns() == old(self).conns(),
    {
        self.store.save_message(m)
    }

    /// Append an attachment with no status gate; `attach_session` is the
    /// gated entry point.
    pub fn add_connection(&mut self, channel_id: u128, session_id: u64, session: S)
        ensures
            final(self).conns() == old(self).conns().push(
                Conn { channel_id, session_id, session },
            ),
            final(self).channels() == old(self).channels(),
            final(self).store_channels() == old(self).store_channels(),
            final(self).store_messages() == old(self).store_messages(),
    {
        self.connections.push(Conn { channel_id, session_id, session });
    }

    /// Attach a session to a channel: accepted exactly when the channel is
    /// registered and `Active`; refused with `NotFound` when the id is
    /// unknown and with `ChannelNotActive` — adding nothing — whenever the
    /// channel's status is not `Active`.
    pub fn attach_session(&mut self, channel_id: u128, session_id: u64, session: S) -> (r: Result<
        (),
        HubError,
    >)
        ensures
            final(self).channels() == old(self).channels(),
            final(self).store_channels() == old(self).store_channels(),
            final(self).store_messages() == old(self).store_messages(),
            r == Err::<(), HubError>(HubError::NotFound) <==> find_channel(
                old(self).channels(),
                channel_id,
            ) is None,
            r == Err::<(), HubError>(HubError::ChannelNotActive) <==> (find_channel(
                old(self).channels(),
                channel_id,
            ) matches Some(c) && c.status != ChannelStatus::Active),
            r is Ok <==> (find_channel(old(self).channels(), channel_id) matches Some(c)
                && c.status == ChannelStatus::Active),
            r is Ok ==> final(self).conns() == old(self).conns().push(
                Conn { channel_id, session_id, session },
            ),
            r is Err ==> final(self).conns() == old(self).conns(),
    {
        match self.find_index(channel_id) {
            None => Err(HubError::NotFound),
            Some(i) => {
                let active = match self.active_channels[i].status {
                    ChannelStatus::Active => true,
                    _ => false,
                };
                if active {
                    self.connections.push(Conn { channel_id, session_id, session });
                    Ok(())
                } else {
                    Err(HubError::ChannelNotActive)
                }
            },
        }
    }

    /// Detach one session from one channel: every attachment carrying that
    /// pair of identifiers is removed; nothing happens when none does.
    pub fn remove_connection(&mut self, channel_id: u128, session_id: u64)
        ensures
            final(self).conns() == retained(old(self).conns(), channel_id, session_id),
            final(self).channels() == old(self).channels(),
            final(self).store_channels() == old(self).store_channels(),
            final(self).store_messages() == old(self).store_messages(),
    {
        let mut work: Vec<Conn<S>> = Vec::new();
        core::mem::swap(&mut work, &mut self.connections);
        let ghost orig = work@;
        let n = work.len();
        let mut kept: Vec<Conn<S>> = Vec::new();
        let mut k: usize = 0;
        proof {
            lemma_channel_conns_empty::<S>(channel_id, session_id);
            assert(orig.subrange(0, 0) =~= Seq::<Conn<S>>::empty());
        }
        while k < n
            invariant
                k <= n,
                n == orig.len(),
                work@ == orig.subrange(k as int, n as int),
                kept@ == retained(orig.subrange(0, k as int), channel_id, session_id),
            decreases n - k,
        {
            let c = work.remove(0);
            let ghost prefix = orig.subrange(0, k as int);
            proof {
                assert(work@ =~= orig.subrange(k + 1, n as int));
                assert(c == orig[k as int]);
                assert(orig.subrange(0, k + 1) =~= prefix.push(c));
                lemma_channel_conns_push(prefix, c, channel_id, session_id);
            }
            if !(c.channel_id == channel_id && c.session_id == session_id) {
                kept.push(c);
            }
            k = k + 1;
        }
        proof {
            assert(orig.subrange(0, n as int) =~= orig);
        }
        self.connections = kept;
    }
}

impl<S: Session> AppState<S> {
    /// Fan one payload out to every session of the channel. A session whose
    /// write fails is dropped from the live set (the self-healing prune);
    /// the count of successful deliveries comes back, and it always equals
    /// the number of sessions the channel still has. Other channels'
    /// attachments are untouched, as are the registry and the store.
    pub fn broadcast_to_channel(&mut self, channel_id: u128, payload: &str) -> (sent: usize)
        ensures
            sent == live_count(final(self).conns(), channel_id),
            live_count(final(self).conns(), channel_id) <= live_count(
                old(self).conns(),
                channel_id,
            ),
            pruned_by_outcomes(old(self).conns(), final(self).conns(), channel_id, sent as nat),
            conns_except(final(self).conns(), channel_id) == conns_except(
                old(self).conns(),
                channel_id,
            ),
            final(self).channels() == old(self).channels(),
            final(self).store_channels() == old(self).store_channels(),
            final(self).store_messages() == old(self).store_messages(),
    {
        let mut work: Vec<Conn<S>> = Vec::new();
        core::mem::swap(&mut work, &mut self.connections);
        let ghost orig = work@;
        let n = work.len();
        let mut kept: Vec<Conn<S>> = Vec::new();
        let mut sent: usize = 0;
        let mut k: usize = 0;
        let ghost mut picked: Seq<bool> = Seq::empty();
        proof {
            lemma_channel_conns_empty::<S>(channel_id, 0);
            assert(orig.subrange(0, 0) =~= Seq::<Conn<S>>::empty());
            assert(conn_keys(Seq::<Conn<S>>::empty()) =~= Seq::<(u128, u64)>::empty());
        }
        while k < n
            invariant
                k <= n,
                n == orig.len(),
                work@ == orig.subrange(k as int, n as int),
                kept@.len() <= k,
                sent == live_count(kept@, channel_id),
                live_count(kept@, channel_id) <= live_count(
                    orig.subrange(0, k as int),
                    channel_id,
                ),
                conns_except(kept@, channel_id) == conns_except(
                    orig.subrange(0, k as int),
                    channel_id,
                ),
                picked.len() == live_count(orig.subrange(0, k as int), channel_id),
                conn_keys(channel_conns(kept@, channel_id)) == selected_keys(
                    conn_keys(channel_conns(orig.subrange(0, k as int), channel_id)),
                    picked,
                ),
                sent == count_true(picked),
            decreases n - k,
        {
            let mut c = work.remove(0);
            let ghost c_pre = c;
            let ghost prefix = orig.subrange(0, k as int);
            let ghost kept_pre = kept@;
            let ghost prefix_keys = conn_keys(channel_conns(prefix, channel_id));
            proof {
                assert(work@ =~= orig.subrange(k + 1, n as int));
                assert(c == orig[k as int]);
                assert(orig.subrange(0, k + 1) =~= prefix.push(c));
                lemma_channel_conns_push(prefix, c, channel_id, 0);
                if c.channel_id == channel_id {
                    lemma_conn_keys_push(channel_conns(prefix, channel_id), c);
                }
            }
            if c.channel_id == channel_id {
                let delivered = c.session.write(payload);
                proof {
                    let picked_pre = picked;
                    picked = picked_pre.push(delivered);
                    lemma_selected_keys_push(
                        prefix_keys,
                        picked_pre,
                        (c_pre.channel_id, c_pre.session_id),
                        delivered,
                    );
                }
                if delivered {
                    sent = sent + 1;
                    proof {
                        lemma_channel_conns_push(kept_pre, c, channel_id, 0);
                        lemma_conn_keys_push(channel_conns(kept_pre, channel_id), c);
                    }
                    kept.push(c);
                }
                // a failed write drops the session
            } else {
                proof {
                    lemma_channel_conns_push(kept_pre, c, channel_id, 0);
                }
                kept.push(c);
            }
            k = k + 1;
        }
        proof {
            assert(orig.subrange(0, n as int) =~= orig);
            assert(conn_keys(channel_conns(kept@, channel_id)) == selected_keys(
                conn_keys(channel_conns(orig, channel_id)),
                picked,
            ));
            assert(pruned_by_outcomes(orig, kept@, channel_id, sent as nat));
        }
        self.connections = kept;
        sent
    }

    /// Tear down every attachment of the channel: each session is asked to
    /// close, failures are swallowed, and the channel's live set is drained.
    /// Other channels' attachments are untouched.
    pub fn close_all(&mut self, channel_id: u128)
        ensures
            final(self).conns() == conns_except(old(self).conns(), channel_id),
            final(self).channels() == old(self).channels(),
            final(self).store_channels() == old(self).store_channels(),
            final(self).store_messages() == old(self).store_messages(),
    {
        let mut work: Vec<Conn<S>> = Vec::new();
        core::mem::swap(&mut work, &mut self.connections);
        let ghost orig = work@;
        let n = work.len();
        let mut kept: Vec<Conn<S>> = Vec::new();
        let mut k: usize = 0;
        proof {
            lemma_channel_conns_empty::<S>(channel_id, 0);
            assert(orig.subrange(0, 0) =~= Seq::<Conn<S>>::empty());
        }
        while k < n
            invariant
                k <= n,
                n == orig.len(),
                work@ == orig.subrange(k as int, n as int),
                kept@ == conns_except(orig.subrange(0, k as int), channel_id),
            decreases n - k,
        {
            let mut c = work.remove(0);
            let ghost prefix = orig.subrange(0, k as int);
            proof {
                assert(work@ =~= orig.subrange(k + 1, n as int));
                assert(c == orig[k as int]);
                assert(orig.subrange(0, k + 1) =~= prefix.push(c));
                lemma_channel_conns_push(prefix, c, channel_id, 0);
            }
            if c.channel_id == channel_id {
                let _closed = c.session.close();
            } else {
                kept.push(c);
            }
            k = k + 1;
        }
        proof {
            assert(orig.subrange(0, n as int) =~= orig);
        }
        self.connections = kept;
    }
}

} // verus!
