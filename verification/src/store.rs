//! The durable store: two string-keyed tables, `channels` and `messages`,
//! inside a transactional key-value database. Each value is one text record
//! of the codec. The database itself is an outside collection; its contents
//! are modelled by two uninterpreted maps that the trusted wrappers maintain.

use vstd::prelude::*;
use crate::channel::{Channel, ChannelStatus};
use crate::codec::{channel_record, enc_hex, encode_channel, encode_message, message_record,
    parse_channel, parse_channel_record, push_hex};
use crate::errors::HubError;
use crate::message::BroadcastMessage;
use crate::text::{chars_of_str, string_from_chars};

verus! {

#[verifier::external_type_specification]
#[verifier::external_body]
pub struct ExDatabase(redb::Database);

/// What the `channels` table of the database holds: record text by key.
pub uninterp spec fn channel_table(db: redb::Database) -> Map<Seq<char>, Seq<char>>;

/// What the `messages` table of the database holds: record text by key.
pub uninterp spec fn message_table(db: redb::Database) -> Map<Seq<char>, Seq<char>>;

/// Relies on `redb::Database::create` and `WriteTransaction::open_table` /
/// `commit`: opens (or creates) the database file at `path` and makes sure
/// both tables exist. The file may already hold records, so nothing is
/// assumed of the tables' contents.
#[verifier::external_body]
fn open_database(path: &str) -> (r: Option<redb::Database>) {
    let db = redb::Database::create(path).ok()?;
    let txn = db.begin_write().ok()?;
    txn.open_table(redb::TableDefinition::<&str, &str>::new("channels")).ok()?;
    txn.open_table(redb::TableDefinition::<&str, &str>::new("messages")).ok()?;
    txn.commit().ok()?;
    Some(db)
}

/// Relies on `redb::Table::insert` inside one write transaction: after
/// `commit` returns `Ok`, the `channels` table maps `key` to `value` and
/// nothing else changed. On failure the transaction is normally rolled
/// back, but a commit that fails late may already have published the
/// change, so the table is then either unchanged or already holds the pair.
#[verifier::external_body]
fn db_put_channel(db: &mut redb::Database, key: &str, value: &str) -> (r: bool)
    ensures
        r ==> channel_table(*final(db)) == channel_table(*old(db)).insert(key@, value@),
        !r ==> channel_table(*final(db)) == channel_table(*old(db)) || channel_table(*final(db))
            == channel_table(*old(db)).insert(key@, value@),
        message_table(*final(db)) == message_table(*old(db)),
{
    let txn = match db.begin_write() {
        Ok(t) => t,
        Err(_) => return false,
    };
    let mut stored = false;
    if let Ok(mut table) = txn.open_table(redb::TableDefinition::<&str, &str>::new("channels")) {
        stored = table.insert(key, value).is_ok();
    }
    stored && txn.commit().is_ok()
}

/// Relies on `redb::Table::insert` inside one write transaction, exactly as
/// `db_put_channel`, for the `messages` table: on failure the table is
/// unchanged or already holds the pair.
#[verifier::external_body]
fn db_put_message(db: &mut redb::Database, key: &str, value: &str) -> (r: bool)
    ensures
        r ==> message_table(*final(db)) == message_table(*old(db)).insert(key@, value@),
        !r ==> message_table(*final(db)) == message_table(*old(db)) || message_table(*final(db))
            == message_table(*old(db)).insert(key@, value@),
        channel_table(*final(db)) == channel_table(*old(db)),
{
    let txn = match db.begin_write() {
        Ok(t) => t,
        Err(_) => return false,
    };
    let mut stored = false;
    if let Ok(mut table) = txn.open_table(redb::TableDefinition::<&str, &str>::new("messages")) {
        stored = table.insert(key, value).is_ok();
    }
    stored && txn.commit().is_ok()
}

/// Relies on `redb::ReadableTable::iter` inside one read transaction: the
/// pairs are exactly the committed contents of the `channels` table — every
/// pair returned is in the table, and every key of the table appears.
#[verifier::external_body]
fn db_scan_channels(db: &redb::Database) -> (r: Option<Vec<(String, String)>>)
    ensures
        r matches Some(pairs) ==> {
            &&& forall|i: int|
                0 <= i < pairs@.len() ==> channel_table(*db).contains_pair(
                    (#[trigger] pairs@[i]).0@,
                    pairs@[i].1@,
                )
            &&& forall|k: Seq<char>|
                channel_table(*db).dom().contains(k) ==> exists|i: int|
                    0 <= i < pairs@.len() && (#[trigger] pairs@[i]).0@ == k
        },
{
    let txn = redb::ReadableDatabase::begin_read(db).ok()?;
    let table = txn.open_table(redb::TableDefinition::<&str, &str>::new("channels")).ok()?;
    let mut out: Vec<(String, String)> = Vec::new();
    for item in redb::ReadableTable::iter(&table).ok()? {
        let (k, v) = item.ok()?;
        out.push((k.value().to_string(), v.value().to_string()));
    }
    Some(out)
}

/// The key a record is stored under: the owning id, in the same fixed-width
/// hexadecimal the records themselves use.
pub open spec fn id_key(id: u128) -> Seq<char> {
    enc_hex(id as nat, 32)
}

/// A status that survives a restart: the registry reloads only channels that
/// were `Active` or `Paused`.
pub open spec fn is_live(st: ChannelStatus) -> bool {
    st == ChannelStatus::Active || st == ChannelStatus::Paused
}

/// A stored value that a restart resurrects: it decodes, and the decoded
/// channel's status is live.
pub open spec fn record_live(v: Seq<char>) -> bool {
    parse_channel_record(v) matches Some(cv) && is_live(cv.status)
}

/// The channel is the decoding of some record in the table `m`.
pub open spec fn from_store(m: Map<Seq<char>, Seq<char>>, c: Channel) -> bool {
    exists|k: Seq<char>| #[trigger] m.dom().contains(k) && parse_channel_record(m[k]) == Some(c@)
}

/// The durable store. Owns the database; all access goes through the
/// verified methods below.
pub struct Store {
    db: redb::Database,
}

impl Store {
    /// The `channels` table, as a map from key text to record text.
    pub closed spec fn channels(&self) -> Map<Seq<char>, Seq<char>> {
        channel_table(self.db)
    }

    /// The `messages` table, as a map from key text to record text.
    pub closed spec fn messages(&self) -> Map<Seq<char>, Seq<char>> {
        message_table(self.db)
    }

    /// Open (or create) the store at `path`. The tables may already hold
    /// records from an earlier run.
    pub fn open(path: &str) -> (r: Option<Store>) {
        match open_database(path) {
            Some(db) => Some(Store { db }),
            None => None,
        }
    }

    /// Persist one channel snapshot under its id. On failure the write was
    /// not acknowledged, but it may still have become durable: the table is
    /// then unchanged or already holds the record.
    pub fn save_channel(&mut self, c: &Channel) -> (r: Result<(), HubError>)
        ensures
            r is Ok ==> final(self).channels() == old(self).channels().insert(
                id_key(c.id),
                channel_record(c@),
            ),
            r is Err ==> r == Err::<(), HubError>(HubError::PersistenceError) && (final(self).channels() == old(self).channels() || final(self).channels() == old(self).channels().insert(id_key(c.id), channel_record(c@))),
            final(self).messages() == old(self).messages(),
    {
        let mut key_chars: Vec<char> = Vec::new();
        push_hex(&mut key_chars, c.id, 32);
        let key = string_from_chars(&key_chars);
        let record = encode_channel(c);
        let value = string_from_chars(&record);
        if db_put_channel(&mut self.db, key.as_str(), value.as_str()) {
            Ok(())
        } else {
            Err(HubError::PersistenceError)
        }
    }

    /// Persist one message under its id. On failure the write was not
    /// acknowledged, but it may still have become durable: the table is then
    /// unchanged or already holds the record.
    pub fn save_message(&mut self, m: &BroadcastMessage) -> (r: Result<(), HubError>)
        ensures
            r is Ok ==> final(self).messages() == old(self).messages().insert(
                id_key(m.id),
                message_record(m@),
            ),
            r is Err ==> r == Err::<(), HubError>(HubError::PersistenceError) && (final(self).messages() == old(self).messages() || final(self).messages() == old(self).messages().insert(id_key(m.id), message_record(m@))),
            final(self).channels() == old(self).channels(),
    {
        let mut key_chars: Vec<char> = Vec::new();
        push_hex(&mut key_chars, m.id, 32);
        let key = string_from_chars(&key_chars);
        let record = encode_message(m);
        let value = string_from_chars(&record);
        if db_put_message(&mut self.db, key.as_str(), value.as_str()) {
            Ok(())
        } else {
            Err(HubError::PersistenceError)
        }
    }

    /// Read back every channel whose stored record decodes to an `Active` or
    /// `Paused` snapshot: exactly the channels a restart resurrects. Records
    /// that fail to decode, and channels that were `Created` or `Stopped`,
    /// are left behind. The result may repeat an id if two records decode to
    /// the same channel id; the registry deduplicates on load.
    pub fn load_live_channels(&self) -> (r: Result<Vec<Channel>, HubError>)
        ensures
            r is Err ==> r == Err::<Vec<Channel>, HubError>(HubError::PersistenceError),
            r matches Ok(cs) ==> {
                &&& forall|i: int|
                    0 <= i < cs@.len() ==> (#[trigger] cs@[i]).wf() && is_live(cs@[i].status)
                &&& forall|i: int|
                    0 <= i < cs@.len() ==> from_store(self.channels(), #[trigger] cs@[i])
                &&& forall|k: Seq<char>|
                    self.channels().dom().contains(k) && #[trigger] record_live(
                        self.channels()[k],
                    ) ==> exists|i: int|
                        0 <= i < cs@.len() && Some((#[trigger] cs@[i])@) == parse_channel_record(
                            self.channels()[k],
                        )
            },
    {
        let pairs = match db_scan_channels(&self.db) {
            Some(p) => p,
            None => {
                return Err(HubError::PersistenceError);
            },
        };
        let mut out: Vec<Channel> = Vec::new();
        let mut idx: usize = 0;
        while idx < pairs.len()
            invariant
                idx <= pairs@.len(),
                forall|i: int|
                    0 <= i < pairs@.len() ==> self.channels().contains_pair(
                        (#[trigger] pairs@[i]).0@,
                        pairs@[i].1@,
                    ),
                forall|i: int|
                    0 <= i < out@.len() ==> (#[trigger] out@[i]).wf() && is_live(out@[i].status),
                forall|i: int|
                    0 <= i < out@.len() ==> from_store(self.channels(), #[trigger] out@[i]),
                forall|j: int|
                    0 <= j < idx && #[trigger] record_live(pairs@[j].1@) ==> exists|i: int|
                        0 <= i < out@.len() && Some((#[trigger] out@[i])@) == parse_channel_record(
                            pairs@[j].1@,
                        ),
            decreases pairs@.len() - idx,
        {
            let value_chars = chars_of_str(pairs[idx].1.as_str());
            let ghost pre_out = out@;
            let ghost value = pairs@[idx as int].1@;
            match parse_channel(&value_chars) {
                Some(c) => {
                    let live = match c.status {
                        ChannelStatus::Active => true,
                        ChannelStatus::Paused => true,
                        _ => false,
                    };
                    if live {
                        proof {
                            let k = pairs@[idx as int].0@;
                            assert(self.channels().contains_pair(k, value));
                            assert(self.channels().dom().contains(k) && parse_channel_record(
                                self.channels()[k],
                            ) == Some(c@));
                            assert(from_store(self.channels(), c));
                        }
                        out.push(c);
                    }
                },
                None => {},
            }
            proof {
                assert(!record_live(value) ==> out@ == pre_out);
                assert forall|j: int|
                    0 <= j < idx + 1 && #[trigger] record_live(pairs@[j].1@) implies exists|i: int|
                        0 <= i < out@.len() && Some((#[trigger] out@[i])@) == parse_channel_record(
                            pairs@[j].1@,
                        ) by {
                    if j == idx {
                        assert(out@.len() > 0 && Some((out@[out@.len() - 1])@)
                            == parse_channel_record(value));
                    } else {
                        let i0 = choose|i: int|
                            0 <= i < pre_out.len() && Some((#[trigger] pre_out[i])@)
                                == parse_channel_record(pairs@[j].1@);
                        assert(out@[i0] == pre_out[i0]);
                    }
                }
            }
            idx = idx + 1;
        }
        proof {
            assert forall|k: Seq<char>|
                self.channels().dom().contains(k) && #[trigger] record_live(
                    self.channels()[k],
                ) implies exists|i: int|
                    0 <= i < out@.len() && Some((#[trigger] out@[i])@) == parse_channel_record(
                        self.channels()[k],
                    ) by {
                let j = choose|j: int| 0 <= j < pairs@.len() && (#[trigger] pairs@[j]).0@ == k;
                assert(self.channels().contains_pair(pairs@[j].0@, pairs@[j].1@));
                assert(self.channels()[k] == pairs@[j].1@);
                assert(record_live(pairs@[j].1@));
            }
        }
        Ok(out)
    }
}

} // verus!
