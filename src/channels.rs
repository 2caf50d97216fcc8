//! The channel registry: channel name to (roster, broadcast sender).
//!
//! The registry keeps the map in an `ahash` hash map and each channel's
//! broadcast group in a `tokio` broadcast sender. Its model is a map from
//! channel name to roster, each roster a sequence of user names.

use vstd::prelude::*;
use vstd::string::*;
use crate::error::ServerError;

verus! {

/// How many messages a channel holds for a slow subscriber before that
/// subscriber starts to lose them.
pub const MAX_MESSAGES: usize = 1000;

#[verifier::external_type_specification]
#[verifier::external_body]
#[verifier::reject_recursive_types(T)]
pub struct ExSender<T>(tokio::sync::broadcast::Sender<T>);

#[verifier::external_type_specification]
#[verifier::external_body]
#[verifier::reject_recursive_types(T)]
pub struct ExReceiver<T>(tokio::sync::broadcast::Receiver<T>);

#[verifier::external_type_specification]
#[verifier::external_body]
pub struct ExRandomState(ahash::RandomState);

#[verifier::external_type_specification]
#[verifier::external_body]
#[verifier::reject_recursive_types(K)]
#[verifier::reject_recursive_types(V)]
#[verifier::reject_recursive_types(S)]
pub struct ExAHashMap<K, V, S>(ahash::AHashMap<K, V, S>);

/// The publish handle of a channel's broadcast group.
pub type Tx = tokio::sync::broadcast::Sender<String>;

/// A subscription to a channel's broadcast group.
pub type Rx = tokio::sync::broadcast::Receiver<String>;

/// One channel: its roster and its broadcast group.
pub type Entry = (Vec<String>, Tx);

/// The map behind the registry.
pub type Table = ahash::AHashMap<String, Entry>;

/// The user names of a roster.
pub open spec fn roster_view(users: Vec<String>) -> Seq<Seq<char>> {
    users@.map_values(|s: String| s@)
}

/// What a table holds: channel name to roster.
pub uninterp spec fn channel_table(m: Table) -> Map<Seq<char>, Seq<Seq<char>>>;

/// Relies on `ahash::AHashMap::new`: a new map is empty.
#[verifier::external_body]
fn table_new() -> (r: Table)
    ensures
        (channel_table(r) == Map::<Seq<char>, Seq<Seq<char>>>::empty()),
{
    ahash::AHashMap::new()
}

/// Relies on `ahash::AHashMap::get`: the entry under `k`, if there is one.
#[verifier::external_body]
fn table_get<'a>(m: &'a Table, k: &str) -> (r: Option<&'a Entry>)
    ensures
        r is Some == channel_table(*m).contains_key(k@),
        r is Some ==> roster_view((r->0).0) == channel_table(*m)[k@],
{
    m.get(k)
}

/// Relies on `ahash::AHashMap::remove`: takes the entry under `k` out of the
/// map, if there is one.
#[verifier::external_body]
fn table_remove(m: &mut Table, k: &str) -> (r: Option<Entry>)
    ensures
        channel_table(*final(m)) == channel_table(*old(m)).remove(k@),
        r is Some == channel_table(*old(m)).contains_key(k@),
        r is Some ==> roster_view((r->0).0) == channel_table(*old(m))[k@],
{
    m.remove(k)
}

/// Relies on `ahash::AHashMap::insert`: puts `v` under `k`, replacing what
/// was there.
#[verifier::external_body]
fn table_insert(m: &mut Table, k: String, v: Entry)
    ensures
        channel_table(*final(m)) == channel_table(*old(m)).insert(k@, roster_view(v.0)),
{
    m.insert(k, v);
}

/// Relies on `tokio::sync::broadcast::channel`: a new broadcast group that
/// keeps `capacity` messages; the receiver made with it is dropped.
#[verifier::external_body]
fn open_group(capacity: usize) -> (tx: Tx)
    requires
        0 < capacity <= usize::MAX / 2,
{
    tokio::sync::broadcast::channel(capacity).0
}

/// Relies on `Clone` of `tokio::sync::broadcast::Sender`: another publish
/// handle of the same group.
#[verifier::external_body]
fn share_group(tx: &Tx) -> Tx {
    tx.clone()
}

/// Relies on `tokio::sync::broadcast::Sender::receiver_count`: the number of
/// live subscriptions now; other tasks may change it at any time.
#[verifier::external_body]
fn subscriber_count(tx: &Tx) -> usize {
    tx.receiver_count()
}

/// The registry of channels.
pub struct Channels {
    table: Table,
}

/// The roster of channel `c` in `m`; empty where there is no such channel.
pub open spec fn roster_of(m: Map<Seq<char>, Seq<Seq<char>>>, c: Seq<char>) -> Seq<Seq<char>> {
    if m.contains_key(c) {
        m[c]
    } else {
        Seq::empty()
    }
}

/// Whether user `u` may join channel `c`: the name is free there.
pub open spec fn name_free(m: Map<Seq<char>, Seq<Seq<char>>>, c: Seq<char>, u: Seq<char>) -> bool {
    !roster_of(m, c).contains(u)
}

/// The registry after user `u` joined channel `c`, creating it if needed.
pub open spec fn with_member(
    m: Map<Seq<char>, Seq<Seq<char>>>,
    c: Seq<char>,
    u: Seq<char>,
) -> Map<Seq<char>, Seq<Seq<char>>> {
    m.insert(c, roster_of(m, c).push(u))
}

/// Every roster of `m` names each user at most once.
pub open spec fn names_unique(m: Map<Seq<char>, Seq<Seq<char>>>) -> bool {
    forall|c: Seq<char>, i: int, j: int|
        m.contains_key(c) && 0 <= i < j < m[c].len() ==> #[trigger] m[c][i] != #[trigger] m[c][j]
}

/// Adding a free name to a channel keeps every roster free of repeats.
pub proof fn lemma_with_member_keeps_names_unique(
    m: Map<Seq<char>, Seq<Seq<char>>>,
    c: Seq<char>,
    u: Seq<char>,
)
    requires
        names_unique(m),
        name_free(m, c, u),
    ensures
        names_unique(with_member(m, c, u)),
{
    let r = roster_of(m, c);
    let n = with_member(m, c, u);
    assert forall|d: Seq<char>, i: int, j: int|
        n.contains_key(d) && 0 <= i < j < n[d].len() implies #[trigger] n[d][i] != #[trigger] n[d][j] by {
        if d == c {
            if j == r.len() {
                assert(r[i] != u) by {
                    if r[i] == u {
                        assert(r.contains(u));
                    }
                }
            } else {
                assert(m.contains_key(c));
                assert(n[d][i] == m[c][i]);
                assert(n[d][j] == m[c][j]);
            }
        } else {
            assert(n[d][i] == m[d][i]);
        }
    }
}

/// Removing a channel keeps every other roster as it was.
pub proof fn lemma_remove_keeps_names_unique(m: Map<Seq<char>, Seq<Seq<char>>>, c: Seq<char>)
    requires
        names_unique(m),
    ensures
        names_unique(m.remove(c)),
{
    let n = m.remove(c);
    assert forall|d: Seq<char>, i: int, j: int|
        n.contains_key(d) && 0 <= i < j < n[d].len() implies #[trigger] n[d][i] != #[trigger] n[d][j] by {
        assert(n[d] == m[d]);
        assert(m[d][i] != m[d][j]);
    }
}

impl View for Channels {
    type V = Map<Seq<char>, Seq<Seq<char>>>;

    closed spec fn view(&self) -> Map<Seq<char>, Seq<Seq<char>>> {
        channel_table(self.table)
    }
}

fn roster_contains(users: &Vec<String>, user: &String) -> (r: bool)
    ensures
        r == roster_view(*users).contains(user@),
{
    let ghost v = roster_view(*users);
    let mut k: usize = 0;
    while k < users.len()
        invariant
            k <= users@.len(),
            v == roster_view(*users),
            forall|j: int| 0 <= j < k ==> v[j] != user@,
        decreases users@.len() - k,
    {
        if users[k] == *user {
            assert(v[k as int] == user@);
            return true;
        }
        k += 1;
    }
    proof {
        if v.contains(user@) {
            let j = choose|j: int| 0 <= j < v.len() && v[j] == user@;
            assert(v[j] == user@);
        }
    }
    false
}

impl Channels {
    /// The registry's invariant: no user name twice in one channel.
    pub open spec fn wf(&self) -> bool {
        names_unique(self@)
    }

    /// An empty registry.
    pub fn new() -> (r: Channels)
        ensures
            r@ == Map::<Seq<char>, Seq<Seq<char>>>::empty(),
            r.wf(),
    {
        Channels { table: table_new() }
    }

    /// Whether channel `chan` exists.
    pub fn contains(&self, chan: &str) -> (r: bool)
        ensures
            r == self@.contains_key(chan@),
    {
        table_get(&self.table, chan).is_some()
    }

    /// The roster of channel `chan`, if it exists.
    pub fn roster(&self, chan: &str) -> (r: Option<Vec<String>>)
        ensures
            r is Some == self@.contains_key(chan@),
            r is Some ==> roster_view(r->0) == self@[chan@],
    {
        match table_get(&self.table, chan) {
            None => None,
            Some(entry) => {
                let users = &entry.0;
                let mut out: Vec<String> = Vec::new();
                let mut k: usize = 0;
                while k < users.len()
                    invariant
                        k <= users@.len(),
                        out@.len() == k,
                        forall|j: int| 0 <= j < k ==> (#[trigger] out@[j])@ == users@[j]@,
                    decreases users@.len() - k,
                {
                    let name: String = users[k].clone();
                    out.push(name);
                    k += 1;
                }
                proof {
                    assert(roster_view(out) =~= roster_view(*users));
                }
                Some(out)
            },
        }
    }

    /// Adds `user` to channel `chan`, creating the channel (with a fresh
    /// broadcast group) if it does not exist, and hands back the channel's
    /// publish handle. Fails, changing nothing, when the name is taken there.
    pub fn add_member(&mut self, chan: &str, user: &str) -> (r: Result<Tx, ServerError>)
        requires
            old(self).wf(),
        ensures
            final(self).wf(),
            r is Ok == name_free(old(self)@, chan@, user@),
            r is Ok ==> final(self)@ == with_member(old(self)@, chan@, user@),
            r is Err ==> final(self)@ == old(self)@,
            r is Err ==> (r->Err_0 is UserAlreadyInChannel && r->Err_0->UserAlreadyInChannel_0@
                == user@),
    {
        let ghost before = self@;
        let (mut users, tx) = match table_remove(&mut self.table, chan) {
            Some(entry) => entry,
            None => (Vec::new(), open_group(MAX_MESSAGES)),
        };
        proof {
            assert(roster_view(users) =~= roster_of(before, chan@));
        }
        let name = user.to_owned();
        let key = chan.to_owned();
        if roster_contains(&users, &name) {
            table_insert(&mut self.table, key, (users, tx));
            proof {
                assert(self@ =~= before);
            }
            Err(ServerError::UserAlreadyInChannel(name))
        } else {
            users.push(name);
            let out = share_group(&tx);
            table_insert(&mut self.table, key, (users, tx));
            proof {
                assert(roster_view(users) =~= roster_of(before, chan@).push(user@));
                assert(self@ =~= with_member(before, chan@, user@));
                lemma_with_member_keeps_names_unique(before, chan@, user@);
            }
            Ok(out)
        }
    }

    /// Removes channel `chan` when its group has `subscribers` live
    /// subscriptions and that number is zero; tells whether it removed it.
    pub fn remove_if_unsubscribed(&mut self, chan: &str, subscribers: usize) -> (r: bool)
        requires
            old(self).wf(),
        ensures
            final(self).wf(),
            r == (subscribers == 0 && old(self)@.contains_key(chan@)),
            final(self)@ == if subscribers == 0 {
                old(self)@.remove(chan@)
            } else {
                old(self)@
            },
    {
        proof {
            lemma_remove_keeps_names_unique(self@, chan@);
        }
        if subscribers == 0 {
            table_remove(&mut self.table, chan).is_some()
        } else {
            false
        }
    }

    /// Removes channel `chan` if the group behind `tx` has no subscriber left,
    /// and tells whether it did. Other tasks may subscribe or leave at any
    /// time, so which of the two happens is not known in advance.
    pub fn remove_if_empty(&mut self, chan: &str, tx: &Tx) -> (r: bool)
        requires
            old(self).wf(),
        ensures
            final(self).wf(),
            r ==> old(self)@.contains_key(chan@),
            final(self)@ == if r {
                old(self)@.remove(chan@)
            } else {
                old(self)@
            },
    {
        let ghost before = self@;
        let n = subscriber_count(tx);
        let r = self.remove_if_unsubscribed(chan, n);
        proof {
            if !before.contains_key(chan@) {
                assert(before.remove(chan@) =~= before);
            }
        }
        r
    }
}

} // verus!
