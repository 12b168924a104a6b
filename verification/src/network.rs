//! Bookkeeping of the connections a server holds open: the identifiers it
//! hands out, the table of open connections and their count.
//!
//! The table is plain data. A server that accepts connections on several
//! threads keeps it behind a lock and goes through [`Network::accept`] and
//! [`Network::disconnect`] for every change.

use crate::settings::Settings;
use std::collections::HashMap;
use vstd::prelude::*;

verus! {

broadcast use vstd::std_specs::hash::group_hash_axioms;

/// Something that happens to the table of connections.
pub enum NetworkEvent {
    /// A peer connected.
    Accept,
    /// The connection with this identifier ended.
    Disconnect(u64),
}

/// The table of connections as a mathematical value.
pub struct NetworkView {
    /// The identifier that the next connection gets.
    pub next_id: u64,
    /// The identifiers of the open connections.
    pub clients: Set<u64>,
    /// The number of open connections.
    pub clients_count: nat,
}

impl NetworkView {
    /// The table of a server that has seen no connection yet. Identifiers start at 1.
    pub open spec fn initial() -> NetworkView {
        NetworkView { next_id: 1, clients: Set::empty(), clients_count: 0 }
    }

    /// The count is the size of the table, and every open connection has an
    /// identifier that was handed out before.
    pub open spec fn wf(self) -> bool {
        &&& self.clients.finite()
        &&& self.clients.len() == self.clients_count
        &&& self.next_id >= 1
        &&& forall|id: u64| self.clients.contains(id) ==> 1 <= id < self.next_id
    }

    /// An identifier is left to hand out.
    pub open spec fn can_accept(self) -> bool {
        self.next_id < u64::MAX
    }

    /// The table after a peer connected: it enters under `next_id`, which is
    /// then used up. Where no identifier is left the table stays as it is.
    pub open spec fn accept(self) -> NetworkView {
        if self.can_accept() {
            NetworkView {
                next_id: (self.next_id + 1) as u64,
                clients: self.clients.insert(self.next_id),
                clients_count: self.clients_count + 1,
            }
        } else {
            self
        }
    }

    /// The table after the connection `id` ended. Ending a connection that is
    /// not open changes nothing.
    pub open spec fn disconnect(self, id: u64) -> NetworkView {
        if self.clients.contains(id) {
            NetworkView {
                clients: self.clients.remove(id),
                clients_count: (self.clients_count - 1) as nat,
                ..self
            }
        } else {
            self
        }
    }

    /// The table after `event`.
    pub open spec fn step(self, event: NetworkEvent) -> NetworkView {
        match event {
            NetworkEvent::Accept => self.accept(),
            NetworkEvent::Disconnect(id) => self.disconnect(id),
        }
    }

    /// The table after `events`, in their order.
    pub open spec fn run(self, events: Seq<NetworkEvent>) -> NetworkView
        decreases events.len(),
    {
        if events.len() == 0 {
            self
        } else {
            self.run(events.drop_last()).step(events.last())
        }
    }

    /// The identifiers handed out during `events`, in their order.
    pub open spec fn assigned(self, events: Seq<NetworkEvent>) -> Seq<u64>
        decreases events.len(),
    {
        if events.len() == 0 {
            Seq::empty()
        } else {
            let before = self.run(events.drop_last());
            let earlier = self.assigned(events.drop_last());
            if events.last() is Accept && before.can_accept() {
                earlier.push(before.next_id)
            } else {
                earlier
            }
        }
    }
}

/// `n` peers connecting one after the other.
pub open spec fn accepts(n: nat) -> Seq<NetworkEvent> {
    Seq::new(n, |i: int| NetworkEvent::Accept)
}

/// The connections `ids` ending one after the other.
pub open spec fn disconnects(ids: Seq<u64>) -> Seq<NetworkEvent> {
    Seq::new(ids.len(), |i: int| NetworkEvent::Disconnect(ids[i]))
}

/// The table of open connections of one server. `C` is what the server keeps
/// for each connection.
pub struct Network<C> {
    settings: Settings,
    clients: HashMap<u64, C>,
    clients_count: usize,
    next_id: u64,
}

impl<C> View for Network<C> {
    type V = NetworkView;

    closed spec fn view(&self) -> NetworkView {
        NetworkView {
            next_id: self.next_id,
            clients: self.clients@.dom(),
            clients_count: self.clients_count as nat,
        }
    }
}

impl<C> Network<C> {
    /// The count is the size of the table, and no open connection has an
    /// identifier that is still to be handed out.
    pub closed spec fn wf(&self) -> bool {
        self@.wf()
    }

    /// The settings this server runs on.
    pub closed spec fn spec_settings(&self) -> Settings {
        self.settings
    }

    /// What is kept for the open connection `id`.
    pub closed spec fn spec_client(&self, id: u64) -> C
        recommends
            self@.clients.contains(id),
    {
        self.clients@[id]
    }

    /// The table of a server that has seen no connection yet.
    pub fn new(settings: Settings) -> (network: Self)
        ensures
            network.wf(),
            network@ == NetworkView::initial(),
            network.spec_settings() == settings,
    {
        let network = Self { settings, clients: HashMap::new(), clients_count: 0, next_id: 1 };
        assert(network@.clients =~= Set::empty());
        network
    }

    /// The settings this server runs on.
    pub fn settings(&self) -> (settings: &Settings)
        ensures
            *settings == self.spec_settings(),
    {
        &self.settings
    }

    /// Number of open connections.
    pub fn clients_count(&self) -> (count: usize)
        ensures
            count == self@.clients_count,
    {
        self.clients_count
    }

    /// Whether the connection `id` is open.
    pub fn is_connected(&self, id: u64) -> (open: bool)
        ensures
            open == self@.clients.contains(id),
    {
        self.clients.contains_key(&id)
    }

    /// Enters a new connection into the table and returns its identifier,
    /// which no connection had before. Where every identifier is used up the
    /// table stays as it is and `client` is handed back.
    pub fn accept(&mut self, client: C) -> (entered: Result<u64, C>)
        requires
            old(self).wf(),
        ensures
            final(self).wf(),
            final(self)@ == old(self)@.accept(),
            final(self).spec_settings() == old(self).spec_settings(),
            match entered {
                Ok(id) => {
                    &&& old(self)@.can_accept()
                    &&& id == old(self)@.next_id
                    &&& final(self).spec_client(id) == client
                    &&& forall|other: u64|
                        old(self)@.clients.contains(other) ==> final(self).spec_client(other)
                            == old(self).spec_client(other)
                },
                Err(back) => !old(self)@.can_accept() && back == client,
            },
    {
        if self.next_id == u64::MAX {
            return Err(client);
        }
        let id = self.next_id;
        self.clients.insert(id, client);
        let open = self.clients.len();
        assert(self.clients@.dom() =~= old(self)@.clients.insert(id));
        proof {
            lemma_step_keeps_count(old(self)@, NetworkEvent::Accept);
        }
        assert(open == old(self)@.clients_count + 1);
        self.clients_count = open;
        self.next_id = id + 1;
        Ok(id)
    }

    /// Takes the connection `id` out of the table and returns what was kept
    /// for it, or `None` where no such connection is open.
    pub fn disconnect(&mut self, id: u64) -> (left: Option<C>)
        requires
            old(self).wf(),
        ensures
            final(self).wf(),
            final(self)@ == old(self)@.disconnect(id),
            final(self).spec_settings() == old(self).spec_settings(),
            match left {
                Some(client) => old(self)@.clients.contains(id) && client == old(self).spec_client(
                    id,
                ),
                None => !old(self)@.clients.contains(id),
            },
            forall|other: u64|
                other != id && old(self)@.clients.contains(other) ==> final(self).spec_client(other)
                    == old(self).spec_client(other),
    {
        let left = self.clients.remove(&id);
        assert(self.clients@.dom() =~= old(self)@.clients.remove(id));
        proof {
            lemma_step_keeps_count(old(self)@, NetworkEvent::Disconnect(id));
        }
        if left.is_some() {
            self.clients_count = self.clients_count - 1;
        } else {
            assert(old(self)@.clients.remove(id) =~= old(self)@.clients);
        }
        left
    }
}

/// One event keeps the count equal to the size of the table, and never
/// lowers the next free identifier.
pub proof fn lemma_step_keeps_count(table: NetworkView, event: NetworkEvent)
    requires
        table.wf(),
    ensures
        table.step(event).clients.finite(),
        table.step(event).clients.len() == match event {
            NetworkEvent::Accept => if table.can_accept() {
                table.clients.len() as int + 1
            } else {
                table.clients.len() as int
            },
            NetworkEvent::Disconnect(id) => if table.clients.contains(id) {
                table.clients.len() - 1
            } else {
                table.clients.len() as int
            },
        },
        table.clients.len() < table.next_id,
        table.step(event).next_id >= table.next_id,
{
    lemma_table_below_next(table);
    match event {
        NetworkEvent::Accept => {
            assert(!table.clients.contains(table.next_id));
        },
        NetworkEvent::Disconnect(id) => {},
    }
}

/// A table holds fewer connections than identifiers were handed out.
proof fn lemma_table_below_next(table: NetworkView)
    requires
        table.wf(),
    ensures
        table.clients.len() < table.next_id,
{
    let all = Set::new(|id: u64| 1 <= id < table.next_id);
    lemma_ids_between(1, table.next_id);
    vstd::set_lib::lemma_len_subset(table.clients, all);
}

/// There are `high - low` identifiers from `low` up to but not including `high`.
proof fn lemma_ids_between(low: u64, high: u64)
    requires
        low <= high,
    ensures
        Set::new(|id: u64| low <= id < high).finite(),
        Set::new(|id: u64| low <= id < high).len() == high - low,
    decreases high - low,
{
    let all = Set::new(|id: u64| low <= id < high);
    if low == high {
        assert(all =~= Set::<u64>::empty());
    } else {
        let below = (high - 1) as u64;
        lemma_ids_between(low, below);
        assert(all =~= Set::new(|id: u64| low <= id < below).insert(below));
    }
}

/// The count equals the size of the table after every run of events.
pub proof fn lemma_run_keeps_count(start: NetworkView, events: Seq<NetworkEvent>)
    requires
        start.wf(),
    ensures
        start.run(events).wf(),
        start.run(events).clients_count == start.run(events).clients.len(),
        start.run(events).next_id >= start.next_id,
    decreases events.len(),
{
    if events.len() > 0 {
        lemma_run_keeps_count(start, events.drop_last());
        lemma_step_keeps_count(start.run(events.drop_last()), events.last());
    }
}

/// The identifiers handed out during any run of events are strictly
/// increasing, none below the first free one: no identifier is handed out
/// twice, whatever was disconnected in between.
pub proof fn lemma_ids_increase(start: NetworkView, events: Seq<NetworkEvent>)
    requires
        start.wf(),
    ensures
        ({
            let ids = start.assigned(events);
            &&& forall|i: int| 0 <= i < ids.len() ==> start.next_id <= #[trigger] ids[i] < start.run(events).next_id
            &&& forall|i: int, j: int| 0 <= i < j < ids.len() ==> ids[i] < ids[j]
            &&& forall|i: int| 0 <= i < ids.len() ==> !start.clients.contains(#[trigger] ids[i])
        }),
    decreases events.len(),
{
    if events.len() > 0 {
        let earlier = events.drop_last();
        lemma_ids_increase(start, earlier);
        lemma_run_keeps_count(start, earlier);
        let before = start.run(earlier);
        lemma_step_keeps_count(before, events.last());
        let ids = start.assigned(events);
        let old_ids = start.assigned(earlier);
        if events.last() is Accept && before.can_accept() {
            assert(ids == old_ids.push(before.next_id));
            assert(start.run(events).next_id == before.next_id + 1);
            assert forall|i: int| 0 <= i < ids.len() implies start.next_id <= #[trigger] ids[i]
                < start.run(events).next_id && !start.clients.contains(ids[i]) by {
                if i < old_ids.len() {
                    assert(ids[i] == old_ids[i]);
                }
            }
            assert forall|i: int, j: int| 0 <= i < j < ids.len() implies ids[i] < ids[j] by {
                assert(ids[i] == old_ids[i]);
                if j < old_ids.len() {
                    assert(ids[j] == old_ids[j]);
                }
            }
        } else {
            assert(ids == old_ids);
        }
    }
}

/// After `n` peers connected to a fresh server, the connections 1 to `n` are open.
pub proof fn lemma_after_accepts(n: nat)
    requires
        n < u64::MAX,
    ensures
        ({
            let table = NetworkView::initial().run(accepts(n));
            &&& table.wf()
            &&& table.next_id == n + 1
            &&& table.clients_count == n
            &&& table.clients == Set::new(|id: u64| 1 <= id <= n)
            &&& NetworkView::initial().assigned(accepts(n)) == Seq::new(n, |i: int| (i + 1) as u64)
        }),
    decreases n,
{
    let start = NetworkView::initial();
    lemma_run_keeps_count(start, accepts(n));
    if n == 0 {
        assert(start.run(accepts(n)).clients =~= Set::new(|id: u64| 1 <= id <= n));
        assert(start.assigned(accepts(n)) =~= Seq::new(n, |i: int| (i + 1) as u64));
    } else {
        let m = (n - 1) as nat;
        lemma_after_accepts(m);
        assert(accepts(n).drop_last() =~= accepts(m));
        assert(start.run(accepts(n)).clients =~= Set::new(|id: u64| 1 <= id <= n));
        assert(start.assigned(accepts(n)) =~= Seq::new(n, |i: int| (i + 1) as u64));
    }
}

/// Ending the open connections `ids`, each once, takes exactly them out of the table.
pub proof fn lemma_after_disconnects(start: NetworkView, ids: Seq<u64>)
    requires
        start.wf(),
        ids.no_duplicates(),
        forall|i: int| 0 <= i < ids.len() ==> start.clients.contains(#[trigger] ids[i]),
    ensures
        ({
            let table = start.run(disconnects(ids));
            &&& table.wf()
            &&& table.next_id == start.next_id
            &&& table.clients == start.clients.difference(ids.to_set())
            &&& table.clients_count == start.clients_count - ids.len()
        }),
    decreases ids.len(),
{
    lemma_run_keeps_count(start, disconnects(ids));
    if ids.len() == 0 {
        assert(start.run(disconnects(ids)).clients =~= start.clients.difference(ids.to_set()));
    } else {
        let earlier = ids.drop_last();
        lemma_after_disconnects(start, earlier);
        assert(disconnects(ids).drop_last() =~= disconnects(earlier));
        let before = start.run(disconnects(earlier));
        assert(!earlier.to_set().contains(ids.last())) by {
            if earlier.to_set().contains(ids.last()) {
                let k = choose|k: int| 0 <= k < earlier.len() && earlier[k] == ids.last();
                assert(ids[k] == ids[ids.len() - 1]);
            }
        }
        assert(before.clients.contains(ids.last()));
        assert(ids.to_set() =~= earlier.to_set().insert(ids.last())) by {
            assert forall|x: u64| ids.to_set().contains(x) implies earlier.to_set().insert(
                ids.last(),
            ).contains(x) by {
                let k = choose|k: int| 0 <= k < ids.len() && ids[k] == x;
                if k < ids.len() - 1 {
                    assert(earlier[k] == x);
                }
            }
            assert forall|x: u64| earlier.to_set().insert(ids.last()).contains(
                x,
            ) implies ids.to_set().contains(x) by {
                if x == ids.last() {
                    assert(ids[ids.len() - 1] == x);
                } else {
                    let k = choose|k: int| 0 <= k < earlier.len() && earlier[k] == x;
                    assert(ids[k] == x);
                }
            }
        }
        assert(start.run(disconnects(ids)).clients =~= start.clients.difference(ids.to_set()));
    }
}

/// After `n` peers connected to a fresh server and `ids.len()` of those
/// connections ended, the count and the size of the table are both
/// `n - ids.len()`, and the table holds the connections that did not end.
pub proof fn lemma_accepts_then_disconnects(n: nat, ids: Seq<u64>)
    requires
        n < u64::MAX,
        ids.no_duplicates(),
        forall|i: int| 0 <= i < ids.len() ==> 1 <= #[trigger] ids[i] <= n,
    ensures
        ids.len() <= n,
        ({
            let table = NetworkView::initial().run(accepts(n) + disconnects(ids));
            &&& table.clients_count == n - ids.len()
            &&& table.clients.len() == n - ids.len()
            &&& table.clients == Set::new(|id: u64| 1 <= id <= n && !ids.contains(id))
            &&& table.next_id == n + 1
        }),
{
    let start = NetworkView::initial();
    lemma_after_accepts(n);
    let mid = start.run(accepts(n));
    lemma_after_disconnects(mid, ids);
    lemma_run_append(start, accepts(n), disconnects(ids));
    let table = mid.run(disconnects(ids));
    assert(table.clients =~= Set::new(|id: u64| 1 <= id <= n && !ids.contains(id)));
    assert(ids.len() <= n) by {
        vstd::seq_lib::seq_to_set_is_finite::<u64>(ids);
        ids.unique_seq_to_set();
        vstd::set_lib::lemma_len_subset(ids.to_set(), mid.clients);
    }
}

/// Running two lists of events one after the other is running their concatenation.
pub proof fn lemma_run_append(
    start: NetworkView,
    first: Seq<NetworkEvent>,
    second: Seq<NetworkEvent>,
)
    ensures
        start.run(first + second) == start.run(first).run(second),
    decreases second.len(),
{
    if second.len() == 0 {
        assert(first + second =~= first);
    } else {
        lemma_run_append(start, first, second.drop_last());
        assert((first + second).drop_last() =~= first + second.drop_last());
    }
}

} // verus!
