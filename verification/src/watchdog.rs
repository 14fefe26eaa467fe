//! The watchdog: it keeps the set of clients believed online, and on each
//! sweep reports those that have been silent for longer than the timeout.
use crate::command::{opt_command, Command, CommandView};
use crate::database::{ClientRecord, ClientRow};
use crate::message::{offline_message, offline_text};
use crate::registry::{find_id, records, seen_since, Registry};
use vstd::prelude::*;

verus! {

/// The time of silence, in seconds, after which a client counts as offline.
pub const CLIENT_TIMEOUT: u32 = 25 * 60;

/// For how many seconds the watchdog waits for a command before it sweeps.
pub const DEFAULT_COMMAND_CHANNEL_TIMEOUT: u64 = 10;

/// Whether the client has been silent for longer than `timeout` at time
/// `now`. A silence of exactly `timeout` is not yet too long.
pub open spec fn expired(c: ClientRecord, now: u32, timeout: u32) -> bool {
    now - c.last_seen > timeout
}

/// Whether the client `id` is known and has been silent for too long.
pub open spec fn goes_offline(clients: Seq<ClientRecord>, id: i32, now: u32, timeout: u32) -> bool {
    match find_id(clients, id) {
        Some(c) => expired(c, now, timeout),
        None => false,
    }
}

/// The first of the ids that no client has, if there is one.
pub open spec fn first_unknown(ids: Seq<i32>, clients: Seq<ClientRecord>) -> Option<i32>
    decreases ids.len(),
{
    if ids.len() == 0 {
        None
    } else if find_id(clients, ids[0]) is None {
        Some(ids[0])
    } else {
        first_unknown(ids.drop_first(), clients)
    }
}

/// The ids of the clients, in their order.
pub open spec fn ids_of(clients: Seq<ClientRecord>) -> Seq<i32> {
    clients.map_values(|c: ClientRecord| c.id)
}

/// Why a sweep failed.
#[derive(Debug, Clone, Copy, PartialEq, Eq, Structural)]
pub enum WatchdogError {
    /// The registry holds no client with this id, which is watched.
    UnknownClient(i32),
}

/// The state of a watchdog: the ids of the clients believed online, in the
/// order in which they came to be watched, and the timeout.
pub struct WatchdogView {
    pub watched: Seq<i32>,
    pub timeout: u32,
}

impl WatchdogView {
    /// No id is watched twice.
    pub open spec fn well_formed(self) -> bool {
        self.watched.no_duplicates()
    }

    /// Whether the client `id` is believed online.
    pub open spec fn watches(self, id: i32) -> bool {
        self.watched.contains(id)
    }

    /// The state after a command has arrived: a sign of life of a client
    /// that is not watched makes it watched; nothing else changes anything.
    pub open spec fn observe(self, command: CommandView) -> WatchdogView {
        match command {
            CommandView::Seen(id) if !self.watches(id) => WatchdogView {
                watched: self.watched.push(id),
                ..self
            },
            _ => self,
        }
    }

    /// The clients that a sweep at time `now` finds offline: those that are
    /// watched and have been silent for too long, in the registry's order.
    pub open spec fn offline_batch(self, clients: Seq<ClientRecord>, now: u32) -> Seq<ClientRecord> {
        clients.filter(|c: ClientRecord| self.watches(c.id) && expired(c, now, self.timeout))
    }

    /// The state after a sweep at time `now`: the clients found offline are
    /// no longer watched, the others stay.
    pub open spec fn sweep(self, clients: Seq<ClientRecord>, now: u32) -> WatchdogView {
        WatchdogView {
            watched: self.watched.filter(|id: i32| !goes_offline(clients, id, now, self.timeout)),
            ..self
        }
    }

    /// The command that a sweep at time `now` gives rise to: one
    /// notification that lists all the clients found offline, or none where
    /// there is no such client.
    pub open spec fn sweep_command(self, clients: Seq<ClientRecord>, now: u32) -> Option<
        CommandView,
    > {
        let batch = self.offline_batch(clients, now);
        if batch.len() == 0 {
            None
        } else {
            Some(CommandView::Notify(offline_text(batch)))
        }
    }
}

/// Whether a command ends the loop that receives it.
pub open spec fn is_terminate(command: CommandView) -> bool {
    command is Terminate
}

/// What one round of the watchdog's loop came to.
#[derive(Debug, PartialEq, Eq)]
pub enum Round {
    /// The watchdog was told to stop and has not swept.
    Stopped,
    /// The watchdog has swept; the notification is to be passed on, if
    /// there is one.
    Swept(Option<Command>),
}

/// The state in which a round sweeps: the state after the command that has
/// arrived, if one has.
pub open spec fn after_arrival(state: WatchdogView, arrived: Option<CommandView>) -> WatchdogView {
    match arrived {
        Some(command) => state.observe(command),
        None => state,
    }
}

/// The watchdog.
#[derive(Debug)]
pub struct Watchdog {
    watched: Vec<i32>,
    timeout: u32,
}

impl View for Watchdog {
    type V = WatchdogView;

    closed spec fn view(&self) -> WatchdogView {
        WatchdogView { watched: self.watched@, timeout: self.timeout }
    }
}

/// In a filtered sequence nothing occurs twice, if nothing did before.
pub proof fn lemma_filter_no_duplicates<A>(s: Seq<A>, pred: spec_fn(A) -> bool)
    requires
        s.no_duplicates(),
    ensures
        s.filter(pred).no_duplicates(),
    decreases s.len(),
{
    reveal(Seq::filter);
    if s.len() > 0 {
        let front = s.drop_last();
        lemma_filter_no_duplicates(front, pred);
        if pred(s.last()) {
            let kept = front.filter(pred);
            assert forall|i: int| 0 <= i < kept.len() implies kept[i] != s.last() by {
                front.lemma_filter_contains_rev(pred, kept[i]);
                let k = choose|k: int| 0 <= k < front.len() && front[k] == kept[i];
                assert(s[k] == kept[i]);
            }
        }
    }
}

/// Whether no two of the clients share an id.
pub open spec fn distinct_ids(clients: Seq<ClientRecord>) -> bool {
    forall|i: int, j: int|
        0 <= i < j < clients.len() ==> (#[trigger] clients[i]).id != (#[trigger] clients[j]).id
}

/// Among clients picked from a list in which no two share an id, no two
/// share an id, so that their ids hold nothing twice.
pub proof fn lemma_filter_distinct_ids(clients: Seq<ClientRecord>, pred: spec_fn(ClientRecord) -> bool)
    requires
        distinct_ids(clients),
    ensures
        ids_of(clients.filter(pred)).no_duplicates(),
    decreases clients.len(),
{
    reveal(Seq::filter);
    if clients.len() > 0 {
        let front = clients.drop_last();
        assert(distinct_ids(front)) by {
            assert forall|i: int, j: int| 0 <= i < j < front.len() implies (#[trigger] front[i]).id
                != (#[trigger] front[j]).id by {
                assert(front[i] == clients[i] && front[j] == clients[j]);
            }
        }
        lemma_filter_distinct_ids(front, pred);
        let kept = front.filter(pred);
        if pred(clients.last()) {
            assert forall|i: int| 0 <= i < kept.len() implies (#[trigger] kept[i]).id
                != clients.last().id by {
                front.lemma_filter_contains_rev(pred, kept[i]);
                let k = choose|k: int| 0 <= k < front.len() && front[k] == kept[i];
                assert(clients[k] == kept[i]);
            }
            assert(ids_of(kept.push(clients.last())) =~= ids_of(kept).push(clients.last().id));
        }
    }
}

impl Watchdog {
    /// A watchdog that starts at time `now`: it believes online the clients
    /// that the registry has heard of within the last `timeout` seconds.
    pub fn start(registry: &Registry, now: u32, timeout: u32) -> (w: Watchdog)
        requires
            registry@.well_formed(),
        ensures
            w@.well_formed(),
            w@.timeout == timeout,
            w@.watched == ids_of(registry@.active_since(now - timeout)),
    {
        let active = registry.list_active_since(now as i64 - timeout as i64);
        let ghost seeds = registry@.active_since(now - timeout);
        let mut watched: Vec<i32> = Vec::new();
        let mut i: usize = 0;
        while i < active.len()
            invariant
                0 <= i <= active.len(),
                records(active@) == seeds,
                watched@ == ids_of(seeds.take(i as int)),
            decreases active.len() - i,
        {
            let ghost shorter = watched@;
            watched.push(active[i].get_id());
            proof {
                assert(seeds[i as int] == active@[i as int]@);
                assert(seeds.take(i as int + 1) =~= seeds.take(i as int).push(seeds[i as int]));
                assert(watched@ =~= ids_of(seeds.take(i as int + 1)));
            }
            i += 1;
        }
        proof {
            assert(seeds.take(i as int) =~= seeds);
            assert(distinct_ids(registry@.clients));
            lemma_filter_distinct_ids(
                registry@.clients,
                |c: ClientRecord| seen_since(c, now - timeout),
            );
        }
        Watchdog { watched, timeout }
    }

    /// The ids of the clients believed online.
    pub fn watched_ids(&self) -> (ids: &Vec<i32>)
        ensures
            ids@ == self@.watched,
    {
        &self.watched
    }

    /// The timeout of this watchdog, in seconds.
    pub fn timeout(&self) -> (timeout: u32)
        ensures
            timeout == self@.timeout,
    {
        self.timeout
    }

    /// Whether the client `id` is believed online.
    pub fn watches(&self, id: i32) -> (watched: bool)
        ensures
            watched == self@.watches(id),
    {
        let mut i: usize = 0;
        while i < self.watched.len()
            invariant
                0 <= i <= self.watched.len(),
                forall|j: int| 0 <= j < i ==> self.watched@[j] != id,
            decreases self.watched.len() - i,
        {
            if self.watched[i] == id {
                return true;
            }
            i += 1;
        }
        false
    }

    /// Handles a command that has arrived, and says whether the watchdog is
    /// to go on: a sign of life of a client that is not watched makes it
    /// watched, `Terminate` ends the watchdog, and a notification is passed
    /// over.
    pub fn observe(&mut self, command: &Command) -> (running: bool)
        requires
            old(self)@.well_formed(),
        ensures
            final(self)@.well_formed(),
            final(self)@ == old(self)@.observe(command@),
            running == !is_terminate(command@),
    {
        match command {
            Command::Seen(id) => {
                if !self.watches(*id) {
                    self.watched.push(*id);
                }
                true
            },
            Command::Terminate => false,
            Command::Notify(_) => true,
        }
    }
    /// Sweeps at time `now`: every client that is believed online and has
    /// been silent for longer than the timeout is from now on no longer
    /// believed online, and one notification lists them all, in the
    /// registry's order. Where the registry holds no client for one of the
    /// ids, the sweep fails on the first such id and changes nothing.
    pub fn sweep(&mut self, registry: &Registry, now: u32) -> (r: Result<
        Option<Command>,
        WatchdogError,
    >)
        requires
            old(self)@.well_formed(),
        ensures
            final(self)@.well_formed(),
            match first_unknown(old(self)@.watched, registry@.clients) {
                Some(id) => {
                    &&& r is Err
                    &&& r->Err_0 == WatchdogError::UnknownClient(id)
                    &&& final(self)@ == old(self)@
                },
                None => {
                    &&& r is Ok
                    &&& final(self)@ == old(self)@.sweep(registry@.clients, now)
                    &&& opt_command(r->Ok_0) == old(self)@.sweep_command(registry@.clients, now)
                },
            },
    {
        let ghost before = self@;
        let ghost clients = registry@.clients;
        let ghost stays = |id: i32| !goes_offline(clients, id, now, before.timeout);
        let mut kept: Vec<i32> = Vec::new();
        let mut i: usize = 0;
        proof {
            assert(before.watched.skip(0) =~= before.watched);
            assert(before.watched.take(0) =~= Seq::empty());
        }
        while i < self.watched.len()
            invariant
                0 <= i <= self.watched.len(),
                self@ == before,
                before.well_formed(),
                clients == registry@.clients,
                stays == |id: i32| !goes_offline(clients, id, now, before.timeout),
                first_unknown(before.watched, clients) == first_unknown(
                    before.watched.skip(i as int),
                    clients,
                ),
                kept@ == before.watched.take(i as int).filter(stays),
            decreases self.watched.len() - i,
        {
            let id = self.watched[i];
            proof {
                assert(before.watched.skip(i as int)[0] == id);
                assert(before.watched.skip(i as int).drop_first() =~= before.watched.skip(
                    i as int + 1,
                ));
                assert(before.watched.take(i as int + 1) =~= before.watched.take(i as int).push(
                    id,
                ));
                before.watched.take(i as int).lemma_filter_push(id, stays);
            }
            match registry.find_by_id(id) {
                None => {
                    return Err(WatchdogError::UnknownClient(id));
                },
                Some(row) => {
                    if !silent_too_long(&row, now, self.timeout) {
                        kept.push(id);
                    }
                },
            }
            i += 1;
        }
        let ghost gone = |c: ClientRecord| before.watches(c.id) && expired(c, now, before.timeout);
        let mut batch: Vec<ClientRow> = Vec::new();
        let mut j: usize = 0;
        proof {
            assert(before.watched.take(i as int) =~= before.watched);
            assert(clients.take(0) =~= Seq::empty());
            assert(records(batch@) =~= clients.take(0).filter(gone));
        }
        let count = registry.client_count();
        while j < count
            invariant
                0 <= j <= count,
                count == clients.len(),
                self@ == before,
                clients == registry@.clients,
                gone == |c: ClientRecord| before.watches(c.id) && expired(c, now, before.timeout),
                records(batch@) == clients.take(j as int).filter(gone),
            decreases count - j,
        {
            let row = registry.client(j);
            proof {
                assert(clients.take(j as int + 1) =~= clients.take(j as int).push(row@));
                clients.take(j as int).lemma_filter_push(row@, gone);
            }
            if self.watches(row.get_id()) && silent_too_long(row, now, self.timeout) {
                let ghost shorter = batch@;
                batch.push(row.clone());
                assert(records(batch@) =~= records(shorter).push(row@));
            }
            j += 1;
        }
        proof {
            assert(clients.take(j as int) =~= clients);
            lemma_filter_no_duplicates(before.watched, stays);
        }
        self.watched = kept;
        if batch.len() == 0 {
            Ok(None)
        } else {
            Ok(Some(Command::new(offline_message(&batch))))
        }
    }

    /// One round of the watchdog's loop at time `now`. `arrived` is the
    /// command that came in while the watchdog waited, if one did. On
    /// `Terminate` the watchdog stops without a sweep. Otherwise it takes
    /// note of the command and then sweeps, whether a command came or not.
    pub fn round(&mut self, registry: &Registry, arrived: Option<&Command>, now: u32) -> (r: Result<
        Round,
        WatchdogError,
    >)
        requires
            old(self)@.well_formed(),
        ensures
            final(self)@.well_formed(),
            arrived is Some && is_terminate(arrived->Some_0@) ==> {
                &&& r is Ok
                &&& r->Ok_0 is Stopped
                &&& final(self)@ == old(self)@
            },
            !(arrived is Some && is_terminate(arrived->Some_0@)) ==> {
                let state = after_arrival(
                    old(self)@,
                    match arrived {
                        Some(command) => Some(command@),
                        None => None,
                    },
                );
                match first_unknown(state.watched, registry@.clients) {
                    Some(id) => {
                        &&& r is Err
                        &&& r->Err_0 == WatchdogError::UnknownClient(id)
                        &&& final(self)@ == state
                    },
                    None => {
                        &&& r is Ok
                        &&& r->Ok_0 is Swept
                        &&& final(self)@ == state.sweep(registry@.clients, now)
                        &&& opt_command(r->Ok_0->Swept_0) == state.sweep_command(
                            registry@.clients,
                            now,
                        )
                    },
                }
            },
    {
        match arrived {
            Some(command) => {
                if !self.observe(command) {
                    return Ok(Round::Stopped);
                }
            },
            None => {},
        }
        match self.sweep(registry, now) {
            Ok(notice) => Ok(Round::Swept(notice)),
            Err(e) => Err(e),
        }
    }
}

/// Whether the client of this row has been silent for longer than `timeout`
/// at time `now`.
pub fn silent_too_long(row: &ClientRow, now: u32, timeout: u32) -> (too_long: bool)
    ensures
        too_long == expired(row@, now, timeout),
{
    now > row.get_last_seen() && now - row.get_last_seen() > timeout
}

} // verus!
