//! The client registry: who is known, under which identity, and when each
//! client was last heard of.
use crate::database::{ClientRecord, ClientRow};
use crate::text::{opt_text, str_equal};
use vstd::prelude::*;

verus! {

/// What a `RawSample` holds.
pub struct RawSampleView {
    pub client_id: i32,
    pub payload: Seq<char>,
    pub timestamp: u32,
}

/// The body of one heartbeat, kept as it came.
#[derive(Debug)]
pub struct RawSample {
    client_id: i32,
    payload: String,
    timestamp: u32,
}

impl View for RawSample {
    type V = RawSampleView;

    closed spec fn view(&self) -> RawSampleView {
        RawSampleView {
            client_id: self.client_id,
            payload: self.payload@,
            timestamp: self.timestamp,
        }
    }
}

impl RawSample {
    pub fn new(client_id: i32, payload: String, timestamp: u32) -> (r: RawSample)
        ensures
            r@ == (RawSampleView { client_id, payload: payload@, timestamp }),
    {
        RawSample { client_id, payload, timestamp }
    }

    pub fn get_client_id(&self) -> (client_id: i32)
        ensures
            client_id == self@.client_id,
    {
        self.client_id
    }

    pub fn get_payload(&self) -> (payload: &String)
        ensures
            payload@ == self@.payload,
    {
        &self.payload
    }

    pub fn get_timestamp(&self) -> (timestamp: u32)
        ensures
            timestamp == self@.timestamp,
    {
        self.timestamp
    }
}

/// Why the registry refused an operation.
#[derive(Debug, Clone, Copy, PartialEq, Eq, Structural)]
pub enum RegistryError {
    /// A client with this uuid is already registered.
    DuplicateRegistration,
}

/// The first record with the given uuid, if there is one.
pub open spec fn find_uuid(clients: Seq<ClientRecord>, uuid: Seq<char>) -> Option<ClientRecord>
    decreases clients.len(),
{
    if clients.len() == 0 {
        None
    } else if clients[0].uuid == uuid {
        Some(clients[0])
    } else {
        find_uuid(clients.drop_first(), uuid)
    }
}

/// The first record with the given id, if there is one.
pub open spec fn find_id(clients: Seq<ClientRecord>, id: i32) -> Option<ClientRecord>
    decreases clients.len(),
{
    if clients.len() == 0 {
        None
    } else if clients[0].id == id {
        Some(clients[0])
    } else {
        find_id(clients.drop_first(), id)
    }
}

/// The record after a contact of client `id` at time `timestamp`: the later
/// of the two times is kept. Records of other clients stay as they are.
pub open spec fn touched(c: ClientRecord, id: i32, timestamp: u32) -> ClientRecord {
    if c.id == id && c.last_seen < timestamp {
        ClientRecord { last_seen: timestamp, ..c }
    } else {
        c
    }
}

/// The record after client `id` has reported a new boot time at time
/// `timestamp`. Records of other clients stay as they are.
pub open spec fn rebooted(c: ClientRecord, id: i32, boot_time: i64, timestamp: u32) -> ClientRecord {
    if c.id == id {
        ClientRecord { boot_time, last_seen: timestamp, ..c }
    } else {
        c
    }
}

/// Whether the client was heard of after `threshold`.
pub open spec fn seen_since(c: ClientRecord, threshold: int) -> bool {
    c.last_seen > threshold
}

/// The state of a registry: its clients in the order in which they were
/// registered, the samples in the order in which they came, and the id that
/// the next new client gets.
pub struct RegistryView {
    pub clients: Seq<ClientRecord>,
    pub samples: Seq<RawSampleView>,
    pub next_id: int,
}

impl RegistryView {
    /// No two clients share a uuid or an id, and every id given out is
    /// positive and below the next one.
    pub open spec fn well_formed(self) -> bool {
        &&& 1 <= self.next_id <= i32::MAX + 1
        &&& forall|i: int|
            0 <= i < self.clients.len() ==> 0 < (#[trigger] self.clients[i]).id < self.next_id
        &&& forall|i: int, j: int|
            0 <= i < j < self.clients.len() ==> {
                &&& (#[trigger] self.clients[i]).id != (#[trigger] self.clients[j]).id
                &&& self.clients[i].uuid != self.clients[j].uuid
            }
    }

    /// Whether every id has been given out.
    pub open spec fn is_full(self) -> bool {
        self.next_id > i32::MAX
    }

    /// The record that a new client gets.
    pub open spec fn new_record(
        self,
        uuid: Seq<char>,
        boot_time: i64,
        hostname: Option<Seq<char>>,
        timestamp: u32,
    ) -> ClientRecord {
        ClientRecord { id: self.next_id as i32, uuid, boot_time, last_seen: timestamp, hostname }
    }

    /// The state after a new client was registered.
    pub open spec fn register(
        self,
        uuid: Seq<char>,
        boot_time: i64,
        hostname: Option<Seq<char>>,
        timestamp: u32,
    ) -> RegistryView {
        RegistryView {
            clients: self.clients.push(self.new_record(uuid, boot_time, hostname, timestamp)),
            samples: self.samples,
            next_id: self.next_id + 1,
        }
    }

    /// The state after client `id` reported a new boot time.
    pub open spec fn update_boot_time(self, id: i32, boot_time: i64, timestamp: u32) -> RegistryView {
        RegistryView {
            clients: self.clients.map_values(|c: ClientRecord| rebooted(c, id, boot_time, timestamp)),
            ..self
        }
    }

    /// The state after a contact of client `id`.
    pub open spec fn touch(self, id: i32, timestamp: u32) -> RegistryView {
        RegistryView {
            clients: self.clients.map_values(|c: ClientRecord| touched(c, id, timestamp)),
            ..self
        }
    }

    /// The state after a sample was stored.
    pub open spec fn append_sample(self, id: i32, payload: Seq<char>, timestamp: u32) -> RegistryView {
        RegistryView {
            samples: self.samples.push(RawSampleView { client_id: id, payload, timestamp }),
            ..self
        }
    }

    /// The clients heard of after `threshold`, in the registry's order.
    pub open spec fn active_since(self, threshold: int) -> Seq<ClientRecord> {
        self.clients.filter(|c: ClientRecord| seen_since(c, threshold))
    }
}

/// Whether the clients can be the clients of a registry: every id is
/// positive, and no two clients share an id or a uuid.
pub open spec fn restorable(clients: Seq<ClientRecord>) -> bool {
    &&& forall|i: int| 0 <= i < clients.len() ==> (#[trigger] clients[i]).id > 0
    &&& forall|i: int, j: int|
        0 <= i < j < clients.len() ==> {
            &&& (#[trigger] clients[i]).id != (#[trigger] clients[j]).id
            &&& clients[i].uuid != clients[j].uuid
        }
}

/// The greatest id among the clients; 0 where there is no client.
pub open spec fn greatest_id(clients: Seq<ClientRecord>) -> int
    decreases clients.len(),
{
    if clients.len() == 0 {
        0
    } else {
        let before = greatest_id(clients.drop_last());
        if clients.last().id > before {
            clients.last().id as int
        } else {
            before
        }
    }
}

/// The records that a list of rows stands for.
pub open spec fn records(rows: Seq<ClientRow>) -> Seq<ClientRecord> {
    rows.map_values(|r: ClientRow| r@)
}

/// The record of an optional row.
pub open spec fn opt_record(row: Option<ClientRow>) -> Option<ClientRecord> {
    match row {
        Some(r) => Some(r@),
        None => None,
    }
}

/// A uuid that `find_uuid` does not find belongs to no record; one that it
/// finds belongs to the record found, which is among the clients.
pub proof fn lemma_find_uuid(clients: Seq<ClientRecord>, uuid: Seq<char>)
    ensures
        match find_uuid(clients, uuid) {
            Some(c) => clients.contains(c) && c.uuid == uuid,
            None => forall|i: int| 0 <= i < clients.len() ==> (#[trigger] clients[i]).uuid != uuid,
        },
    decreases clients.len(),
{
    if clients.len() > 0 && clients[0].uuid != uuid {
        let rest = clients.drop_first();
        lemma_find_uuid(rest, uuid);
        match find_uuid(rest, uuid) {
            Some(c) => {
                let k = choose|k: int| 0 <= k < rest.len() && rest[k] == c;
                assert(clients[k + 1] == c);
            },
            None => {
                assert forall|i: int| 0 <= i < clients.len() implies (#[trigger] clients[i]).uuid
                    != uuid by {
                    if i > 0 {
                        assert(rest[i - 1] == clients[i]);
                    }
                }
            },
        }
    }
}

/// An id that `find_id` does not find belongs to no record; one that it
/// finds belongs to the record found, which is among the clients.
pub proof fn lemma_find_id(clients: Seq<ClientRecord>, id: i32)
    ensures
        match find_id(clients, id) {
            Some(c) => clients.contains(c) && c.id == id,
            None => forall|i: int| 0 <= i < clients.len() ==> (#[trigger] clients[i]).id != id,
        },
    decreases clients.len(),
{
    if clients.len() > 0 && clients[0].id != id {
        let rest = clients.drop_first();
        lemma_find_id(rest, id);
        match find_id(rest, id) {
            Some(c) => {
                let k = choose|k: int| 0 <= k < rest.len() && rest[k] == c;
                assert(clients[k + 1] == c);
            },
            None => {
                assert forall|i: int| 0 <= i < clients.len() implies (#[trigger] clients[i]).id
                    != id by {
                    if i > 0 {
                        assert(rest[i - 1] == clients[i]);
                    }
                }
            },
        }
    }
}

/// The registry of clients.
#[derive(Debug)]
pub struct Registry {
    clients: Vec<ClientRow>,
    samples: Vec<RawSample>,
    next_id: i64,
}

impl View for Registry {
    type V = RegistryView;

    closed spec fn view(&self) -> RegistryView {
        RegistryView {
            clients: records(self.clients@),
            samples: self.samples@.map_values(|s: RawSample| s@),
            next_id: self.next_id as int,
        }
    }
}

impl Registry {
    /// A registry without clients; the first client gets id 1.
    pub fn new() -> (r: Registry)
        ensures
            r@ == (RegistryView { clients: Seq::empty(), samples: Seq::empty(), next_id: 1 }),
            r@.well_formed(),
    {
        let r = Registry { clients: Vec::new(), samples: Vec::new(), next_id: 1 };
        assert(r@.clients =~= Seq::empty());
        assert(r@.samples =~= Seq::empty());
        r
    }

    /// The registry that holds the given clients, in their order, and no
    /// samples; the next client gets the id that follows the greatest one.
    /// There is no such registry where an id is not positive, or where two
    /// of the clients share an id or a uuid.
    pub fn restore(rows: Vec<ClientRow>) -> (r: Option<Registry>)
        ensures
            restorable(records(rows@)) ==> {
                &&& r is Some
                &&& r->Some_0@ == (RegistryView {
                    clients: records(rows@),
                    samples: Seq::empty(),
                    next_id: greatest_id(records(rows@)) + 1,
                })
                &&& r->Some_0@.well_formed()
            },
            !restorable(records(rows@)) ==> r is None,
    {
        let ghost all = records(rows@);
        let mut greatest: i64 = 0;
        let mut i: usize = 0;
        proof {
            assert(all.take(0) =~= Seq::empty());
        }
        while i < rows.len()
            invariant
                0 <= i <= rows.len(),
                all == records(rows@),
                restorable(all.take(i as int)),
                greatest == greatest_id(all.take(i as int)),
                0 <= greatest <= i32::MAX,
                forall|k: int| 0 <= k < i ==> (#[trigger] all[k]).id <= greatest,
            decreases rows.len() - i,
        {
            let row = &rows[i];
            proof {
                assert(all[i as int] == row@);
                assert(all.take(i as int + 1).drop_last() =~= all.take(i as int));
                assert(all.take(i as int + 1).last() == row@);
            }
            if row.get_id() <= 0 {
                return None;
            }
            let mut j: usize = 0;
            while j < i
                invariant
                    0 <= j <= i < rows.len(),
                    all == records(rows@),
                    row@ == all[i as int],
                    forall|k: int|
                        0 <= k < j ==> (#[trigger] all[k]).id != row@.id && all[k].uuid
                            != row@.uuid,
                decreases i - j,
            {
                let other = &rows[j];
                assert(all[j as int] == other@);
                if other.get_id() == row.get_id() || str_equal(
                    other.get_uuid().as_str(),
                    row.get_uuid().as_str(),
                ) {
                    return None;
                }
                j += 1;
            }
            if (row.get_id() as i64) > greatest {
                greatest = row.get_id() as i64;
            }
            proof {
                let longer = all.take(i as int + 1);
                assert forall|a: int, b: int| 0 <= a < b < longer.len() implies {
                    &&& (#[trigger] longer[a]).id != (#[trigger] longer[b]).id
                    &&& longer[a].uuid != longer[b].uuid
                } by {
                    if b < i {
                        assert(all.take(i as int)[a] == longer[a]);
                        assert(all.take(i as int)[b] == longer[b]);
                    }
                }
            }
            i += 1;
        }
        proof {
            assert(all.take(i as int) =~= all);
        }
        let r = Registry { clients: rows, samples: Vec::new(), next_id: greatest + 1 };
        proof {
            assert(r@.samples =~= Seq::empty());
        }
        Some(r)
    }

    /// Whether every id has been given out, so that no further client can
    /// be registered.
    pub fn is_full(&self) -> (full: bool)
        ensures
            full == self@.is_full(),
    {
        self.next_id > 0x7fff_ffff
    }

    /// How many clients are registered.
    pub fn client_count(&self) -> (n: usize)
        ensures
            n == self@.clients.len(),
    {
        self.clients.len()
    }

    /// The client at position `index`, counted from the first registered.
    pub fn client(&self, index: usize) -> (row: &ClientRow)
        requires
            index < self@.clients.len(),
        ensures
            row@ == self@.clients[index as int],
    {
        &self.clients[index]
    }

    /// How many samples are stored.
    pub fn sample_count(&self) -> (n: usize)
        ensures
            n == self@.samples.len(),
    {
        self.samples.len()
    }

    /// The sample at position `index`, counted from the oldest.
    pub fn sample(&self, index: usize) -> (s: &RawSample)
        requires
            index < self@.samples.len(),
        ensures
            s@ == self@.samples[index as int],
    {
        &self.samples[index]
    }

    /// Looks a client up by the uuid it reports.
    pub fn find_by_uuid(&self, uuid: &str) -> (found: Option<ClientRow>)
        ensures
            opt_record(found) == find_uuid(self@.clients, uuid@),
    {
        let ghost all = self@.clients;
        assert(all.skip(0) =~= all);
        let mut i: usize = 0;
        while i < self.clients.len()
            invariant
                0 <= i <= self.clients.len(),
                all == records(self.clients@),
                find_uuid(all, uuid@) == find_uuid(all.skip(i as int), uuid@),
            decreases self.clients.len() - i,
        {
            let row = &self.clients[i];
            assert(all.skip(i as int)[0] == row@);
            if str_equal(row.get_uuid().as_str(), uuid) {
                return Some(row.clone());
            }
            assert(all.skip(i as int).drop_first() =~= all.skip(i as int + 1));
            i += 1;
        }
        None
    }

    /// Looks a client up by the id it was given.
    pub fn find_by_id(&self, id: i32) -> (found: Option<ClientRow>)
        ensures
            opt_record(found) == find_id(self@.clients, id),
    {
        let ghost all = self@.clients;
        assert(all.skip(0) =~= all);
        let mut i: usize = 0;
        while i < self.clients.len()
            invariant
                0 <= i <= self.clients.len(),
                all == records(self.clients@),
                find_id(all, id) == find_id(all.skip(i as int), id),
            decreases self.clients.len() - i,
        {
            let row = &self.clients[i];
            assert(all.skip(i as int)[0] == row@);
            if row.get_id() == id {
                return Some(row.clone());
            }
            assert(all.skip(i as int).drop_first() =~= all.skip(i as int + 1));
            i += 1;
        }
        None
    }
    /// Registers a client that is not known yet: it gets the next id, and
    /// `timestamp` as the time of its last contact. A uuid that is already
    /// registered is refused and changes nothing.
    pub fn register(
        &mut self,
        uuid: &str,
        boot_time: i64,
        hostname: Option<String>,
        timestamp: u32,
    ) -> (r: Result<ClientRow, RegistryError>)
        requires
            old(self)@.well_formed(),
            find_uuid(old(self)@.clients, uuid@) is None ==> !old(self)@.is_full(),
        ensures
            final(self)@.well_formed(),
            find_uuid(old(self)@.clients, uuid@) is Some ==> {
                &&& r == Err::<ClientRow, RegistryError>(RegistryError::DuplicateRegistration)
                &&& final(self)@ == old(self)@
            },
            find_uuid(old(self)@.clients, uuid@) is None ==> {
                &&& r is Ok
                &&& r->Ok_0@ == old(self)@.new_record(
                    uuid@,
                    boot_time,
                    opt_text(hostname),
                    timestamp,
                )
                &&& final(self)@ == old(self)@.register(
                    uuid@,
                    boot_time,
                    opt_text(hostname),
                    timestamp,
                )
            },
    {
        if self.find_by_uuid(uuid).is_some() {
            return Err(RegistryError::DuplicateRegistration);
        }
        let ghost before = self@;
        proof {
            lemma_find_uuid(before.clients, uuid@);
        }
        let id: i32 = self.next_id as i32;
        let row = ClientRow::new(id, uuid.to_owned(), boot_time, timestamp, hostname);
        let answer = row.clone();
        self.clients.push(row);
        self.next_id = self.next_id + 1;
        proof {
            assert(self@.clients =~= before.clients.push(answer@));
            assert(self@.samples == before.samples);
        }
        Ok(answer)
    }

    /// Records that client `id` has booted anew: its boot time and the time
    /// of its last contact are overwritten. An id that no client has changes
    /// nothing.
    pub fn update_boot_time(&mut self, id: i32, boot_time: i64, timestamp: u32)
        ensures
            final(self)@ == old(self)@.update_boot_time(id, boot_time, timestamp),
            old(self)@.well_formed() ==> final(self)@.well_formed(),
    {
        let ghost before = self@;
        let mut i: usize = 0;
        while i < self.clients.len()
            invariant
                0 <= i <= self.clients.len(),
                self.clients.len() == before.clients.len(),
                self@.samples == before.samples,
                self@.next_id == before.next_id,
                forall|j: int|
                    0 <= j < i ==> (#[trigger] self.clients@[j])@ == rebooted(
                        before.clients[j],
                        id,
                        boot_time,
                        timestamp,
                    ),
                forall|j: int|
                    i <= j < self.clients.len() ==> (#[trigger] self.clients@[j])@
                        == before.clients[j],
            decreases self.clients.len() - i,
        {
            if self.clients[i].get_id() == id {
                self.clients[i].set_boot_time(boot_time);
                self.clients[i].set_last_seen(timestamp);
            }
            i += 1;
        }
        proof {
            assert(self@.clients =~= before.update_boot_time(id, boot_time, timestamp).clients);
        }
    }

    /// Records a contact of client `id` at time `timestamp`: the time of its
    /// last contact becomes the later of the stored one and `timestamp`. An
    /// id that no client has changes nothing.
    pub fn touch(&mut self, id: i32, timestamp: u32)
        ensures
            final(self)@ == old(self)@.touch(id, timestamp),
            old(self)@.well_formed() ==> final(self)@.well_formed(),
    {
        let ghost before = self@;
        let mut i: usize = 0;
        while i < self.clients.len()
            invariant
                0 <= i <= self.clients.len(),
                self.clients.len() == before.clients.len(),
                self@.samples == before.samples,
                self@.next_id == before.next_id,
                forall|j: int|
                    0 <= j < i ==> (#[trigger] self.clients@[j])@ == touched(
                        before.clients[j],
                        id,
                        timestamp,
                    ),
                forall|j: int|
                    i <= j < self.clients.len() ==> (#[trigger] self.clients@[j])@
                        == before.clients[j],
            decreases self.clients.len() - i,
        {
            if self.clients[i].get_id() == id && self.clients[i].get_last_seen() < timestamp {
                self.clients[i].set_last_seen(timestamp);
            }
            i += 1;
        }
        proof {
            assert(self@.clients =~= before.touch(id, timestamp).clients);
        }
    }

    /// Stores the body of a heartbeat of client `id`. The clients are not
    /// touched.
    pub fn append_sample(&mut self, id: i32, payload: String, timestamp: u32)
        ensures
            final(self)@ == old(self)@.append_sample(id, payload@, timestamp),
            old(self)@.well_formed() ==> final(self)@.well_formed(),
    {
        let ghost before = self@;
        self.samples.push(RawSample::new(id, payload, timestamp));
        proof {
            assert(self@.samples =~= before.append_sample(id, payload@, timestamp).samples);
        }
    }

    /// The clients heard of after `threshold`, in the registry's order.
    pub fn list_active_since(&self, threshold: i64) -> (active: Vec<ClientRow>)
        ensures
            records(active@) == self@.active_since(threshold as int),
    {
        let ghost all = self@.clients;
        let ghost pred = |c: ClientRecord| seen_since(c, threshold as int);
        let mut active: Vec<ClientRow> = Vec::new();
        let mut i: usize = 0;
        proof {
            assert(all.take(0) =~= Seq::empty());
            assert(records(active@) =~= all.take(0).filter(pred));
        }
        while i < self.clients.len()
            invariant
                0 <= i <= self.clients.len(),
                all == records(self.clients@),
                pred == |c: ClientRecord| seen_since(c, threshold as int),
                records(active@) == all.take(i as int).filter(pred),
            decreases self.clients.len() - i,
        {
            let row = &self.clients[i];
            proof {
                assert(all.take(i as int + 1) =~= all.take(i as int).push(row@));
                all.take(i as int).lemma_filter_push(row@, pred);
            }
            if (row.get_last_seen() as i64) > threshold {
                let ghost shorter = active@;
                active.push(row.clone());
                assert(records(active@) =~= records(shorter).push(row@));
            }
            i += 1;
        }
        proof {
            assert(all.take(i as int) =~= all);
        }
        active
    }
}

} // verus!
