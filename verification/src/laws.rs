//! What holds of the registry, of the handling of events and of the
//! watchdog, whatever the clients do.
use crate::command::CommandView;
use crate::database::ClientRecord;
use crate::ingest::{
    creates_record, ingest_code, ingest_command, ingest_registry, is_heartbeat, is_outdated,
    is_register,
};
use crate::registry::{
    find_id, find_uuid, lemma_find_id, lemma_find_uuid, rebooted, touched, RegistryView,
};
use crate::structs::{AdditionalInfoView, ErrorCodes, RequestView};
use crate::watchdog::{
    distinct_ids, expired, goes_offline, ids_of, lemma_filter_distinct_ids, WatchdogView,
};
use vstd::prelude::*;

verus! {

/// A record put behind clients of which none has its uuid is the one found
/// under that uuid.
pub proof fn lemma_find_uuid_push(clients: Seq<ClientRecord>, c: ClientRecord)
    requires
        find_uuid(clients, c.uuid) is None,
    ensures
        find_uuid(clients.push(c), c.uuid) == Some(c),
    decreases clients.len(),
{
    if clients.len() > 0 {
        lemma_find_uuid_push(clients.drop_first(), c);
        assert(clients.push(c).drop_first() =~= clients.drop_first().push(c));
    } else {
        assert(clients.push(c)[0] == c);
    }
}

/// A change of the records that leaves their uuids alone changes the record
/// found under a uuid in the same way.
pub proof fn lemma_find_uuid_map(
    clients: Seq<ClientRecord>,
    uuid: Seq<char>,
    change: spec_fn(ClientRecord) -> ClientRecord,
)
    requires
        forall|c: ClientRecord| (#[trigger] change(c)).uuid == c.uuid,
    ensures
        find_uuid(clients.map_values(change), uuid) == match find_uuid(clients, uuid) {
            Some(c) => Some(change(c)),
            None => None,
        },
    decreases clients.len(),
{
    if clients.len() > 0 {
        lemma_find_uuid_map(clients.drop_first(), uuid, change);
        assert(clients.map_values(change).drop_first() =~= clients.drop_first().map_values(change));
    }
}

/// A change of the records that leaves their ids alone changes the record
/// found under an id in the same way.
pub proof fn lemma_find_id_map(
    clients: Seq<ClientRecord>,
    id: i32,
    change: spec_fn(ClientRecord) -> ClientRecord,
)
    requires
        forall|c: ClientRecord| (#[trigger] change(c)).id == c.id,
    ensures
        find_id(clients.map_values(change), id) == match find_id(clients, id) {
            Some(c) => Some(change(c)),
            None => None,
        },
    decreases clients.len(),
{
    if clients.len() > 0 {
        lemma_find_id_map(clients.drop_first(), id, change);
        assert(clients.map_values(change).drop_first() =~= clients.drop_first().map_values(change));
    }
}

/// No event takes a client out of the registry or gives a client another
/// id, uuid or hostname than it has, and no event takes a sample away:
/// the records that were there stay where they were, and what an event
/// changes of them is the boot time and the time of last contact at most.
pub proof fn law_ingest_keeps_identities(
    registry: RegistryView,
    request: RequestView,
    info: AdditionalInfoView,
    now: u32,
)
    ensures
        ({
            let after = ingest_registry(registry, request, info, now);
            &&& after.clients.len() >= registry.clients.len()
            &&& forall|i: int|
                0 <= i < registry.clients.len() ==> (#[trigger] after.clients[i]) == (ClientRecord {
                    boot_time: after.clients[i].boot_time,
                    last_seen: after.clients[i].last_seen,
                    ..registry.clients[i]
                })
            &&& after.samples.len() >= registry.samples.len()
            &&& after.samples.take(registry.samples.len() as int) == registry.samples
            &&& after.next_id >= registry.next_id
        }),
{
    let after = ingest_registry(registry, request, info, now);
    assert(after.samples.take(registry.samples.len() as int) =~= registry.samples);
}

/// Whatever the event, the registry after it is one in which no two
/// clients share a uuid or an id, if the registry before it was.
pub proof fn law_ingest_keeps_well_formed(
    registry: RegistryView,
    request: RequestView,
    info: AdditionalInfoView,
    now: u32,
)
    requires
        registry.well_formed(),
        creates_record(registry, request) ==> !registry.is_full(),
    ensures
        ingest_registry(registry, request, info, now).well_formed(),
{
    let after = ingest_registry(registry, request, info, now);
    lemma_find_uuid(registry.clients, request.uuid);
    law_ingest_keeps_identities(registry, request, info, now);
    if creates_record(registry, request) {
        assert forall|i: int, j: int| 0 <= i < j < after.clients.len() implies {
            &&& (#[trigger] after.clients[i]).id != (#[trigger] after.clients[j]).id
            &&& after.clients[i].uuid != after.clients[j].uuid
        } by {
            assert(after.clients[i] == registry.clients[i]);
            if j < registry.clients.len() {
                assert(after.clients[j] == registry.clients[j]);
            }
        }
    } else {
        assert forall|i: int, j: int| 0 <= i < j < after.clients.len() implies {
            &&& (#[trigger] after.clients[i]).id != (#[trigger] after.clients[j]).id
            &&& after.clients[i].uuid != after.clients[j].uuid
        } by {
            assert(after.clients[i].id == registry.clients[i].id);
            assert(after.clients[j].id == registry.clients[j].id);
        }
        assert forall|i: int| 0 <= i < after.clients.len() implies 0 < (
        #[trigger] after.clients[i]).id < after.next_id by {
            assert(after.clients[i].id == registry.clients[i].id);
        }
    }
}

/// The first registration of a client creates exactly one record: the
/// records that were there stay as they were, and the new one, which is the
/// one found under the client's uuid from now on, holds the time of the
/// registration as the time of last contact. A registration that follows
/// with the same boot time changes nothing and notifies nobody, whenever
/// it comes.
pub proof fn law_first_registration(
    registry: RegistryView,
    request: RequestView,
    info: AdditionalInfoView,
    now: u32,
    again: RequestView,
    info_again: AdditionalInfoView,
    later: u32,
)
    requires
        registry.well_formed(),
        !is_outdated(request),
        is_register(request),
        find_uuid(registry.clients, request.uuid) is None,
        !is_outdated(again),
        is_register(again),
        again.uuid == request.uuid,
        info_again.boot_time == info.boot_time,
    ensures
        ingest_code(registry, request) == ErrorCodes::OK,
        ({
            let after = ingest_registry(registry, request, info, now);
            &&& after.clients.len() == registry.clients.len() + 1
            &&& after.clients.drop_last() == registry.clients
            &&& after.samples == registry.samples
            &&& find_uuid(after.clients, request.uuid) == Some(after.clients.last())
            &&& after.clients.last().uuid == request.uuid
            &&& after.clients.last().boot_time == info.boot_time
            &&& after.clients.last().last_seen == now
            &&& ingest_code(after, again) == ErrorCodes::OK
            &&& ingest_registry(after, again, info_again, later) == after
            &&& ingest_command(after, again, info_again) is None
        }),
{
    let after = ingest_registry(registry, request, info, now);
    let created = after.clients.last();
    assert(after.clients.drop_last() =~= registry.clients);
    lemma_find_uuid_push(registry.clients, created);
}

/// A registration of a known client that reports another boot time than
/// the one stored overwrites the boot time, sets the time of last contact
/// to the time of the registration, leaves every other record as it was,
/// and gives rise to one notification.
pub proof fn law_reboot_registration(
    registry: RegistryView,
    request: RequestView,
    info: AdditionalInfoView,
    now: u32,
)
    requires
        registry.well_formed(),
        !is_outdated(request),
        is_register(request),
        find_uuid(registry.clients, request.uuid) is Some,
        find_uuid(registry.clients, request.uuid)->Some_0.boot_time != info.boot_time,
    ensures
        ingest_code(registry, request) == ErrorCodes::OK,
        ingest_command(registry, request, info) is Some,
        ingest_command(registry, request, info)->Some_0 is Notify,
        ({
            let known = find_uuid(registry.clients, request.uuid)->Some_0;
            let after = ingest_registry(registry, request, info, now);
            &&& find_uuid(after.clients, request.uuid) == Some(
                ClientRecord { boot_time: info.boot_time, last_seen: now, ..known },
            )
            &&& after.clients.len() == registry.clients.len()
            &&& forall|i: int|
                0 <= i < registry.clients.len() && registry.clients[i].id != known.id
                    ==> #[trigger] after.clients[i] == registry.clients[i]
            &&& after.samples == registry.samples
            &&& after.next_id == registry.next_id
        }),
{
    let known = find_uuid(registry.clients, request.uuid)->Some_0;
    let change = |c: ClientRecord| rebooted(c, known.id, info.boot_time, now);
    lemma_find_uuid_map(registry.clients, request.uuid, change);
}

/// A heartbeat of a client that is not registered is refused as such,
/// changes nothing and gives rise to no command.
pub proof fn law_heartbeat_of_unregistered(
    registry: RegistryView,
    request: RequestView,
    info: AdditionalInfoView,
    now: u32,
)
    requires
        !is_outdated(request),
        is_heartbeat(request),
        find_uuid(registry.clients, request.uuid) is None,
    ensures
        ingest_code(registry, request) == ErrorCodes::NotRegister,
        ingest_registry(registry, request, info, now) == registry,
        ingest_command(registry, request, info) is None,
{
    reveal_strlit("heartbeat");
    reveal_strlit("register");
    assert("heartbeat"@.len() != "register"@.len());
}

/// A heartbeat of a registered client changes the records as one contact
/// of that client at the time of the heartbeat does, and tells the
/// watchdog of the client.
pub proof fn law_heartbeat_touches(
    registry: RegistryView,
    request: RequestView,
    info: AdditionalInfoView,
    now: u32,
)
    requires
        !is_outdated(request),
        is_heartbeat(request),
        find_uuid(registry.clients, request.uuid) is Some,
    ensures
        ingest_code(registry, request) == ErrorCodes::OK,
        ({
            let known = find_uuid(registry.clients, request.uuid)->Some_0;
            &&& ingest_registry(registry, request, info, now).clients == registry.touch(
                known.id,
                now,
            ).clients
            &&& ingest_command(registry, request, info) == Some(CommandView::Seen(known.id))
        }),
{
    reveal_strlit("heartbeat");
    reveal_strlit("register");
    assert("heartbeat"@.len() != "register"@.len());
}

/// A contact never sets back the time of last contact of any client, and
/// sets that of the client concerned to the later of the stored time and
/// the time of the contact.
pub proof fn law_touch_keeps_latest(registry: RegistryView, id: i32, timestamp: u32)
    ensures
        registry.touch(id, timestamp).clients.len() == registry.clients.len(),
        forall|i: int|
            0 <= i < registry.clients.len() ==> {
                let before = registry.clients[i];
                let after = #[trigger] registry.touch(id, timestamp).clients[i];
                &&& after.last_seen >= before.last_seen
                &&& after == ClientRecord { last_seen: after.last_seen, ..before }
                &&& before.id == id ==> after.last_seen == if before.last_seen < timestamp {
                    timestamp
                } else {
                    before.last_seen
                }
                &&& before.id != id ==> after == before
            },
{
}

/// Of two contacts of a client, the second at an earlier time than the
/// first, the time of the first is the one kept, where the client was not
/// last heard of after the first.
pub proof fn law_touch_does_not_regress(registry: RegistryView, id: i32, first: u32, second: u32)
    requires
        find_id(registry.clients, id) is Some,
        find_id(registry.clients, id)->Some_0.last_seen <= first,
        second < first,
    ensures
        find_id(registry.touch(id, first).touch(id, second).clients, id) == Some(
            ClientRecord { last_seen: first, ..find_id(registry.clients, id)->Some_0 },
        ),
{
    lemma_find_id_map(registry.clients, id, |c: ClientRecord| touched(c, id, first));
    lemma_find_id_map(
        registry.touch(id, first).clients,
        id,
        |c: ClientRecord| touched(c, id, second),
    );
    lemma_find_id(registry.clients, id);
}

/// The registry after a run of contacts, each an id and a time, taken in
/// their order.
pub open spec fn touch_all(registry: RegistryView, contacts: Seq<(i32, u32)>) -> RegistryView
    decreases contacts.len(),
{
    if contacts.len() == 0 {
        registry
    } else {
        touch_all(registry, contacts.drop_last()).touch(contacts.last().0, contacts.last().1)
    }
}

/// After any run of contacts, of this client and of others, the time of
/// last contact stored for a client is the latest of the time stored
/// before and the times of its own contacts, and nothing else in its record
/// has changed. The order in which the contacts come makes no difference
/// to this, and a sweep, which only reads the registry, changes none of it.
pub proof fn law_contacts_keep_maximum(
    registry: RegistryView,
    uuid: Seq<char>,
    contacts: Seq<(i32, u32)>,
)
    requires
        find_uuid(registry.clients, uuid) is Some,
    ensures
        ({
            let before = find_uuid(registry.clients, uuid)->Some_0;
            let found = find_uuid(touch_all(registry, contacts).clients, uuid);
            &&& found is Some
            &&& found->Some_0 == ClientRecord { last_seen: found->Some_0.last_seen, ..before }
            &&& found->Some_0.last_seen >= before.last_seen
            &&& forall|k: int|
                0 <= k < contacts.len() && (#[trigger] contacts[k]).0 == before.id
                    ==> found->Some_0.last_seen >= contacts[k].1
            &&& found->Some_0.last_seen == before.last_seen || exists|k: int|
                0 <= k < contacts.len() && #[trigger] contacts[k] == (
                    before.id,
                    found->Some_0.last_seen,
                )
        }),
    decreases contacts.len(),
{
    if contacts.len() > 0 {
        let earlier = contacts.drop_last();
        let last = contacts.last();
        law_contacts_keep_maximum(registry, uuid, earlier);
        let mid = touch_all(registry, earlier);
        lemma_find_uuid_map(mid.clients, uuid, |c: ClientRecord| touched(c, last.0, last.1));
        let before = find_uuid(registry.clients, uuid)->Some_0;
        let found_mid = find_uuid(mid.clients, uuid)->Some_0;
        let found = find_uuid(touch_all(registry, contacts).clients, uuid)->Some_0;
        assert(found == touched(found_mid, last.0, last.1));
        assert forall|k: int|
            0 <= k < contacts.len() && (#[trigger] contacts[k]).0 == before.id implies found.last_seen
            >= contacts[k].1 by {
            if k < earlier.len() {
                assert(earlier[k] == contacts[k]);
            }
        }
        if found.last_seen != before.last_seen {
            if found.last_seen == found_mid.last_seen {
                let k = choose|k: int|
                    0 <= k < earlier.len() && #[trigger] earlier[k] == (
                        before.id,
                        found_mid.last_seen,
                    );
                assert(contacts[k] == earlier[k]);
            } else {
                assert(contacts[contacts.len() - 1] == (before.id, found.last_seen));
            }
        }
    }
}

/// What a sweep does with a client that is believed online and that the
/// registry knows. Where the client has been silent for longer than the
/// timeout, the sweep reports it and believes it online no longer. Where
/// it has not, the sweep does not report it and goes on believing it
/// online. No sweep reports a client twice.
pub proof fn law_sweep_reports_silent_client(
    watchdog: WatchdogView,
    clients: Seq<ClientRecord>,
    id: i32,
    now: u32,
)
    requires
        distinct_ids(clients),
        watchdog.watches(id),
        find_id(clients, id) is Some,
    ensures
        ids_of(watchdog.offline_batch(clients, now)).no_duplicates(),
        ({
            let c = find_id(clients, id)->Some_0;
            &&& expired(c, now, watchdog.timeout) ==> {
                &&& watchdog.offline_batch(clients, now).contains(c)
                &&& !watchdog.sweep(clients, now).watches(id)
            }
            &&& !expired(c, now, watchdog.timeout) ==> {
                &&& !ids_of(watchdog.offline_batch(clients, now)).contains(id)
                &&& watchdog.sweep(clients, now).watches(id)
            }
        }),
{
    let c = find_id(clients, id)->Some_0;
    let gone = |c: ClientRecord| watchdog.watches(c.id) && expired(c, now, watchdog.timeout);
    let stays = |id: i32| !goes_offline(clients, id, now, watchdog.timeout);
    let batch = watchdog.offline_batch(clients, now);
    let kept = watchdog.sweep(clients, now).watched;
    lemma_filter_distinct_ids(clients, gone);
    lemma_find_id(clients, id);
    let at = choose|i: int| 0 <= i < clients.len() && clients[i] == c;
    let slot = choose|i: int| 0 <= i < watchdog.watched.len() && watchdog.watched[i] == id;
    if expired(c, now, watchdog.timeout) {
        clients.lemma_filter_contains(gone, at);
        if kept.contains(id) {
            let k = choose|k: int| 0 <= k < kept.len() && kept[k] == id;
            watchdog.watched.lemma_filter_pred(stays, k);
        }
    } else {
        watchdog.watched.lemma_filter_contains(stays, slot);
        if ids_of(batch).contains(id) {
            let k = choose|k: int| 0 <= k < batch.len() && ids_of(batch)[k] == id;
            clients.lemma_filter_pred(gone, k);
            clients.lemma_filter_contains_rev(gone, batch[k]);
            let other = choose|i: int| 0 <= i < clients.len() && clients[i] == batch[k];
            assert(other == at);
        }
    }
}

/// A client that is not believed online is not reported by a sweep, and is
/// not believed online after it either. So a client that a sweep has
/// reported is reported by no later sweep, until a sign of life of it
/// arrives.
pub proof fn law_sweep_passes_over_unwatched(
    watchdog: WatchdogView,
    clients: Seq<ClientRecord>,
    id: i32,
    now: u32,
)
    requires
        !watchdog.watches(id),
    ensures
        !ids_of(watchdog.offline_batch(clients, now)).contains(id),
        !watchdog.sweep(clients, now).watches(id),
{
    let gone = |c: ClientRecord| watchdog.watches(c.id) && expired(c, now, watchdog.timeout);
    let stays = |id: i32| !goes_offline(clients, id, now, watchdog.timeout);
    let batch = watchdog.offline_batch(clients, now);
    let kept = watchdog.sweep(clients, now).watched;
    if ids_of(batch).contains(id) {
        let k = choose|k: int| 0 <= k < batch.len() && ids_of(batch)[k] == id;
        clients.lemma_filter_pred(gone, k);
    }
    if kept.contains(id) {
        watchdog.watched.lemma_filter_contains_rev(stays, id);
    }
}

/// A client that a sweep finds silent for too long is reported by that
/// sweep and not by the next one, whenever that comes and whatever the
/// registry holds by then.
pub proof fn law_offline_reported_once(
    watchdog: WatchdogView,
    clients: Seq<ClientRecord>,
    id: i32,
    now: u32,
    clients_later: Seq<ClientRecord>,
    later: u32,
)
    requires
        distinct_ids(clients),
        watchdog.watches(id),
        find_id(clients, id) is Some,
        expired(find_id(clients, id)->Some_0, now, watchdog.timeout),
    ensures
        watchdog.offline_batch(clients, now).contains(find_id(clients, id)->Some_0),
        !ids_of(watchdog.sweep(clients, now).offline_batch(clients_later, later)).contains(id),
{
    law_sweep_reports_silent_client(watchdog, clients, id, now);
    law_sweep_passes_over_unwatched(watchdog.sweep(clients, now), clients_later, id, later);
}

} // verus!
