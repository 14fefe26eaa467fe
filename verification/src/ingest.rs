//! The handling of one event reported by a client: a registration or a
//! heartbeat.
use crate::command::{opt_command, Command, CommandView};
use crate::message::{hostname_or_default, online_message, online_text, shown_hostname};
use crate::registry::{find_uuid, Registry, RegistryView};
use crate::structs::{AdditionalInfo, AdditionalInfoView, ErrorCodes, Request, RequestView};
use crate::text::{lex_less, str_equal, str_less};
use vstd::prelude::*;

verus! {

/// The oldest client version that is served.
pub const MINIMUM_CLIENT_VERSION: &'static str = "1.6.1";

/// Whether the event announces a client.
pub open spec fn is_register(request: RequestView) -> bool {
    request.action == "register"@
}

/// Whether the event is a sign of life of a client.
pub open spec fn is_heartbeat(request: RequestView) -> bool {
    request.action == "heartbeat"@
}

/// Whether the client's version is older than the oldest that is served.
/// Versions are compared as strings, character by character.
pub open spec fn is_outdated(request: RequestView) -> bool {
    lex_less(request.version, MINIMUM_CLIENT_VERSION@)
}

/// The hostname kept for a new client: none where the client sent an empty
/// one.
pub open spec fn kept_hostname(info: AdditionalInfoView) -> Option<Seq<char>> {
    if info.hostname.len() == 0 {
        None
    } else {
        Some(info.hostname)
    }
}

/// Whether the event makes the registry create a record: a registration of
/// a client that is not known yet.
pub open spec fn creates_record(registry: RegistryView, request: RequestView) -> bool {
    &&& !is_outdated(request)
    &&& find_uuid(registry.clients, request.uuid) is None
    &&& is_register(request)
}

/// The result code of an event.
pub open spec fn ingest_code(registry: RegistryView, request: RequestView) -> ErrorCodes {
    if is_outdated(request) {
        ErrorCodes::ClientVersionMismatch
    } else if find_uuid(registry.clients, request.uuid) is None && !is_register(request) {
        ErrorCodes::NotRegister
    } else if is_register(request) || is_heartbeat(request) {
        ErrorCodes::OK
    } else {
        ErrorCodes::UnsupportedMethod
    }
}

/// The registry after an event. An event that fails changes nothing. A
/// registration creates the record of an unknown client, overwrites boot
/// time and time of last contact of a known client that reports another
/// boot time, and changes nothing otherwise. A heartbeat records the
/// contact and stores the body, if there is one, as a sample.
pub open spec fn ingest_registry(
    registry: RegistryView,
    request: RequestView,
    info: AdditionalInfoView,
    now: u32,
) -> RegistryView {
    if ingest_code(registry, request) != ErrorCodes::OK {
        registry
    } else {
        match find_uuid(registry.clients, request.uuid) {
            None => registry.register(request.uuid, info.boot_time, kept_hostname(info), now),
            Some(known) => {
                if is_register(request) {
                    if known.boot_time != info.boot_time {
                        registry.update_boot_time(known.id, info.boot_time, now)
                    } else {
                        registry
                    }
                } else {
                    let touched = registry.touch(known.id, now);
                    match request.body {
                        Some(payload) => touched.append_sample(known.id, payload, now),
                        None => touched,
                    }
                }
            },
        }
    }
}

/// The command that an event gives rise to: a notification where a client
/// is new or has booted anew, a sign of life for the watchdog on a
/// heartbeat, none otherwise.
pub open spec fn ingest_command(
    registry: RegistryView,
    request: RequestView,
    info: AdditionalInfoView,
) -> Option<CommandView> {
    if ingest_code(registry, request) != ErrorCodes::OK {
        None
    } else {
        match find_uuid(registry.clients, request.uuid) {
            None => Some(
                CommandView::Notify(
                    online_text(
                        shown_hostname(Some(info.hostname)),
                        registry.next_id as i32,
                        request.uuid,
                    ),
                ),
            ),
            Some(known) => {
                if is_register(request) {
                    if known.boot_time != info.boot_time {
                        Some(
                            CommandView::Notify(
                                online_text(
                                    shown_hostname(Some(info.hostname)),
                                    known.id,
                                    request.uuid,
                                ),
                            ),
                        )
                    } else {
                        None
                    }
                } else {
                    Some(CommandView::Seen(known.id))
                }
            },
        }
    }
}

/// What came of one event: the result code, and the command to pass on, if
/// there is one.
#[derive(Debug)]
pub struct Ingested {
    pub code: ErrorCodes,
    pub command: Option<Command>,
}

/// Handles one event of a client at time `now`. `info` is what the client
/// said of itself in the body of the event, or the default where it said
/// nothing that could be read.
pub fn ingest(registry: &mut Registry, request: &Request, info: &AdditionalInfo, now: u32) -> (out:
    Ingested)
    requires
        old(registry)@.well_formed(),
        creates_record(old(registry)@, request@) ==> !old(registry)@.is_full(),
    ensures
        final(registry)@.well_formed(),
        out.code == ingest_code(old(registry)@, request@),
        final(registry)@ == ingest_registry(old(registry)@, request@, info@, now),
        opt_command(out.command) == ingest_command(old(registry)@, request@, info@),
{
    if str_less(request.get_version().as_str(), MINIMUM_CLIENT_VERSION) {
        return Ingested { code: ErrorCodes::ClientVersionMismatch, command: None };
    }
    let uuid = request.get_uuid().as_str();
    let action = request.get_action().as_str();
    let register = str_equal(action, "register");
    match registry.find_by_uuid(uuid) {
        None => {
            if !register {
                return Ingested { code: ErrorCodes::NotRegister, command: None };
            }
            let hostname = if info.get_host_name().as_str().unicode_len() == 0 {
                None
            } else {
                Some(info.get_host_name().clone())
            };
            match registry.register(uuid, info.get_boot_time(), hostname, now) {
                Ok(row) => {
                    let shown = hostname_or_default(Some(info.get_host_name().as_str()));
                    let text = online_message(shown.as_str(), row.get_id(), uuid);
                    Ingested { code: ErrorCodes::OK, command: Some(Command::new(text)) }
                },
                Err(_) => vstd::pervasive::unreached(),
            }
        },
        Some(known) => {
            if register {
                if known.get_boot_time() != info.get_boot_time() {
                    registry.update_boot_time(known.get_id(), info.get_boot_time(), now);
                    let shown = hostname_or_default(Some(info.get_host_name().as_str()));
                    let text = online_message(shown.as_str(), known.get_id(), uuid);
                    Ingested { code: ErrorCodes::OK, command: Some(Command::new(text)) }
                } else {
                    Ingested { code: ErrorCodes::OK, command: None }
                }
            } else if str_equal(action, "heartbeat") {
                registry.touch(known.get_id(), now);
                match request.get_body() {
                    Some(payload) => {
                        registry.append_sample(known.get_id(), payload.clone(), now);
                    },
                    None => {},
                }
                Ingested { code: ErrorCodes::OK, command: Some(Command::Seen(known.get_id())) }
            } else {
                Ingested { code: ErrorCodes::UnsupportedMethod, command: None }
            }
        },
    }
}

} // verus!
