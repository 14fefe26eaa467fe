//! The row that the store keeps for each client.
use crate::text::{clone_opt_text, opt_text};
use vstd::prelude::*;

verus! {

/// One client as the registry knows it: the identity it was given, the
/// identity it reports, when it last booted, when it was last heard of, and
/// the name of its host once it has supplied one.
pub struct ClientRecord {
    pub id: i32,
    pub uuid: Seq<char>,
    pub boot_time: i64,
    pub last_seen: u32,
    pub hostname: Option<Seq<char>>,
}

/// A row of the clients table.
#[derive(Debug)]
pub struct ClientRow {
    id: i32,
    uuid: String,
    boot_time: i64,
    last_seen: u32,
    hostname: Option<String>,
}

impl View for ClientRow {
    type V = ClientRecord;

    closed spec fn view(&self) -> ClientRecord {
        ClientRecord {
            id: self.id,
            uuid: self.uuid@,
            boot_time: self.boot_time,
            last_seen: self.last_seen,
            hostname: opt_text(self.hostname),
        }
    }
}

impl Clone for ClientRow {
    fn clone(&self) -> (r: ClientRow)
        ensures
            r@ == self@,
    {
        ClientRow {
            id: self.id,
            uuid: self.uuid.clone(),
            boot_time: self.boot_time,
            last_seen: self.last_seen,
            hostname: clone_opt_text(&self.hostname),
        }
    }
}

impl ClientRow {
    pub fn new(
        id: i32,
        uuid: String,
        boot_time: i64,
        last_seen: u32,
        hostname: Option<String>,
    ) -> (r: ClientRow)
        ensures
            r@ == (ClientRecord {
                id,
                uuid: uuid@,
                boot_time,
                last_seen,
                hostname: opt_text(hostname),
            }),
    {
        ClientRow { id, uuid, boot_time, last_seen, hostname }
    }

    pub fn get_id(&self) -> (id: i32)
        ensures
            id == self@.id,
    {
        self.id
    }

    pub fn get_uuid(&self) -> (uuid: &String)
        ensures
            uuid@ == self@.uuid,
    {
        &self.uuid
    }

    pub fn get_boot_time(&self) -> (boot_time: i64)
        ensures
            boot_time == self@.boot_time,
    {
        self.boot_time
    }

    pub fn get_last_seen(&self) -> (last_seen: u32)
        ensures
            last_seen == self@.last_seen,
    {
        self.last_seen
    }

    pub fn get_hostname(&self) -> (hostname: &Option<String>)
        ensures
            opt_text(*hostname) == self@.hostname,
    {
        &self.hostname
    }

    /// Records a new boot time; nothing else changes.
    pub(crate) fn set_boot_time(&mut self, boot_time: i64)
        ensures
            final(self)@ == (ClientRecord { boot_time, ..old(self)@ }),
    {
        self.boot_time = boot_time;
    }

    /// Records a new time of last contact; nothing else changes.
    pub(crate) fn set_last_seen(&mut self, last_seen: u32)
        ensures
            final(self)@ == (ClientRecord { last_seen, ..old(self)@ }),
    {
        self.last_seen = last_seen;
    }
}

} // verus!
