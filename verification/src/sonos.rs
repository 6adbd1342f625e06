//! Playback-endpoint state: per-room handles and their keep-alive rules.
//!
//! A `SonosOutput` tracks one configured room through its lifecycle:
//! unknown until discovery records an address, streaming once a transport
//! URI is set, stale when nothing has been heard for a minute. The
//! network work — SSDP discovery, the transport calls, the timer loop —
//! runs outside the library; it asks these handles what to do
//! (`needs_rediscovery`, `needs_reassert`) and reports outcomes back
//! (`record_discovery`, `set_stream`, `mark_unhealthy`), so every state
//! change is a verified transition. Times are seconds on one clock.

use vstd::prelude::*;
use crate::text::{clone_strings, concat_str, str_eq};

verus! {

/// How long, in seconds, a handle may go without contact before the
/// keep-alive pass re-asserts its stream.
pub const KEEP_ALIVE_STALE_SECS: u64 = 60;

/// The playback buffer, in seconds, used when the configuration names
/// none.
pub const DEFAULT_BUFFER_SEC: u32 = 3;

/// An error raised by an output endpoint.
#[derive(Debug)]
pub enum OutputError {
    /// Device discovery failed.
    Discovery(String),
    /// Connecting to the device failed.
    Connection(String),
    /// Setting up the stream failed.
    StreamSetup(String),
    /// No device of that room name is known.
    DeviceNotFound(String),
}

/// The human-readable text of an output error.
pub open spec fn output_error_text(e: OutputError) -> Seq<char> {
    match e {
        OutputError::Discovery(s) => "Device discovery error: "@ + s@,
        OutputError::Connection(s) => "Connection error: "@ + s@,
        OutputError::StreamSetup(s) => "Stream setup error: "@ + s@,
        OutputError::DeviceNotFound(s) => "Device not found: "@ + s@,
    }
}

impl OutputError {
    /// Renders the error for logs and admin responses.
    pub fn message(&self) -> (r: String)
        ensures
            r@ == output_error_text(*self),
    {
        match self {
            OutputError::Discovery(s) => concat_str("Device discovery error: ", s.as_str()),
            OutputError::Connection(s) => concat_str("Connection error: ", s.as_str()),
            OutputError::StreamSetup(s) => concat_str("Stream setup error: ", s.as_str()),
            OutputError::DeviceNotFound(s) => concat_str("Device not found: ", s.as_str()),
        }
    }
}

/// A health record of one room, as the admin `stats` command reports it.
#[derive(Debug)]
pub struct SonosHealth {
    pub room: String,
    pub ip_address: Option<String>,
    pub healthy: bool,
    /// Seconds since the last successful contact, if any.
    pub last_connection: Option<u64>,
    pub grouped_with: Vec<String>,
}

/// The playback handle of one configured room.
pub struct SonosOutput {
    /// Room name (friendly name).
    pub room: String,
    /// IP address of the device, once discovered.
    pub ip_address: Option<String>,
    /// Stream URL the device was last pointed at.
    pub stream_url: Option<String>,
    /// Playback buffer in seconds.
    pub buffer_sec: u32,
    /// Timestamp of the last successful contact, in seconds.
    pub last_contact: Option<u64>,
    /// Whether the device answered its last operation.
    pub healthy: bool,
    /// Rooms this one is grouped with.
    pub grouped_with: Vec<String>,
}

impl SonosOutput {
    /// A handle for a room that has not been discovered yet.
    pub fn new(room: String, buffer_sec: Option<u32>) -> (s: SonosOutput)
        ensures
            s.room@ == room@,
            s.ip_address is None,
            s.stream_url is None,
            s.buffer_sec == match buffer_sec {
                Some(b) => b,
                None => DEFAULT_BUFFER_SEC,
            },
            s.last_contact is None,
            !s.healthy,
            s.grouped_with@.len() == 0,
    {
        let b = match buffer_sec {
            Some(b) => b,
            None => DEFAULT_BUFFER_SEC,
        };
        SonosOutput {
            room,
            ip_address: None,
            stream_url: None,
            buffer_sec: b,
            last_contact: None,
            healthy: false,
            grouped_with: Vec::new(),
        }
    }

    /// The room name.
    pub fn room(&self) -> (r: &str)
        ensures
            r@ == self.room@,
    {
        self.room.as_str()
    }

    /// The playback buffer in seconds.
    pub fn buffer_sec(&self) -> (r: u32)
        ensures
            r == self.buffer_sec,
    {
        self.buffer_sec
    }

    /// The device address, once discovered.
    pub fn ip_address(&self) -> (r: Option<&str>)
        ensures
            (r is Some) == (self.ip_address is Some),
            match r {
                Some(s) => s@ == self.ip_address->Some_0@,
                None => true,
            },
    {
        match &self.ip_address {
            Some(s) => Some(s.as_str()),
            None => None,
        }
    }

    /// The stream URL last set, if any.
    pub fn stream_url(&self) -> (r: Option<&str>)
        ensures
            (r is Some) == (self.stream_url is Some),
            match r {
                Some(s) => s@ == self.stream_url->Some_0@,
                None => true,
            },
    {
        match &self.stream_url {
            Some(s) => Some(s.as_str()),
            None => None,
        }
    }

    /// The rooms this one is grouped with.
    pub fn grouped_with(&self) -> (r: &Vec<String>)
        ensures
            r@ == self.grouped_with@,
    {
        &self.grouped_with
    }

    /// Whether the keep-alive pass must run discovery before anything
    /// else: no address is known.
    pub fn needs_rediscovery(&self) -> (r: bool)
        ensures
            r == (self.ip_address is None),
    {
        self.ip_address.is_none()
    }

    /// Whether the keep-alive pass must re-assert the stream at time
    /// `now`: a stream was set, there has been contact, and more than
    /// `KEEP_ALIVE_STALE_SECS` have passed since.
    pub fn needs_reassert(&self, now: u64) -> (r: bool)
        ensures
            r == (self.stream_url is Some && self.last_contact is Some && now
                > self.last_contact->Some_0 + KEEP_ALIVE_STALE_SECS),
    {
        match (&self.stream_url, &self.last_contact) {
            (Some(_), Some(last)) => {
                let last = *last;
                now > last && now - last > KEEP_ALIVE_STALE_SECS
            },
            _ => false,
        }
    }

    /// Records a successful discovery at time `now`: the device is at
    /// `ip`, healthy, and was just heard from.
    pub fn record_discovery(&mut self, ip: String, now: u64)
        ensures
            final(self).room@ == old(self).room@,
            final(self).ip_address is Some && final(self).ip_address->Some_0@ == ip@,
            final(self).stream_url == old(self).stream_url,
            final(self).buffer_sec == old(self).buffer_sec,
            final(self).last_contact == Some(now),
            final(self).healthy,
            final(self).grouped_with@ == old(self).grouped_with@,
    {
        self.ip_address = Some(ip);
        self.last_contact = Some(now);
        self.healthy = true;
    }

    /// Records an unrecoverable discovery failure: the handle returns to
    /// the unknown state, unhealthy, until a later pass finds it again.
    pub fn record_discovery_failure(&mut self)
        ensures
            final(self).room@ == old(self).room@,
            final(self).ip_address is None,
            final(self).stream_url == old(self).stream_url,
            final(self).buffer_sec == old(self).buffer_sec,
            final(self).last_contact == old(self).last_contact,
            !final(self).healthy,
            final(self).grouped_with@ == old(self).grouped_with@,
    {
        self.ip_address = None;
        self.healthy = false;
    }

    /// Records that the device's transport was pointed at `url` at time
    /// `now`. Succeeds exactly when the device has been discovered; with
    /// no address known it fails with the room's name and changes
    /// nothing.
    pub fn set_stream(&mut self, url: String, now: u64) -> (r: Result<(), OutputError>)
        ensures
            r is Ok <==> old(self).ip_address is Some,
            match r {
                Ok(_) => {
                    &&& final(self).room@ == old(self).room@
                    &&& final(self).ip_address == old(self).ip_address
                    &&& final(self).stream_url is Some && final(self).stream_url->Some_0@ == url@
                    &&& final(self).buffer_sec == old(self).buffer_sec
                    &&& final(self).last_contact == Some(now)
                    &&& final(self).healthy
                    &&& final(self).grouped_with@ == old(self).grouped_with@
                },
                Err(e) => {
                    &&& *final(self) == *old(self)
                    &&& e is DeviceNotFound
                    &&& e->DeviceNotFound_0@ == old(self).room@
                },
            },
    {
        if self.ip_address.is_none() {
            return Err(OutputError::DeviceNotFound(self.room.clone()));
        }
        self.stream_url = Some(url);
        self.last_contact = Some(now);
        self.healthy = true;
        Ok(())
    }

    /// Marks the device unhealthy after a failed operation; the next
    /// keep-alive pass retries.
    pub fn mark_unhealthy(&mut self)
        ensures
            final(self).room@ == old(self).room@,
            final(self).ip_address == old(self).ip_address,
            final(self).stream_url == old(self).stream_url,
            final(self).buffer_sec == old(self).buffer_sec,
            final(self).last_contact == old(self).last_contact,
            !final(self).healthy,
            final(self).grouped_with@ == old(self).grouped_with@,
    {
        self.healthy = false;
    }

    /// The current health flag, without touching the device.
    pub fn health_check(&self) -> (r: bool)
        ensures
            r == self.healthy,
    {
        self.healthy
    }

    /// The room's health record at time `now`: its address and health,
    /// and how long ago it was last heard from.
    pub fn health_snapshot(&self, now: u64) -> (h: SonosHealth)
        ensures
            h.room@ == self.room@,
            (h.ip_address is Some) == (self.ip_address is Some),
            h.ip_address is Some ==> h.ip_address->Some_0@ == self.ip_address->Some_0@,
            h.healthy == self.healthy,
            (h.last_connection is Some) == (self.last_contact is Some),
            h.last_connection is Some ==> h.last_connection->Some_0 as int == (if now
                >= self.last_contact->Some_0 {
                now - self.last_contact->Some_0
            } else {
                0int
            }),
            h.grouped_with@.len() == self.grouped_with@.len(),
            forall|j: int|
                0 <= j < h.grouped_with@.len() ==> #[trigger] h.grouped_with@[j]@
                    == self.grouped_with@[j]@,
    {
        let ip = match &self.ip_address {
            Some(s) => Some(s.clone()),
            None => None,
        };
        let last = match &self.last_contact {
            Some(t) => {
                let t = *t;
                if now >= t {
                    Some(now - t)
                } else {
                    Some(0u64)
                }
            },
            None => None,
        };
        SonosHealth {
            room: self.room.clone(),
            ip_address: ip,
            healthy: self.healthy,
            last_connection: last,
            grouped_with: clone_strings(&self.grouped_with),
        }
    }
}

/// Some room of the list carries this name.
pub open spec fn has_room(rooms: Seq<SonosOutput>, room: Seq<char>) -> bool {
    exists|j: int| 0 <= j < rooms.len() && (#[trigger] rooms[j]).room@ == room
}

/// The manager of every configured room's handle.
pub struct SonosManager {
    pub rooms: Vec<SonosOutput>,
}

impl SonosManager {
    /// A manager with no rooms yet.
    pub fn new() -> (m: SonosManager)
        ensures
            m.rooms@.len() == 0,
    {
        SonosManager { rooms: Vec::new() }
    }

    /// Adds a room to manage. A room already managed under that name is
    /// replaced by a fresh handle; otherwise the new handle is appended.
    pub fn add_room(&mut self, room: String, buffer_sec: Option<u32>)
        ensures
            !has_room(old(self).rooms@, room@) ==> {
                &&& final(self).rooms@.len() == old(self).rooms@.len() + 1
                &&& forall|j: int|
                    0 <= j < old(self).rooms@.len() ==> #[trigger] final(self).rooms@[j] == old(self).rooms@[j]
                &&& final(self).rooms@.last().room@ == room@
                &&& !final(self).rooms@.last().healthy
            },
            has_room(old(self).rooms@, room@) ==> {
                &&& final(self).rooms@.len() == old(self).rooms@.len()
                &&& exists|j: int|
                    {
                        &&& 0 <= j < old(self).rooms@.len()
                        &&& (#[trigger] old(self).rooms@[j]).room@ == room@
                        &&& final(self).rooms@[j].room@ == room@
                        &&& !final(self).rooms@[j].healthy
                        &&& final(self).rooms@[j].ip_address is None
                        &&& forall|k: int|
                            0 <= k < old(self).rooms@.len() && k != j ==> #[trigger] final(self).rooms@[k] == old(self).rooms@[k]
                    }
            },
    {
        let n = self.rooms.len();
        let mut j: usize = 0;
        while j < n
            invariant
                0 <= j <= n,
                n == self.rooms@.len(),
                self.rooms@ == old(self).rooms@,
                forall|k: int| 0 <= k < j ==> (#[trigger] self.rooms@[k]).room@ != room@,
            decreases n - j,
        {
            if str_eq(self.rooms[j].room.as_str(), room.as_str()) {
                let fresh = SonosOutput::new(room, buffer_sec);
                self.rooms.set(j, fresh);
                return ;
            }
            j = j + 1;
        }
        let fresh = SonosOutput::new(room, buffer_sec);
        self.rooms.push(fresh);
    }

    /// How many rooms are managed.
    pub fn room_count(&self) -> (n: usize)
        ensures
            n == self.rooms@.len(),
    {
        self.rooms.len()
    }

    /// The health record of every room at time `now`, in the order the
    /// rooms were added.
    pub fn health_status(&self, now: u64) -> (hs: Vec<SonosHealth>)
        ensures
            hs@.len() == self.rooms@.len(),
            forall|j: int|
                0 <= j < hs@.len() ==> (#[trigger] hs@[j]).room@ == self.rooms@[j].room@,
            forall|j: int|
                0 <= j < hs@.len() ==> (#[trigger] hs@[j]).healthy == self.rooms@[j].healthy,
            forall|j: int|
                0 <= j < hs@.len() ==> ((#[trigger] hs@[j]).ip_address is Some) == (self.rooms@[j].ip_address is Some),
            forall|j: int|
                0 <= j < hs@.len() ==> ((#[trigger] hs@[j]).ip_address is Some ==> hs@[j].ip_address->Some_0@ == self.rooms@[j].ip_address->Some_0@),
            forall|j: int|
                0 <= j < hs@.len() ==> ((#[trigger] hs@[j]).last_connection is Some) == (self.rooms@[j].last_contact is Some),
            forall|j: int|
                0 <= j < hs@.len() ==> ((#[trigger] hs@[j]).last_connection is Some
                    ==> hs@[j].last_connection->Some_0 as int == (if now >= self.rooms@[j].last_contact->Some_0 {
                    now - self.rooms@[j].last_contact->Some_0
                } else {
                    0int
                })),
    {
        let n = self.rooms.len();
        let mut hs: Vec<SonosHealth> = Vec::new();
        let mut j: usize = 0;
        while j < n
            invariant
                0 <= j <= n,
                n == self.rooms@.len(),
                hs@.len() == j,
                forall|k: int|
                    0 <= k < j ==> (#[trigger] hs@[k]).room@ == self.rooms@[k].room@,
                forall|k: int|
                    0 <= k < j ==> (#[trigger] hs@[k]).healthy == self.rooms@[k].healthy,
                forall|k: int|
                    0 <= k < j ==> ((#[trigger] hs@[k]).ip_address is Some) == (self.rooms@[k].ip_address is Some),
                forall|k: int|
                    0 <= k < j ==> ((#[trigger] hs@[k]).ip_address is Some ==> hs@[k].ip_address->Some_0@ == self.rooms@[k].ip_address->Some_0@),
                forall|k: int|
                    0 <= k < j ==> ((#[trigger] hs@[k]).last_connection is Some) == (self.rooms@[k].last_contact is Some),
                forall|k: int|
                    0 <= k < j ==> ((#[trigger] hs@[k]).last_connection is Some
                        ==> hs@[k].last_connection->Some_0 as int == (if now >= self.rooms@[k].last_contact->Some_0 {
                        now - self.rooms@[k].last_contact->Some_0
                    } else {
                        0int
                    })),
            decreases n - j,
        {
            let h = self.rooms[j].health_snapshot(now);
            hs.push(h);
            j = j + 1;
        }
        hs
    }

    /// Points the named room's device at `url` at time `now`. Fails with
    /// the room's name when the room is not managed or not yet
    /// discovered; nothing changes then.
    pub fn set_stream(&mut self, room: &str, url: String, now: u64) -> (r: Result<
        (),
        OutputError,
    >)
        ensures
            final(self).rooms@.len() == old(self).rooms@.len(),
            !has_room(old(self).rooms@, room@) ==> r is Err,
            r is Err ==> final(self).rooms@ == old(self).rooms@,
            match r {
                Ok(_) => exists|j: int|
                    {
                        &&& 0 <= j < old(self).rooms@.len()
                        &&& (#[trigger] old(self).rooms@[j]).room@ == room@
                        &&& old(self).rooms@[j].ip_address is Some
                        &&& final(self).rooms@[j].stream_url is Some
                        &&& final(self).rooms@[j].stream_url->Some_0@ == url@
                        &&& final(self).rooms@[j].last_contact == Some(now)
                        &&& final(self).rooms@[j].healthy
                        &&& forall|k: int|
                            0 <= k < old(self).rooms@.len() && k != j ==> #[trigger] final(self).rooms@[k] == old(self).rooms@[k]
                    },
                Err(e) => e is DeviceNotFound,
            },
    {
        let n = self.rooms.len();
        let mut j: usize = 0;
        while j < n
            invariant
                0 <= j <= n,
                n == self.rooms@.len(),
                self.rooms@ == old(self).rooms@,
                forall|k: int| 0 <= k < j ==> (#[trigger] self.rooms@[k]).room@ != room@,
            decreases n - j,
        {
            if str_eq(self.rooms[j].room.as_str(), room) {
                let r = self.rooms[j].set_stream(url, now);
                proof {
                    if r is Err {
                        assert(self.rooms@ =~= old(self).rooms@);
                    }
                }
                return r;
            }
            j = j + 1;
        }
        Err(OutputError::DeviceNotFound(String::from_str(room)))
    }
}

} // verus!
