//! Syncing a classroom to a hosted dashboard: the snapshot that would be pushed, and when the
//! client is configured to push it.
//!
//! Only metadata is ever sent: classroom and room names, device ids, labels and statuses, and the
//! blocklist. Never a device key, never the room password, never a screenshot. The requests
//! themselves are made by the program.

use crate::actions::{status_name, DeviceStatus};
use crate::text::{chars_of, trim_strip_end, trim_then_strip_end};
use vstd::prelude::*;
use vstd::string::StringExecFns;

verus! {

/// One device as the dashboard would list it (no keys, no screen bytes).
#[derive(Debug, Clone, PartialEq, Eq)]
pub struct DeviceSummary {
    pub device_id: String,
    pub name: Option<String>,
    /// `live`, `offline`, `connecting` or `idle`.
    pub status: String,
}

/// Everything about one classroom the dashboard needs, and nothing sensitive.
#[derive(Debug, Clone, PartialEq, Eq)]
pub struct ClassroomSnapshot {
    /// Wire version, so the server can evolve without silently misreading old clients.
    pub version: u32,
    pub slug: String,
    pub classroom_name: String,
    pub room_name: String,
    pub devices: Vec<DeviceSummary>,
    pub blocklist: Vec<String>,
    /// Milliseconds since the Unix epoch when this snapshot was taken.
    pub taken_at_ms: u64,
}

/// A device as the console knows it, reduced to what a snapshot carries: its id, its name and
/// its status.
pub struct DeviceFacts {
    pub device_id: String,
    pub name: Option<String>,
    pub status: DeviceStatus,
}

/// The view of an optional string.
pub open spec fn opt_chars(o: Option<String>) -> Option<Seq<char>> {
    match o {
        Some(s) => Some(s@),
        None => None,
    }
}

fn copy_opt(o: &Option<String>) -> (r: Option<String>)
    ensures
        opt_chars(r) == opt_chars(*o),
{
    match o {
        Some(s) => Some(s.clone()),
        None => None,
    }
}

/// Whether a summary is the one a device gives: the same id and name, and its status by name.
pub open spec fn summary_matches(s: DeviceSummary, d: DeviceFacts) -> bool {
    &&& s.device_id@ == d.device_id@
    &&& opt_chars(s.name) == opt_chars(d.name)
    &&& s.status@ == status_name(d.status)
}

impl ClassroomSnapshot {
    /// The current snapshot version. Bump when the shape changes.
    pub const VERSION: u32 = 1;

    /// Builds a snapshot from the console's state at `taken_at_ms`: one summary per device, with
    /// its status by name.
    pub fn build(
        slug: &str,
        classroom_name: &str,
        room_name: &str,
        devices: &[DeviceFacts],
        blocklist: Vec<String>,
        taken_at_ms: u64,
    ) -> (s: Self)
        ensures
            s.version == Self::VERSION,
            s.slug@ == slug@,
            s.classroom_name@ == classroom_name@,
            s.room_name@ == room_name@,
            s.blocklist@ == blocklist@,
            s.taken_at_ms == taken_at_ms,
            s.devices@.len() == devices@.len(),
            forall|i: int| 0 <= i < devices@.len() ==> #[trigger] summary_matches(s.devices@[i], devices@[i]),
    {
        let mut out: Vec<DeviceSummary> = Vec::new();
        let mut i: usize = 0;
        while i < devices.len()
            invariant
                i <= devices@.len(),
                out@.len() == i,
                forall|k: int| 0 <= k < i ==> #[trigger] summary_matches(out@[k], devices@[k]),
            decreases devices@.len() - i,
        {
            let d = &devices[i];
            let summary = DeviceSummary {
                device_id: d.device_id.clone(),
                name: copy_opt(&d.name),
                status: String::from_str(d.status.name()),
            };
            assert(summary.device_id@ == devices@[i as int].device_id@);
            assert(summary.status@ == status_name(devices@[i as int].status));
            assert(opt_chars(summary.name) == opt_chars(devices@[i as int].name));
            let ghost before = out@;
            out.push(summary);
            assert forall|k: int| 0 <= k < i + 1 implies #[trigger] summary_matches(out@[k], devices@[k]) by {
                if k < i {
                    assert(out@[k] == before[k]);
                }
            }
            i = i + 1;
        }
        ClassroomSnapshot {
            version: Self::VERSION,
            slug: String::from_str(slug),
            classroom_name: String::from_str(classroom_name),
            room_name: String::from_str(room_name),
            devices: out,
            blocklist,
            taken_at_ms,
        }
    }
}

/// What the sync card shows: whether the cloud is reachable to sync to.
#[derive(Debug, Clone, PartialEq, Eq)]
pub struct CloudStatus {
    /// True once an endpoint URL and a licence key are both configured.
    pub configured: bool,
    /// The endpoint that would be used (empty when not configured).
    pub endpoint: String,
    /// A message for the card.
    pub detail: String,
}

/// Pushes and pulls classroom snapshots to a hosted dashboard endpoint.
pub struct SyncClient {
    endpoint: String,
    license: Option<String>,
}

impl SyncClient {
    /// The endpoint the client uses: trimmed, without trailing slashes.
    pub closed spec fn endpoint_spec(&self) -> Seq<char> {
        self.endpoint@
    }

    /// The licence key the client holds.
    pub closed spec fn license_spec(&self) -> Option<Seq<char>> {
        opt_chars(self.license)
    }

    /// Whether both an endpoint and a non-empty licence key are present.
    pub open spec fn configured_spec(&self) -> bool {
        self.endpoint_spec().len() > 0 && (self.license_spec() matches Some(k) && k.len() > 0)
    }

    /// `endpoint` is the dashboard base URL (may be empty); `license` the key, if one is stored.
    pub fn new(endpoint: String, license: Option<String>) -> (c: Self)
        ensures
            c.endpoint_spec() == trim_then_strip_end(endpoint@, '/'),
            c.license_spec() == opt_chars(license),
    {
        SyncClient { endpoint: trim_strip_end(endpoint.as_str(), '/'), license }
    }

    /// The endpoint in use.
    pub fn endpoint(&self) -> (e: &String)
        ensures
            e@ == self.endpoint_spec(),
    {
        &self.endpoint
    }

    /// Whether both an endpoint and a licence key are present.
    pub fn is_configured(&self) -> (b: bool)
        ensures
            b == self.configured_spec(),
    {
        let has_endpoint = chars_of(self.endpoint.as_str()).len() > 0;
        let has_key = match &self.license {
            Some(k) => chars_of(k.as_str()).len() > 0,
            None => false,
        };
        has_endpoint && has_key
    }

    /// A status for the sync card.
    pub fn status(&self) -> (s: CloudStatus)
        ensures
            s.configured == self.configured_spec(),
            s.endpoint@ == self.endpoint_spec(),
            s.detail@ == (if self.configured_spec() {
                "ready to sync"@
            } else if self.endpoint_spec().len() == 0 {
                "cloud sync is not configured yet \u{2014} set a dashboard URL in the subscription card"@
            } else {
                "add a licence key to enable cloud sync"@
            }),
    {
        let configured = self.is_configured();
        let detail = if configured {
            String::from_str("ready to sync")
        } else if chars_of(self.endpoint.as_str()).len() == 0 {
            String::from_str(
                "cloud sync is not configured yet \u{2014} set a dashboard URL in the subscription card",
            )
        } else {
            String::from_str("add a licence key to enable cloud sync")
        };
        CloudStatus { configured, endpoint: self.endpoint.clone(), detail }
    }

    /// The URL one classroom's snapshot lives at on the server.
    pub fn snapshot_url(&self, slug: &str) -> (url: String)
        ensures
            url@ == self.endpoint_spec() + "/api/classrooms/"@ + slug@ + "/snapshot"@,
    {
        let mut url = self.endpoint.clone();
        url.append("/api/classrooms/");
        url.append(slug);
        url.append("/snapshot");
        url
    }

    /// The licence key, or a clear message when the cloud is not configured.
    pub fn require(&self) -> (r: Result<&String, String>)
        ensures
            self.endpoint_spec().len() == 0 ==> (r matches Err(m) && m@
                == "cloud sync is not configured yet (no dashboard URL)"@),
            self.endpoint_spec().len() > 0 && !self.configured_spec() ==> (r matches Err(m) && m@
                == "cloud sync needs a licence key (add one in the subscription card)"@),
            self.configured_spec() ==> (r matches Ok(k) && self.license_spec() == Some(k@)),
    {
        if chars_of(self.endpoint.as_str()).len() == 0 {
            return Err(String::from_str("cloud sync is not configured yet (no dashboard URL)"));
        }
        match &self.license {
            Some(k) => {
                if chars_of(k.as_str()).len() > 0 {
                    return Ok(k);
                }
            },
            None => {},
        }
        Err(String::from_str("cloud sync needs a licence key (add one in the subscription card)"))
    }
}

} // verus!
