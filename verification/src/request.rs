//! What is asked of the kernel's block list, and how it is reported.

use crate::alert::{alert, AlertKind, AlertLog, AlertView};
use crate::text::{
    address_of, decimal, dotted, dotted_text, law_reading_undoes_writing, push_decimal,
};
use crate::units::{rate, rate_text};
use vstd::prelude::*;

verus! {

/// How long a source stays blocked, in seconds.
pub const BLOCK_TTL_SECS: u64 = 60;

/// What the block list holds for each source in it.
pub const BLOCKED_FLAG: u32 = 1;

/// A change of the block list, and whose idea it is.
#[derive(Clone, Copy, Debug, PartialEq, Eq, Structural)]
pub enum Request {
    /// Block a source that is anomalous, with its packets and bytes of the last
    /// second.
    AiBlock { ip: u32, packets: u64, bytes: u64 },
    /// Block a source for the user.
    ManualBlock { ip: u32 },
    /// Unblock a source for the user.
    ManualUnblock { ip: u32 },
    /// Unblock a source whose block has lasted its time.
    Expire { ip: u32 },
}

/// What to do to the block list.
#[derive(Clone, Copy, Debug, PartialEq, Eq, Structural)]
pub enum BlocklistChange {
    /// Store a value for a source.
    Insert(u32, u32),
    /// Let go of a source.
    Remove(u32),
}

impl BlocklistChange {
    /// The block list after the change.
    pub open spec fn made_to(self, listed: Map<u32, u32>) -> Map<u32, u32> {
        match self {
            BlocklistChange::Insert(ip, value) => listed.insert(ip, value),
            BlocklistChange::Remove(ip) => listed.remove(ip),
        }
    }
}

impl Request {
    /// The source that is to be blocked or unblocked.
    pub open spec fn ip(self) -> u32 {
        match self {
            Request::AiBlock { ip, .. } => ip,
            Request::ManualBlock { ip } => ip,
            Request::ManualUnblock { ip } => ip,
            Request::Expire { ip } => ip,
        }
    }

    /// Whether the source is to be blocked.
    pub open spec fn blocks(self) -> bool {
        self is AiBlock || self is ManualBlock
    }

    pub open spec fn kind(self) -> AlertKind {
        match self {
            Request::AiBlock { .. } => AlertKind::AiBlock,
            Request::ManualBlock { .. } => AlertKind::ManualBlock,
            Request::ManualUnblock { .. } => AlertKind::ManualUnblock,
            Request::Expire { .. } => AlertKind::TtlExpired,
        }
    }

    /// The alert about the request being granted.
    pub open spec fn alert(self, timestamp: u64) -> AlertView {
        alert(
            timestamp,
            self.kind(),
            self.ip(),
            match self {
                Request::AiBlock { packets, bytes, .. } => Some((packets, bytes)),
                _ => None,
            },
        )
    }

    /// The log line about the request being granted.
    pub open spec fn line(self) -> Seq<char> {
        match self {
            Request::AiBlock { ip, packets, .. } => "[*] [AI-BLOCK] Blocked IP "@ + dotted(ip)
                + " ("@ + rate(packets) + " p/s) for "@ + decimal(BLOCK_TTL_SECS as nat) + "s"@,
            Request::ManualBlock { ip } => "[*] [MANUAL-BLOCK] Manually blocked IP "@ + dotted(ip),
            Request::ManualUnblock { ip } => "[*] [MANUAL-UNBLOCK] Manually unblocked IP "@
                + dotted(ip),
            Request::Expire { ip } => "[*] [TTL-EXPIRED] Unblocked IP "@ + dotted(ip),
        }
    }

    /// What the request asks of the block list.
    pub open spec fn asked(self) -> BlocklistChange {
        if self.blocks() {
            BlocklistChange::Insert(self.ip(), BLOCKED_FLAG)
        } else {
            BlocklistChange::Remove(self.ip())
        }
    }

    /// What the request asks of the block list.
    pub fn change(self) -> (change: BlocklistChange)
        ensures
            change == self.asked(),
            self matches Request::AiBlock { ip, .. } ==> change == BlocklistChange::Insert(ip, 1),
            self matches Request::ManualBlock { ip } ==> change == BlocklistChange::Insert(ip, 1),
            self matches Request::ManualUnblock { ip } ==> change == BlocklistChange::Remove(ip),
            self matches Request::Expire { ip } ==> change == BlocklistChange::Remove(ip),
    {
        match self {
            Request::AiBlock { ip, .. } => BlocklistChange::Insert(ip, BLOCKED_FLAG),
            Request::ManualBlock { ip } => BlocklistChange::Insert(ip, BLOCKED_FLAG),
            Request::ManualUnblock { ip } => BlocklistChange::Remove(ip),
            Request::Expire { ip } => BlocklistChange::Remove(ip),
        }
    }

    /// The alert about the request being granted.
    pub fn alert_log(self, timestamp: u64) -> (log: AlertLog)
        ensures
            log@ == self.alert(timestamp),
    {
        match self {
            Request::AiBlock { ip, packets, bytes } => AlertLog::new(
                timestamp,
                AlertKind::AiBlock,
                ip,
                Some((packets, bytes)),
            ),
            Request::ManualBlock { ip } => AlertLog::new(
                timestamp,
                AlertKind::ManualBlock,
                ip,
                None,
            ),
            Request::ManualUnblock { ip } => AlertLog::new(
                timestamp,
                AlertKind::ManualUnblock,
                ip,
                None,
            ),
            Request::Expire { ip } => AlertLog::new(timestamp, AlertKind::TtlExpired, ip, None),
        }
    }

    /// The log line about the request being granted.
    pub fn line_text(self) -> (line: String)
        ensures
            line@ == self.line(),
    {
        match self {
            Request::AiBlock { ip, packets, .. } => {
                let mut line = line_about("[*] [AI-BLOCK] Blocked IP ", ip);
                line.append(" (");
                let rate = rate_text(packets);
                line.append(rate.as_str());
                line.append(" p/s) for ");
                push_decimal(&mut line, BLOCK_TTL_SECS as u128);
                line.append("s");
                line
            },
            Request::ManualBlock { ip } => line_about(
                "[*] [MANUAL-BLOCK] Manually blocked IP ",
                ip,
            ),
            Request::ManualUnblock { ip } => line_about(
                "[*] [MANUAL-UNBLOCK] Manually unblocked IP ",
                ip,
            ),
            Request::Expire { ip } => line_about("[*] [TTL-EXPIRED] Unblocked IP ", ip),
        }
    }
}

/// A line that ends in an address.
fn line_about(prefix: &str, ip: u32) -> (line: String)
    ensures
        line@ == prefix@ + dotted(ip),
{
    let mut line = prefix.to_owned();
    let address = dotted_text(ip);
    line.append(address.as_str());
    line
}

/// A request is about the address that it names: to block is to store the flag
/// for that address, to unblock is to let go of it.
pub proof fn law_a_request_is_about_its_address(ip: u32, packets: u64, bytes: u64)
    ensures
        (Request::AiBlock { ip, packets, bytes }).asked() == BlocklistChange::Insert(ip, 1),
        (Request::ManualBlock { ip }).asked() == BlocklistChange::Insert(ip, 1),
        (Request::ManualUnblock { ip }).asked() == BlocklistChange::Remove(ip),
        (Request::Expire { ip }).asked() == BlocklistChange::Remove(ip),
{
}

/// A change of the block list stores the given value for the given address, or
/// lets go of that address, and touches no other.
pub proof fn law_a_change_touches_one_address(
    listed: Map<u32, u32>,
    ip: u32,
    value: u32,
    other: u32,
)
    ensures
        ({
            let more = BlocklistChange::Insert(ip, value).made_to(listed);
            let less = BlocklistChange::Remove(ip).made_to(listed);
            &&& more.contains_key(ip) && more[ip] == value
            &&& !less.contains_key(ip)
            &&& other != ip ==> more.contains_key(other) == listed.contains_key(other)
            &&& other != ip ==> less.contains_key(other) == listed.contains_key(other)
            &&& other != ip && listed.contains_key(other) ==> more[other] == listed[other]
                && less[other] == listed[other]
        }),
{
}

/// The alert about a request names what was asked, and its address, which can
/// be read back. Only a block of an anomalous source has rates, and they are
/// those of the request.
pub proof fn law_an_alert_is_about_the_request(
    ip: u32,
    packets: u64,
    bytes: u64,
    timestamp: u64,
)
    ensures
        ({
            let log = (Request::AiBlock { ip, packets, bytes }).alert(timestamp);
            &&& log.timestamp == timestamp
            &&& log.event_type == "AI-BLOCK"@
            &&& log.ip == dotted(ip)
            &&& log.packet_rate == Some(packets)
            &&& log.bytes_rate == Some(bytes)
        }),
        ({
            let log = (Request::ManualBlock { ip }).alert(timestamp);
            &&& log.timestamp == timestamp
            &&& log.event_type == "MANUAL-BLOCK"@
            &&& log.ip == dotted(ip)
            &&& log.packet_rate is None && log.bytes_rate is None
        }),
        ({
            let log = (Request::ManualUnblock { ip }).alert(timestamp);
            &&& log.timestamp == timestamp
            &&& log.event_type == "MANUAL-UNBLOCK"@
            &&& log.ip == dotted(ip)
            &&& log.packet_rate is None && log.bytes_rate is None
        }),
        ({
            let log = (Request::Expire { ip }).alert(timestamp);
            &&& log.timestamp == timestamp
            &&& log.event_type == "TTL-EXPIRED"@
            &&& log.ip == dotted(ip)
            &&& log.packet_rate is None && log.bytes_rate is None
        }),
        address_of(dotted(ip)) == Some(ip),
{
    law_reading_undoes_writing(ip, dotted(ip));
}

/// The log line about a request names what was asked and the address; that
/// about an anomalous source also its packet rate and how long it is blocked.
pub proof fn law_a_line_is_about_the_request(ip: u32, packets: u64, bytes: u64)
    ensures
        (Request::AiBlock { ip, packets, bytes }).line() == "[*] [AI-BLOCK] Blocked IP "@ + dotted(ip)
            + " ("@ + rate(packets) + " p/s) for "@ + seq!['6', '0'] + "s"@,
        (Request::ManualBlock { ip }).line() == "[*] [MANUAL-BLOCK] Manually blocked IP "@ + dotted(
            ip,
        ),
        (Request::ManualUnblock { ip }).line() == "[*] [MANUAL-UNBLOCK] Manually unblocked IP "@
            + dotted(ip),
        (Request::Expire { ip }).line() == "[*] [TTL-EXPIRED] Unblocked IP "@ + dotted(ip),
{
    reveal_with_fuel(decimal, 2);
    assert(decimal(60) =~= seq!['6', '0']);
}

} // verus!
