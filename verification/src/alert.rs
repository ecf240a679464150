//! Records of what the firewall did, for the alert file.

use crate::text::{address_of, dotted, dotted_text, law_reading_undoes_writing};
use vstd::prelude::*;

verus! {

/// What an alert is about.
#[derive(Clone, Copy, Debug, PartialEq, Eq, Structural)]
pub enum AlertKind {
    TtlExpired,
    AiBlock,
    ManualBlock,
    ManualUnblock,
}

/// One record of the alert file. The rates are counts of one second.
#[derive(Clone, Debug)]
pub struct AlertLog {
    pub timestamp: u64,
    pub event_type: String,
    pub ip: String,
    pub packet_rate: Option<u64>,
    pub bytes_rate: Option<u64>,
}

pub struct AlertView {
    pub timestamp: u64,
    pub event_type: Seq<char>,
    pub ip: Seq<char>,
    pub packet_rate: Option<u64>,
    pub bytes_rate: Option<u64>,
}

impl View for AlertLog {
    type V = AlertView;

    open spec fn view(&self) -> AlertView {
        AlertView {
            timestamp: self.timestamp,
            event_type: self.event_type@,
            ip: self.ip@,
            packet_rate: self.packet_rate,
            bytes_rate: self.bytes_rate,
        }
    }
}

impl AlertKind {
    /// The name of the kind in the alert file.
    pub open spec fn event_type(self) -> Seq<char> {
        match self {
            AlertKind::TtlExpired => "TTL-EXPIRED"@,
            AlertKind::AiBlock => "AI-BLOCK"@,
            AlertKind::ManualBlock => "MANUAL-BLOCK"@,
            AlertKind::ManualUnblock => "MANUAL-UNBLOCK"@,
        }
    }

    fn event_type_text(self) -> (s: String)
        ensures
            s@ == self.event_type(),
    {
        match self {
            AlertKind::TtlExpired => "TTL-EXPIRED".to_owned(),
            AlertKind::AiBlock => "AI-BLOCK".to_owned(),
            AlertKind::ManualBlock => "MANUAL-BLOCK".to_owned(),
            AlertKind::ManualUnblock => "MANUAL-UNBLOCK".to_owned(),
        }
    }
}

/// The alert about an address, with the packets and bytes of its last second
/// where they led to it.
pub open spec fn alert(
    timestamp: u64,
    kind: AlertKind,
    ip: u32,
    rates: Option<(u64, u64)>,
) -> AlertView {
    AlertView {
        timestamp,
        event_type: kind.event_type(),
        ip: dotted(ip),
        packet_rate: match rates {
            Some(rates) => Some(rates.0),
            None => None,
        },
        bytes_rate: match rates {
            Some(rates) => Some(rates.1),
            None => None,
        },
    }
}

impl AlertLog {
    /// Makes the alert about an address.
    pub fn new(timestamp: u64, kind: AlertKind, ip: u32, rates: Option<(u64, u64)>) -> (log:
        AlertLog)
        ensures
            log@ == alert(timestamp, kind, ip, rates),
    {
        let (packet_rate, bytes_rate) = match rates {
            Some((packets, bytes)) => (Some(packets), Some(bytes)),
            None => (None, None),
        };
        AlertLog {
            timestamp,
            event_type: kind.event_type_text(),
            ip: dotted_text(ip),
            packet_rate,
            bytes_rate,
        }
    }
}

/// An alert holds the time stamp, the name of what happened, the address in
/// dotted decimal, and the packets and bytes where they are given.
pub proof fn law_an_alert_tells_what_happened(
    timestamp: u64,
    kind: AlertKind,
    ip: u32,
    packets: u64,
    bytes: u64,
)
    ensures
        ({
            let with = alert(timestamp, kind, ip, Some((packets, bytes)));
            let without = alert(timestamp, kind, ip, None);
            let name = match kind {
                AlertKind::TtlExpired => "TTL-EXPIRED"@,
                AlertKind::AiBlock => "AI-BLOCK"@,
                AlertKind::ManualBlock => "MANUAL-BLOCK"@,
                AlertKind::ManualUnblock => "MANUAL-UNBLOCK"@,
            };
            &&& with.timestamp == timestamp && without.timestamp == timestamp
            &&& with.event_type == name && without.event_type == name
            &&& with.ip == dotted(ip) && without.ip == dotted(ip)
            &&& with.packet_rate == Some(packets) && with.bytes_rate == Some(bytes)
            &&& without.packet_rate is None && without.bytes_rate is None
        }),
{
}

/// The address can be read back from an alert.
pub proof fn law_an_alert_names_its_address(
    timestamp: u64,
    kind: AlertKind,
    ip: u32,
    rates: Option<(u64, u64)>,
)
    ensures
        address_of(alert(timestamp, kind, ip, rates).ip) == Some(ip),
{
    law_reading_undoes_writing(ip, dotted(ip));
}

/// The view of an alert is what it holds.
pub proof fn law_an_alert_is_seen_as_it_is(log: AlertLog)
    ensures
        log@.timestamp == log.timestamp,
        log@.event_type == log.event_type@,
        log@.ip == log.ip@,
        log@.packet_rate == log.packet_rate,
        log@.bytes_rate == log.bytes_rate,
{
}

} // verus!
