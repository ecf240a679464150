//! What the terminal shows.

use crate::text::{
    decimal, decimal_text, is_numeral, law_decimals_read_back, number_in, push_decimal,
};
use crate::units::{kilobytes, kilobytes_text};
use vstd::prelude::*;

verus! {

/// With more log lines than this, the oldest are discarded.
pub const LOG_LIMIT: usize = 100;

/// How many log lines are discarded at a time.
pub const LOG_DISCARD: usize = 50;

/// How many log lines are shown.
pub const LOGS_SHOWN: usize = 15;

/// The state behind the terminal's panels.
#[derive(Clone, Debug)]
pub struct DashboardState {
    /// Address, packets, bytes and whether it is anomalous, of each source of
    /// the last second.
    pub active_ips: Vec<(String, u64, u64, bool)>,
    pub total_packets: u64,
    pub total_bytes: u64,
    /// Address and remaining seconds of each blocked source.
    pub blocked_ips: Vec<(String, u64)>,
    pub logs: Vec<String>,
    pub paused: bool,
}

#[verifier::ext_equal]
pub struct DashboardView {
    pub active_ips: Seq<(Seq<char>, u64, u64, bool)>,
    pub total_packets: u64,
    pub total_bytes: u64,
    pub blocked_ips: Seq<(Seq<char>, u64)>,
    pub logs: Seq<Seq<char>>,
    pub paused: bool,
}

pub open spec fn active_view(rows: Seq<(String, u64, u64, bool)>) -> Seq<
    (Seq<char>, u64, u64, bool),
> {
    rows.map_values(|row: (String, u64, u64, bool)| (row.0@, row.1, row.2, row.3))
}

pub open spec fn blocked_view(rows: Seq<(String, u64)>) -> Seq<(Seq<char>, u64)> {
    rows.map_values(|row: (String, u64)| (row.0@, row.1))
}

pub open spec fn lines_view(lines: Seq<String>) -> Seq<Seq<char>> {
    lines.map_values(|line: String| line@)
}

impl View for DashboardState {
    type V = DashboardView;

    open spec fn view(&self) -> DashboardView {
        DashboardView {
            active_ips: active_view(self.active_ips@),
            total_packets: self.total_packets,
            total_bytes: self.total_bytes,
            blocked_ips: blocked_view(self.blocked_ips@),
            logs: lines_view(self.logs@),
            paused: self.paused,
        }
    }
}

/// The log without its oldest lines, where it has grown too long.
pub open spec fn trimmed(logs: Seq<Seq<char>>) -> Seq<Seq<char>> {
    if logs.len() > LOG_LIMIT {
        logs.skip(LOG_DISCARD as int)
    } else {
        logs
    }
}

/// The newest log lines, newest first.
pub open spec fn newest(logs: Seq<Seq<char>>) -> Seq<Seq<char>> {
    let shown = if logs.len() < LOGS_SHOWN {
        logs.len()
    } else {
        LOGS_SHOWN as nat
    };
    Seq::new(shown, |i: int| logs[logs.len() - 1 - i])
}

pub open spec fn feed_name(paused: bool) -> Seq<char> {
    if paused {
        "PAUSED"@
    } else {
        "LIVE"@
    }
}

pub open spec fn status_name(anomaly: bool) -> Seq<char> {
    if anomaly {
        "ANOMALY"@
    } else {
        "NORMAL"@
    }
}

impl DashboardView {
    pub open spec fn logging(self, line: Seq<char>) -> DashboardView {
        DashboardView { logs: self.logs.push(line), ..self }
    }

    /// The line of totals.
    pub open spec fn header(self, iface: Seq<char>) -> Seq<char> {
        " Interface: "@ + iface + " | Mode: XDP | Total Packets: "@ + decimal(
            self.total_packets as nat,
        ) + " | Total Bytes: "@ + decimal((self.total_bytes / 1024) as nat) + " KB | Feed: "@
            + feed_name(self.paused)
    }

    /// The rows of the table of traffic: address, packets, data and status.
    pub open spec fn traffic(self) -> Seq<(Seq<char>, Seq<char>, Seq<char>, Seq<char>)> {
        self.active_ips.map_values(
            |row: (Seq<char>, u64, u64, bool)|
                (row.0, decimal(row.1 as nat), kilobytes(row.2), status_name(row.3)),
        )
    }

    /// The rows of the table of blocked sources: address and remaining time.
    pub open spec fn blocks(self) -> Seq<(Seq<char>, Seq<char>)> {
        self.blocked_ips.map_values(
            |row: (Seq<char>, u64)| (row.0, decimal(row.1 as nat) + "s"@),
        )
    }
}

impl Default for DashboardState {
    fn default() -> (state: Self)
        ensures
            state@ == (DashboardView {
                active_ips: Seq::empty(),
                total_packets: 0,
                total_bytes: 0,
                blocked_ips: Seq::empty(),
                logs: Seq::empty(),
                paused: false,
            }),
    {
        DashboardState {
            active_ips: Vec::new(),
            total_packets: 0,
            total_bytes: 0,
            blocked_ips: Vec::new(),
            logs: Vec::new(),
            paused: false,
        }
    }
}

impl DashboardState {
    /// Adds a log line.
    pub fn push_log(&mut self, line: String)
        ensures
            final(self)@ == old(self)@.logging(line@),
    {
        self.logs.push(line);
        assert(self@ =~= old(self)@.logging(line@));
    }

    /// Discards the oldest log lines, where there are too many.
    pub fn trim_logs(&mut self)
        ensures
            final(self)@ == (DashboardView { logs: trimmed(old(self)@.logs), ..old(self)@ }),
    {
        if self.logs.len() > LOG_LIMIT {
            let kept = self.logs.split_off(LOG_DISCARD);
            self.logs = kept;
        }
        assert(self@ =~= (DashboardView { logs: trimmed(old(self)@.logs), ..old(self)@ }));
    }

    /// Pauses the feed, or resumes it.
    pub fn toggle_pause(&mut self)
        ensures
            final(self)@ == (DashboardView { paused: !old(self)@.paused, ..old(self)@ }),
    {
        self.paused = !self.paused;
    }

    /// The line of totals.
    pub fn header_text(&self, iface: &str) -> (s: String)
        ensures
            s@ == self@.header(iface@),
    {
        let mut s = String::new();
        s.append(" Interface: ");
        s.append(iface);
        s.append(" | Mode: XDP | Total Packets: ");
        push_decimal(&mut s, self.total_packets as u128);
        s.append(" | Total Bytes: ");
        push_decimal(&mut s, (self.total_bytes / 1024) as u128);
        s.append(" KB | Feed: ");
        s.append(if self.paused { "PAUSED" } else { "LIVE" });
        assert(s@ =~= self@.header(iface@));
        s
    }

    /// The cells of one row of the table of traffic.
    pub fn traffic_row(&self, i: usize) -> (cells: (String, String, String, String))
        requires
            i < self.active_ips@.len(),
        ensures
            (cells.0@, cells.1@, cells.2@, cells.3@) == self@.traffic()[i as int],
    {
        let row = &self.active_ips[i];
        let status = if row.3 { "ANOMALY".to_owned() } else { "NORMAL".to_owned() };
        (row.0.clone(), decimal_text(row.1 as u128), kilobytes_text(row.2), status)
    }

    /// The cells of one row of the table of blocked sources.
    pub fn block_row(&self, i: usize) -> (cells: (String, String))
        requires
            i < self.blocked_ips@.len(),
        ensures
            (cells.0@, cells.1@) == self@.blocks()[i as int],
    {
        let row = &self.blocked_ips[i];
        let mut left = decimal_text(row.1 as u128);
        left.append("s");
        (row.0.clone(), left)
    }

    /// The newest log lines, newest first.
    pub fn newest_logs(&self) -> (lines: Vec<String>)
        ensures
            lines_view(lines@) == newest(self@.logs),
    {
        let mut lines: Vec<String> = Vec::new();
        let n: usize = self.logs.len();
        while lines.len() < n && lines.len() < LOGS_SHOWN
            invariant
                n == self.logs@.len(),
                lines@.len() <= n,
                lines@.len() <= LOGS_SHOWN,
                forall|i: int|
                    0 <= i < lines@.len() ==> (#[trigger] lines@[i])@ == self.logs@[n - 1 - i]@,
            decreases n - lines@.len(),
        {
            lines.push(self.logs[n - 1 - lines.len()].clone());
        }
        assert(lines_view(lines@) =~= newest(self@.logs));
        lines
    }
}

/// Trimming keeps the newest lines: what is left is the end of the log, and at
/// most half of the limit is discarded at a time.
pub proof fn law_trimming_keeps_the_newest(logs: Seq<Seq<char>>)
    ensures
        trimmed(logs).len() <= logs.len() <= trimmed(logs).len() + LOG_DISCARD,
        trimmed(logs) == logs.skip(logs.len() - trimmed(logs).len()),
        newest(trimmed(logs)) == newest(logs),
        logs.len() <= LOG_LIMIT + LOG_DISCARD ==> trimmed(logs).len() <= LOG_LIMIT,
{
    assert(logs.skip(0) =~= logs);
    assert(newest(trimmed(logs)) =~= newest(logs));
}

/// Up to a hundred log lines are kept. Of more, all but the fifty oldest are.
pub proof fn law_a_long_log_loses_its_fifty_oldest_lines(logs: Seq<Seq<char>>, i: int)
    ensures
        logs.len() <= 100 ==> trimmed(logs) == logs,
        logs.len() > 100 ==> trimmed(logs).len() == logs.len() - 50,
        logs.len() > 100 && 50 <= i < logs.len() ==> trimmed(logs)[i - 50] == logs[i],
{
}

/// The fifteen newest log lines are shown, or all where there are fewer, and
/// the later a line was logged the higher it stands.
pub proof fn law_the_newest_lines_are_on_top(logs: Seq<Seq<char>>, i: int)
    ensures
        newest(logs).len() == (if logs.len() <= 15 {
            logs.len()
        } else {
            15
        }),
        0 <= i < newest(logs).len() ==> newest(logs)[i] == logs[logs.len() - 1 - i],
        logs.len() > 0 ==> newest(logs)[0] == logs.last(),
{
}

/// The line of totals shows the interface, the packets, the whole kilobytes of
/// 1024 bytes, and whether the feed is paused.
pub proof fn law_the_header_shows_the_totals(view: DashboardView, iface: Seq<char>)
    ensures
        exists|packets: Seq<char>, kilobytes: Seq<char>| #[trigger]
            is_numeral(packets) && #[trigger] is_numeral(kilobytes) && number_in(packets)
                == view.total_packets && number_in(kilobytes) * 1024 <= view.total_bytes
                && view.total_bytes < (number_in(kilobytes) + 1) * 1024 && view.header(iface)
                == " Interface: "@ + iface + " | Mode: XDP | Total Packets: "@ + packets
                + " | Total Bytes: "@ + kilobytes + " KB | Feed: "@ + (if view.paused {
                "PAUSED"@
            } else {
                "LIVE"@
            }),
{
    let packets = decimal(view.total_packets as nat);
    let kilobytes = decimal((view.total_bytes / 1024) as nat);
    law_decimals_read_back(view.total_packets as nat);
    law_decimals_read_back((view.total_bytes / 1024) as nat);
    assert(is_numeral(packets) && is_numeral(kilobytes));
}

/// A row of the table of traffic shows its source's address, the number of its
/// packets, its bytes in kilobytes, and whether it is anomalous.
pub proof fn law_a_row_shows_its_source(view: DashboardView, i: int)
    requires
        0 <= i < view.active_ips.len(),
    ensures
        view.traffic().len() == view.active_ips.len(),
        ({
            let row = view.active_ips[i];
            let cells = view.traffic()[i];
            &&& cells.0 == row.0
            &&& is_numeral(cells.1) && number_in(cells.1) == row.1
            &&& cells.2 == kilobytes(row.2)
            &&& cells.3 == (if row.3 {
                "ANOMALY"@
            } else {
                "NORMAL"@
            })
        }),
{
    law_decimals_read_back(view.active_ips[i].1 as nat);
}

/// A row of the table of blocked sources shows the address and the seconds that
/// are left.
pub proof fn law_a_row_shows_its_block(view: DashboardView, i: int)
    requires
        0 <= i < view.blocked_ips.len(),
    ensures
        view.blocks().len() == view.blocked_ips.len(),
        ({
            let row = view.blocked_ips[i];
            let cells = view.blocks()[i];
            &&& cells.0 == row.0
            &&& cells.1.len() > 0 && cells.1.last() == 's'
            &&& is_numeral(cells.1.drop_last()) && number_in(cells.1.drop_last()) == row.1
        }),
{
    let left = decimal(view.blocked_ips[i].1 as nat);
    law_decimals_read_back(view.blocked_ips[i].1 as nat);
    reveal_strlit("s");
    assert((left + "s"@).drop_last() =~= left);
}

/// A line that is logged comes last in the log, and changes nothing else.
pub proof fn law_a_logged_line_comes_last(view: DashboardView, line: Seq<char>)
    ensures
        ({
            let after = view.logging(line);
            &&& after.logs.len() == view.logs.len() + 1
            &&& after.logs.last() == line
            &&& after.logs.drop_last() == view.logs
            &&& after.active_ips == view.active_ips
            &&& after.blocked_ips == view.blocked_ips
            &&& after.total_packets == view.total_packets
            &&& after.total_bytes == view.total_bytes
            &&& after.paused == view.paused
        }),
{
    assert(view.logging(line).logs.drop_last() =~= view.logs);
}

/// The view of the panels is what they hold, row by row.
pub proof fn law_the_panels_are_seen_as_they_are(state: DashboardState, i: int)
    ensures
        state@.total_packets == state.total_packets,
        state@.total_bytes == state.total_bytes,
        state@.paused == state.paused,
        state@.active_ips.len() == state.active_ips@.len(),
        state@.blocked_ips.len() == state.blocked_ips@.len(),
        state@.logs.len() == state.logs@.len(),
        0 <= i < state.active_ips@.len() ==> {
            &&& state@.active_ips[i].0 == state.active_ips@[i].0@
            &&& state@.active_ips[i].1 == state.active_ips@[i].1
            &&& state@.active_ips[i].2 == state.active_ips@[i].2
            &&& state@.active_ips[i].3 == state.active_ips@[i].3
        },
        0 <= i < state.blocked_ips@.len() ==> {
            &&& state@.blocked_ips[i].0 == state.blocked_ips@[i].0@
            &&& state@.blocked_ips[i].1 == state.blocked_ips@[i].1
        },
        0 <= i < state.logs@.len() ==> state@.logs[i] == state.logs@[i]@,
{
}

} // verus!
