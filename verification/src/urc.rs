//! The two producers of unsolicited lines, each as the decision that the
//! loop around it takes once a cycle.
//!
//! The GNSS producer reports the position while the receiver is switched on.
//! The registration producer announces each change of the registration
//! status. The session runs the loops: it hands in what it observed, sends
//! the line that comes back, if any, and waits as long as it is told.

use crate::sim868::{
    clamped_interval, GnssConfig, GnssConfiguration, GnssState, Sim868, CREG_REPORT,
};
use crate::text::{decimal, push_decimal};
use vstd::prelude::*;
use vstd::string::*;

verus! {

/// The position report.
pub const GNSS_REPORT: &'static str = "AT+UGNSINF=1,2,4,1,2,4,12,4,1";

/// Milliseconds that the GNSS producer waits before it looks again while the
/// receiver is switched off.
pub const GNSS_IDLE_MILLIS: u32 = 100;

/// Seconds between two looks of the registration producer at the status.
pub const CREG_POLL_SECONDS: u64 = 5;

/// Model of what one cycle of the GNSS producer decides.
pub struct GnssCycleView {
    pub report: Option<Seq<char>>,
    pub wait_millis: u32,
}

/// What one cycle of the GNSS producer decides: the line to send, if any, and
/// the time to wait before the next cycle.
#[derive(Clone, Debug, PartialEq, Eq)]
pub struct GnssCycle {
    pub report: Option<String>,
    pub wait_millis: u32,
}

impl View for GnssCycle {
    type V = GnssCycleView;

    open spec fn view(&self) -> GnssCycleView {
        GnssCycleView {
            report: match self.report {
                Some(line) => Some(line@),
                None => None,
            },
            wait_millis: self.wait_millis,
        }
    }
}

/// The receiver's state after a cycle that took `request` off the control
/// channel: a request for an interval sets it, to one second at least; any
/// other request, and none, leaves the state as it is.
pub open spec fn gnss_after(s: GnssState, request: Option<GnssConfig>) -> GnssState {
    match request {
        Some(GnssConfig::URC(seconds)) => GnssState { urc: clamped_interval(seconds), ..s },
        _ => s,
    }
}

/// What a cycle decides that took `request` off the control channel in state
/// `s`. Switched on, the producer reports and waits for the interval, the
/// request already applied. Switched off, it reports nothing and looks again
/// soon.
pub open spec fn gnss_cycle(s: GnssState, request: Option<GnssConfig>) -> GnssCycleView {
    if s.power {
        GnssCycleView {
            report: Some(GNSS_REPORT@),
            wait_millis: (gnss_after(s, request).urc * 1000) as u32,
        }
    } else {
        GnssCycleView { report: None, wait_millis: GNSS_IDLE_MILLIS }
    }
}

/// The number of reports over the cycles that take `requests` off the control
/// channel, one each, from state `s` on.
pub open spec fn gnss_reports(s: GnssState, requests: Seq<Option<GnssConfig>>) -> nat
    decreases requests.len(),
{
    if requests.len() == 0 {
        0
    } else {
        (if gnss_cycle(s, requests[0]).report is Some {
            1nat
        } else {
            0nat
        }) + gnss_reports(gnss_after(s, requests[0]), requests.skip(1))
    }
}

/// The milliseconds waited over the cycles that take `requests` off the
/// control channel, one each, from state `s` on.
pub open spec fn gnss_waited(s: GnssState, requests: Seq<Option<GnssConfig>>) -> nat
    decreases requests.len(),
{
    if requests.len() == 0 {
        0
    } else {
        gnss_cycle(s, requests[0]).wait_millis as nat + gnss_waited(
            gnss_after(s, requests[0]),
            requests.skip(1),
        )
    }
}

/// Whether none of `requests` asks for another interval.
pub open spec fn no_interval_request(requests: Seq<Option<GnssConfig>>) -> bool {
    forall|i: int| 0 <= i < requests.len() ==> !(#[trigger] requests[i] matches Some(
        GnssConfig::URC(_),
    ))
}

/// While the receiver is switched on, every cycle reports once.
pub proof fn lemma_gnss_reports_every_cycle(s: GnssState, requests: Seq<Option<GnssConfig>>)
    requires
        s.power,
    ensures
        gnss_reports(s, requests) == requests.len(),
    decreases requests.len(),
{
    if requests.len() > 0 {
        lemma_gnss_reports_every_cycle(gnss_after(s, requests[0]), requests.skip(1));
    }
}

/// While the receiver is switched off, no cycle reports, and each waits the
/// short time only.
pub proof fn lemma_gnss_silent_while_off(s: GnssState, requests: Seq<Option<GnssConfig>>)
    requires
        !s.power,
    ensures
        gnss_reports(s, requests) == 0,
        gnss_waited(s, requests) == requests.len() * GNSS_IDLE_MILLIS,
    decreases requests.len(),
{
    if requests.len() > 0 {
        lemma_gnss_silent_while_off(gnss_after(s, requests[0]), requests.skip(1));
        assert(requests.len() * GNSS_IDLE_MILLIS == (requests.len() - 1) * GNSS_IDLE_MILLIS
            + GNSS_IDLE_MILLIS) by (nonlinear_arith);
    }
}

/// Switched on, and with nothing asking for another interval, the producer
/// reports once per interval: as many reports as cycles, and the interval
/// waited after each. At an interval of one second that is a report for each
/// second waited.
pub proof fn lemma_gnss_report_per_interval(s: GnssState, requests: Seq<Option<GnssConfig>>)
    requires
        s.power,
        no_interval_request(requests),
    ensures
        gnss_reports(s, requests) == requests.len(),
        gnss_waited(s, requests) == requests.len() * (s.urc * 1000),
        s.urc == 1 ==> gnss_waited(s, requests) == 1000 * gnss_reports(s, requests),
    decreases requests.len(),
{
    if requests.len() > 0 {
        let tail = requests.skip(1);
        assert(!(requests[0] matches Some(GnssConfig::URC(_))));
        assert(gnss_after(s, requests[0]) == s);
        assert forall|i: int| 0 <= i < tail.len() implies !(#[trigger] tail[i] matches Some(
            GnssConfig::URC(_),
        )) by {
            assert(tail[i] == requests[i + 1]);
        }
        lemma_gnss_report_per_interval(s, tail);
        assert(requests.len() * (s.urc * 1000) == (requests.len() - 1) * (s.urc * 1000) + s.urc
            * 1000) by (nonlinear_arith);
    }
}

/// No request brings the interval under a second.
pub proof fn lemma_gnss_interval_stays_positive(s: GnssState, request: Option<GnssConfig>)
    requires
        s.wf(),
    ensures
        gnss_after(s, request).wf(),
        gnss_after(s, request).power == s.power,
        gnss_after(s, request).urc_enabled == s.urc_enabled,
{
}

impl GnssConfiguration {
    /// Applies a request that came over the control channel.
    pub fn apply(&mut self, request: GnssConfig)
        ensures
            final(self)@ == gnss_after(old(self)@, Some(request)),
    {
        match request {
            GnssConfig::URC(seconds) => {
                self.set_urc(seconds);
            },
            GnssConfig::STATUS(_) => {},
        }
    }

    /// One cycle of the GNSS producer. `request` is what the cycle took off
    /// the control channel, if anything was waiting there.
    pub fn urc_cycle(&mut self, request: Option<GnssConfig>) -> (cycle: GnssCycle)
        ensures
            final(self)@ == gnss_after(old(self)@, request),
            cycle@ == gnss_cycle(old(self)@, request),
            cycle.report is Some <==> old(self)@.power,
    {
        match request {
            Some(r) => {
                self.apply(r);
            },
            None => {},
        }
        if self.power() {
            let seconds: u32 = self.urc() as u32;
            GnssCycle { report: Some(String::from_str(GNSS_REPORT)), wait_millis: seconds * 1000 }
        } else {
            GnssCycle { report: None, wait_millis: GNSS_IDLE_MILLIS }
        }
    }
}

/// The line that announces the registration status `status`.
pub open spec fn status_line(status: u8) -> Seq<char> {
    CREG_REPORT@ + decimal(status as nat)
}

/// The lines that the registration producer sends while it observes
/// `statuses`, one status a cycle, having observed `last` before.
pub open spec fn announcements(last: u8, statuses: Seq<u8>) -> Seq<Seq<char>>
    decreases statuses.len(),
{
    if statuses.len() == 0 {
        Seq::empty()
    } else if statuses[0] != last {
        seq![status_line(statuses[0])] + announcements(statuses[0], statuses.skip(1))
    } else {
        announcements(statuses[0], statuses.skip(1))
    }
}

/// The status that the producer observed last, after `statuses`.
pub open spec fn last_observed(last: u8, statuses: Seq<u8>) -> u8 {
    if statuses.len() == 0 {
        last
    } else {
        statuses.last()
    }
}

/// The number of observations among `statuses` that differ from the one
/// before them, the first being held against `last`.
pub open spec fn transitions(last: u8, statuses: Seq<u8>) -> nat
    decreases statuses.len(),
{
    if statuses.len() == 0 {
        0
    } else {
        transitions(last, statuses.drop_last()) + if statuses.last() != last_observed(
            last,
            statuses.drop_last(),
        ) {
            1nat
        } else {
            0nat
        }
    }
}

/// One more observation adds one line if it differs from the observation
/// before it, and the line announces the new status; it adds nothing if it
/// does not differ.
pub proof fn lemma_one_line_per_transition(last: u8, statuses: Seq<u8>, status: u8)
    ensures
        announcements(last, statuses.push(status)) == if status != last_observed(last, statuses) {
            announcements(last, statuses).push(status_line(status))
        } else {
            announcements(last, statuses)
        },
    decreases statuses.len(),
{
    let longer = statuses.push(status);
    if statuses.len() == 0 {
        assert(longer.skip(1) =~= Seq::<u8>::empty());
        reveal_with_fuel(announcements, 2);
        assert(announcements(last, longer) =~= if status != last {
            Seq::<Seq<char>>::empty().push(status_line(status))
        } else {
            Seq::<Seq<char>>::empty()
        });
    } else {
        let first = statuses[0];
        let tail = statuses.skip(1);
        lemma_one_line_per_transition(first, tail, status);
        assert(longer.skip(1) =~= tail.push(status));
        assert(last_observed(first, tail) == last_observed(last, statuses));
        if status != last_observed(last, statuses) {
            assert(announcements(last, longer) =~= announcements(last, statuses).push(
                status_line(status),
            ));
        }
    }
}

/// There are as many lines as transitions.
pub proof fn lemma_lines_count_transitions(last: u8, statuses: Seq<u8>)
    ensures
        announcements(last, statuses).len() == transitions(last, statuses),
    decreases statuses.len(),
{
    if statuses.len() > 0 {
        let shorter = statuses.drop_last();
        lemma_lines_count_transitions(last, shorter);
        lemma_one_line_per_transition(last, shorter, statuses.last());
        assert(shorter.push(statuses.last()) =~= statuses);
    }
}

/// A status that stays as it was is never announced.
pub proof fn lemma_no_change_no_line(last: u8, statuses: Seq<u8>)
    requires
        forall|i: int| 0 <= i < statuses.len() ==> statuses[i] == last,
    ensures
        announcements(last, statuses) == Seq::<Seq<char>>::empty(),
    decreases statuses.len(),
{
    if statuses.len() > 0 {
        lemma_no_change_no_line(last, statuses.skip(1));
    }
}

/// The registration producer's memory: the status that it observed last.
#[derive(Debug)]
pub struct RegistrationWatcher {
    last_status: u8,
}

impl View for RegistrationWatcher {
    type V = u8;

    closed spec fn view(&self) -> u8 {
        self.last_status
    }
}

impl RegistrationWatcher {
    /// A producer that has observed `status`.
    pub fn new(status: u8) -> (watcher: RegistrationWatcher)
        ensures
            watcher@ == status,
    {
        RegistrationWatcher { last_status: status }
    }

    /// The status that the producer observed last.
    pub fn last_status(&self) -> (status: u8)
        ensures
            status == self@,
    {
        self.last_status
    }

    /// One cycle of the registration producer: takes the status as it is now
    /// and returns the line that announces it if it is not the status
    /// observed last, and nothing if it is.
    pub fn observe(&mut self, status: u8) -> (line: Option<String>)
        ensures
            final(self)@ == status,
            status == old(self)@ ==> line is None,
            status != old(self)@ ==> (line matches Some(text) && text@ == status_line(status)),
            match line {
                Some(text) => announcements(old(self)@, seq![status]) == seq![text@],
                None => announcements(old(self)@, seq![status]) == Seq::<Seq<char>>::empty(),
            },
    {
        proof {
            reveal_with_fuel(announcements, 2);
            assert(seq![status].skip(1) =~= Seq::<u8>::empty());
            assert(seq![status_line(status)] + Seq::<Seq<char>>::empty() =~= seq![
                status_line(status),
            ]);
        }
        if status == self.last_status {
            return None;
        }
        self.last_status = status;
        let mut text = String::from_str(CREG_REPORT);
        push_decimal(&mut text, status as u64);
        Some(text)
    }
}

impl Sim868 {
    /// Marks the GNSS producer as started, if the device is switched on and
    /// the producer is not running yet, and says whether the caller is to
    /// start it now. A device that is switched off starts no producer.
    pub fn start_gnss(&mut self) -> (start: bool)
        ensures
            start == (old(self)@.power && !old(self)@.gnss_reporting),
            final(self)@.gnss_reporting == (old(self)@.gnss_reporting || old(self)@.power),
            final(self)@.power == old(self)@.power,
            final(self)@.gnss == old(self)@.gnss,
            final(self)@.working == old(self)@.working,
            final(self)@.configs == old(self)@.configs,
            final(self)@.reg_status == old(self)@.reg_status,
            final(self)@.creg_reporting == old(self)@.creg_reporting,
    {
        if self.power && !self.gnss_reporting {
            self.gnss_reporting = true;
            true
        } else {
            false
        }
    }

    /// The memory that the registration producer starts with: the status as
    /// it is now, so that only a later change is announced.
    pub fn creg_thread(&self) -> (watcher: RegistrationWatcher)
        ensures
            watcher@ == self@.reg_status,
    {
        RegistrationWatcher::new(self.reg_status)
    }
}

} // verus!
