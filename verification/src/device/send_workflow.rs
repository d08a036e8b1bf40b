//! The send workflow's decisions: after the command went to every device,
//! status reports are matched against the requested state until every device
//! shows it or the time is up.
use crate::config::model::texts;
use crate::device::state_match::{matches_expected, satisfies, RequestedState};
use crate::device::DeviceState;
use crate::protocol::status::{decode_device_state, state_of};
use crate::protocol::Payload;
use crate::text::{
    parse_u32, parse_unsigned_spec, str_eq, to_uppercase, u32_parse_error, u32_parse_error_text, unicode_uppercase,
};
use vstd::prelude::*;
use vstd::string::StrSliceExecFns;

verus! {

/// How the workflow ended.
#[derive(Debug, Default)]
pub struct SendWorkflowResult {
    pub timed_out: bool,
}

/// A status report whose state field is not a number.
#[derive(Debug)]
pub enum StatusError {
    InvalidState(String),
}

/// The devices that have not yet shown the requested state, by upper-cased device ID.
pub struct SendWait {
    pending: Vec<String>,
}

/// What happens while waiting.
pub enum WaitEvent {
    Packet(Payload),
    TimedOut,
}

/// Where the wait stands after an event.
#[derive(Debug)]
pub enum WaitStep {
    Pending,
    Done(SendWorkflowResult),
    Failed(StatusError),
}

/// An event's outcome: the step, and the elapsed timer minutes to report
/// when the command set a timer and a matching status came in.
#[derive(Debug)]
pub struct WaitOutcome {
    pub report_timer_mins: Option<u32>,
    pub step: WaitStep,
}

/// The part of a state string before its first comma.
pub open spec fn first_field(s: Seq<char>) -> Seq<char> {
    match s.index_of_first(',') {
        Some(k) => s.take(k),
        None => s,
    }
}

/// A status report that concerns the wait: from a pending device, not an
/// `internet_query` reply, and with a state string that has a comma.
pub open spec fn concerns(pending: Set<Seq<char>>, device_id: Seq<char>, message_id: Seq<char>, state_string: Seq<char>) -> bool {
    &&& pending.contains(unicode_uppercase(device_id))
    &&& message_id != "internet_query"@
    &&& state_string.contains(',')
}

impl SendWait {
    /// The devices still pending.
    pub closed spec fn pending_ids(&self) -> Set<Seq<char>> {
        texts(self.pending@).to_set()
    }

    /// A wait with no devices pending.
    pub fn new() -> (r: SendWait)
        ensures
            r.pending_ids() == Set::<Seq<char>>::empty(),
    {
        let r = SendWait { pending: Vec::new() };
        assert(r.pending_ids() =~= Set::<Seq<char>>::empty());
        r
    }

    /// Whether no device is pending.
    pub fn is_done(&self) -> (r: bool)
        ensures
            r == (self.pending_ids() == Set::<Seq<char>>::empty()),
    {
        proof {
            if self.pending@.len() > 0 {
                assert(texts(self.pending@)[0] == self.pending@[0]@);
                assert(self.pending_ids().contains(self.pending@[0]@));
            } else {
                assert(texts(self.pending@) =~= Seq::<Seq<char>>::empty());
                assert(self.pending_ids() =~= Set::<Seq<char>>::empty());
            }
        }
        self.pending.len() == 0
    }

    /// Whether the device with upper-cased ID `id` is pending.
    fn position(&self, id: &str) -> (r: Option<usize>)
        ensures
            r matches Some(i) ==> i < self.pending@.len() && self.pending@[i as int]@ == id@
                && self.pending_ids().contains(id@),
            r is None ==> !self.pending_ids().contains(id@),
    {
        let n = self.pending.len();
        for i in 0..n
            invariant
                n == self.pending@.len(),
                forall|j: int| 0 <= j < i ==> self.pending@[j]@ != id@,
        {
            if str_eq(self.pending[i].as_str(), id) {
                assert(texts(self.pending@)[i as int] == id@);
                return Some(i);
            }
        }
        proof {
            if self.pending_ids().contains(id@) {
                let j = choose|j: int| 0 <= j < texts(self.pending@).len() && texts(self.pending@)[j] == id@;
                assert(self.pending@[j]@ == id@);
            }
        }
        None
    }

    /// The command went to a device: it is pending until its status shows the
    /// requested state.
    pub fn add_device(&mut self, device_id: &str)
        ensures
            final(self).pending_ids() == old(self).pending_ids().insert(unicode_uppercase(device_id@)),
    {
        let id = to_uppercase(device_id);
        match self.position(id.as_str()) {
            Some(_) => {
                assert(old(self).pending_ids().contains(id@));
                assert(old(self).pending_ids().insert(id@) =~= old(self).pending_ids());
            },
            None => {
                let ghost before = texts(self.pending@);
                let ghost v = id@;
                self.pending.push(id);
                assert(texts(self.pending@) =~= before.push(v));
                proof {
                    before.lemma_push_to_set_commute(v);
                }
            },
        }
    }

    /// The device with upper-cased ID `id` showed the requested state.
    fn settle(&mut self, i: usize)
        requires
            i < old(self).pending@.len(),
        ensures
            final(self).pending_ids() == old(self).pending_ids().remove(old(self).pending@[i as int]@),
    {
        let ghost id = self.pending@[i as int]@;
        let mut kept: Vec<String> = Vec::new();
        let n = self.pending.len();
        for j in 0..n
            invariant
                n == self.pending@.len(),
                i < n,
                self.pending == old(self).pending,
                id == self.pending@[i as int]@,
                texts(kept@).to_set() == texts(self.pending@.take(j as int)).to_set().remove(id),
        {
            proof {
                assert(texts(self.pending@.take(j + 1)) =~= texts(self.pending@.take(j as int)).push(
                    self.pending@[j as int]@,
                ));
                texts(self.pending@.take(j as int)).lemma_push_to_set_commute(self.pending@[j as int]@);
            }
            if !str_eq(self.pending[j].as_str(), self.pending[i].as_str()) {
                let ghost before = texts(kept@);
                let ghost v = self.pending@[j as int]@;
                kept.push(self.pending[j].clone());
                assert(texts(kept@) =~= before.push(v));
                proof {
                    before.lemma_push_to_set_commute(v);
                }
                assert(texts(kept@).to_set() =~= texts(self.pending@.take(j + 1)).to_set().remove(id));
            } else {
                assert(texts(kept@).to_set() =~= texts(self.pending@.take(j + 1)).to_set().remove(id));
            }
        }
        assert(self.pending@.take(n as int) =~= self.pending@);
        self.pending = kept;
    }
}

/// The part of a state string before its first comma, when it has one.
fn state_field(s: &str) -> (r: Option<&str>)
    ensures
        s@.contains(',') ==> (r matches Some(f) && f@ == first_field(s@)),
        !s@.contains(',') ==> r is None,
        r matches Some(f) ==> f@.len() < s@.len() && f@ == s@.take(f@.len() as int) && s@[f@.len() as int]
            == ',' && !f@.contains(','),
{
    let n = s.unicode_len();
    for k in 0..n
        invariant
            n == s@.len(),
            forall|j: int| 0 <= j < k ==> s@[j] != ',',
    {
        if s.get_char(k) == ',' {
            proof {
                crate::config::model::lemma_first_at(s@, ',', k as int);
            }
            let f = s.substring_char(0, k);
            proof {
                assert(f@ =~= s@.take(k as int));
                if f@.contains(',') {
                    let j = choose|j: int| 0 <= j < f@.len() && f@[j] == ',';
                    assert(s@[j] == ',');
                }
            }
            return Some(f);
        }
    }
    None
}

/// What the wait does with one event.
pub open spec fn wait_post(
    pending: Set<Seq<char>>,
    expected: RequestedState,
    event: WaitEvent,
    r: WaitOutcome,
    pending2: Set<Seq<char>>,
) -> bool {
    match event {
        WaitEvent::TimedOut => r.step == WaitStep::Done(SendWorkflowResult { timed_out: true })
            && r.report_timer_mins is None && pending2 == pending,
        WaitEvent::Packet(p) => {
            let relevant = p matches Payload::Status(st) && concerns(
                pending,
                st.device_id@,
                st.message_id@,
                st.state_string@,
            );
            if !relevant {
                &&& r.report_timer_mins is None
                &&& pending2 == pending
                &&& r.step == if pending == Set::<Seq<char>>::empty() {
                    WaitStep::Done(SendWorkflowResult { timed_out: false })
                } else {
                    WaitStep::Pending
                }
            } else {
                let st = p->Status_0;
                let field = first_field(st.state_string@);
                match parse_unsigned_spec(field, 0xffff_ffff) {
                    None => (r.step matches WaitStep::Failed(StatusError::InvalidState(x)) && x@ == field)
                        && r.report_timer_mins is None && pending2 == pending,
                    Some(v) => {
                        let ds = state_of(v as u32);
                        let id = unicode_uppercase(st.device_id@);
                        &&& r.report_timer_mins == if expected.timer is Some {
                            Some(ds.timer_elapsed_mins)
                        } else {
                            None
                        }
                        &&& pending2 == if satisfies(ds, expected) {
                            pending.remove(id)
                        } else {
                            pending
                        }
                        &&& r.step == if pending2 == Set::<Seq<char>>::empty() {
                            WaitStep::Done(SendWorkflowResult { timed_out: false })
                        } else {
                            WaitStep::Pending
                        }
                    },
                }
            }
        },
    }
}

/// One event of the wait.
pub fn wait_step(wait: &mut SendWait, expected: &RequestedState, event: WaitEvent) -> (r: WaitOutcome)
    ensures
        wait_post(old(wait).pending_ids(), *expected, event, r, final(wait).pending_ids()),
{
    let payload = match event {
        WaitEvent::TimedOut => {
            return WaitOutcome {
                report_timer_mins: None,
                step: WaitStep::Done(SendWorkflowResult { timed_out: true }),
            };
        },
        WaitEvent::Packet(p) => p,
    };
    let mut report: Option<u32> = None;
    if let Payload::Status(state) = &payload {
        let state_device_id = to_uppercase(state.device_id.as_str());
        let found = wait.position(state_device_id.as_str());
        if let Some(i) = found {
            if !str_eq(state.message_id.as_str(), "internet_query") {
                if let Some(field) = state_field(state.state_string.as_str()) {
                    let v = match parse_u32(field) {
                        Some(v) => v,
                        None => {
                            return WaitOutcome {
                                report_timer_mins: None,
                                step: WaitStep::Failed(StatusError::InvalidState(field.to_owned())),
                            };
                        },
                    };
                    let device_state = decode_device_state(v);
                    if expected.timer.is_some() {
                        report = Some(device_state.timer_elapsed_mins);
                    }
                    if matches_expected(&device_state, expected) {
                        wait.settle(i);
                    }
                }
            }
        }
    }
    let step = if wait.is_done() {
        WaitStep::Done(SendWorkflowResult { timed_out: false })
    } else {
        WaitStep::Pending
    };
    WaitOutcome { report_timer_mins: report, step }
}

/// The text a status report with an unreadable state is reported with: the
/// error of reading its state field as a `u32`.
pub open spec fn status_error_text(e: StatusError) -> Seq<char> {
    match e {
        StatusError::InvalidState(f) => if parse_unsigned_spec(f@, 0xffff_ffff) is None {
            u32_parse_error_text(f@)
        } else {
            "Invalid State String"@
        },
    }
}

impl StatusError {
    /// The text this error is reported with.
    pub fn message(&self) -> (r: String)
        ensures
            r@ == status_error_text(*self),
    {
        match self {
            StatusError::InvalidState(f) => match u32_parse_error(f.as_str()) {
                Some(t) => t,
                None => "Invalid State String".to_owned(),
            },
        }
    }
}

} // verus!
