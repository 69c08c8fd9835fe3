//! The job channel bus: one optional receiver per job category, so at most
//! one job of a category is ever outstanding. The receivers themselves live
//! with the unverified shell; the bus tracks occupancy and decides, for each
//! request and each poll result, what happens to the slot.

use vstd::prelude::*;

use crate::types::{AppError, BusMessage, ChannelPoll, JobCategory, ProgressMessage};

verus! {

/// Occupancy of the three job slots. A slot is occupied exactly while a job
/// of its category is outstanding.
#[derive(Debug, Clone, Copy, PartialEq, Eq, Structural)]
pub struct JobSlots {
    pub fetch_primary: bool,
    pub fetch_secondary: bool,
    pub install: bool,
}

impl JobSlots {
    /// Whether the slot of `cat` is occupied.
    pub open spec fn occupied(self, cat: JobCategory) -> bool {
        match cat {
            JobCategory::FetchPrimary => self.fetch_primary,
            JobCategory::FetchSecondary => self.fetch_secondary,
            JobCategory::Install => self.install,
        }
    }

    /// The slots with the slot of `cat` set to `val` and the rest unchanged.
    pub open spec fn spec_with(self, cat: JobCategory, val: bool) -> JobSlots {
        match cat {
            JobCategory::FetchPrimary => JobSlots { fetch_primary: val, ..self },
            JobCategory::FetchSecondary => JobSlots { fetch_secondary: val, ..self },
            JobCategory::Install => JobSlots { install: val, ..self },
        }
    }

    /// All slots start free.
    pub fn new() -> (s: JobSlots)
        ensures
            s == (JobSlots { fetch_primary: false, fetch_secondary: false, install: false }),
    {
        JobSlots { fetch_primary: false, fetch_secondary: false, install: false }
    }

    /// Executable form of `occupied`.
    pub fn is_occupied(&self, cat: JobCategory) -> (b: bool)
        ensures
            b == self.occupied(cat),
    {
        match cat {
            JobCategory::FetchPrimary => self.fetch_primary,
            JobCategory::FetchSecondary => self.fetch_secondary,
            JobCategory::Install => self.install,
        }
    }

    /// The guarded check-then-set of a spawn request: a request while the
    /// slot is occupied is rejected with `Busy` and changes nothing; an
    /// accepted request occupies the slot, and the caller must then start
    /// the one job this call has admitted.
    pub fn acquire(&mut self, cat: JobCategory) -> (r: Result<(), AppError>)
        ensures
            (*final(self), r is Ok) == spec_request(*old(self), cat),
            old(self).occupied(cat) ==> r == Err::<(), AppError>(AppError::Busy),
            !old(self).occupied(cat) ==> r == Ok::<(), AppError>(()),
    {
        if self.is_occupied(cat) {
            Err(AppError::Busy)
        } else {
            match cat {
                JobCategory::FetchPrimary => {
                    self.fetch_primary = true;
                },
                JobCategory::FetchSecondary => {
                    self.fetch_secondary = true;
                },
                JobCategory::Install => {
                    self.install = true;
                },
            }
            Ok(())
        }
    }

    /// Non-blocking drain of one slot: zero or one message per call. An
    /// empty slot or an empty channel yields nothing. A terminal message
    /// frees the slot the moment it is drained; a disconnect before any
    /// terminal message is turned into a synthetic failure message and also
    /// frees the slot.
    pub fn drain(&mut self, cat: JobCategory, poll: ChannelPoll) -> (r: Option<BusMessage>)
        ensures
            !old(self).occupied(cat) ==> r is None && *final(self) == *old(self),
            old(self).occupied(cat) ==> match poll {
                ChannelPoll::Empty => r is None && *final(self) == *old(self),
                ChannelPoll::Received(m) => r == Some(m) && *final(self) == old(self).spec_with(
                    cat,
                    !m.spec_is_terminal(),
                ),
                ChannelPoll::Disconnected => (r matches Some(m) && is_disconnect_message(m, cat))
                    && *final(self) == old(self).spec_with(cat, false),
            },
    {
        if !self.is_occupied(cat) {
            return None;
        }
        match poll {
            ChannelPoll::Empty => None,
            ChannelPoll::Received(m) => {
                if m.is_terminal() {
                    self.clear(cat);
                }
                Some(m)
            },
            ChannelPoll::Disconnected => {
                self.clear(cat);
                let reason = disconnect_reason();
                if matches!(cat, JobCategory::Install) {
                    Some(BusMessage::Install(ProgressMessage::Error(reason)))
                } else {
                    Some(BusMessage::FetchFailed(reason))
                }
            },
        }
    }

    /// Frees one slot.
    fn clear(&mut self, cat: JobCategory)
        ensures
            *final(self) == old(self).spec_with(cat, false),
    {
        match cat {
            JobCategory::FetchPrimary => {
                self.fetch_primary = false;
            },
            JobCategory::FetchSecondary => {
                self.fetch_secondary = false;
            },
            JobCategory::Install => {
                self.install = false;
            },
        }
    }
}

/// The text of the failure a drain synthesizes when a job's channel
/// disconnects before a terminal message.
pub fn disconnect_reason() -> (s: String)
    ensures
        s@ == "job ended unexpectedly"@,
{
    String::from_str("job ended unexpectedly")
}

/// The message a drain synthesizes on disconnect: an install-progress error
/// for the install slot, a fetch failure for the fetch slots, carrying the
/// fixed reason text either way.
pub open spec fn is_disconnect_message(m: BusMessage, cat: JobCategory) -> bool {
    match cat {
        JobCategory::Install => m matches BusMessage::Install(ProgressMessage::Error(e)) && e@
            == "job ended unexpectedly"@,
        _ => m matches BusMessage::FetchFailed(e) && e@ == "job ended unexpectedly"@,
    }
}

/// One spawn request against the slots: the slots afterwards, and whether a
/// job was started.
pub open spec fn spec_request(s: JobSlots, cat: JobCategory) -> (JobSlots, bool) {
    if s.occupied(cat) {
        (s, false)
    } else {
        (s.spec_with(cat, true), true)
    }
}

/// The slots after a sequence of spawn requests, none of whose jobs has yet
/// reported back.
pub open spec fn fold_requests(s: JobSlots, reqs: Seq<JobCategory>) -> JobSlots
    decreases reqs.len(),
{
    if reqs.len() == 0 {
        s
    } else {
        fold_requests(spec_request(s, reqs[0]).0, reqs.drop_first())
    }
}

/// How many jobs of category `cat` a sequence of spawn requests starts,
/// when none of the started jobs reports back in between.
pub open spec fn spawn_count(s: JobSlots, reqs: Seq<JobCategory>, cat: JobCategory) -> nat
    decreases reqs.len(),
{
    if reqs.len() == 0 {
        0
    } else {
        let step = spec_request(s, reqs[0]);
        (if step.1 && reqs[0] == cat {
            1nat
        } else {
            0nat
        }) + spawn_count(step.0, reqs.drop_first(), cat)
    }
}

/// Law: for any sequence of requests, of any categories and in any order,
/// arriving while no job reports back, at most one job per category is ever
/// started — none at all while that category's slot is occupied — and an
/// occupied slot stays occupied until its job's terminal message is drained.
pub proof fn lemma_at_most_one_outstanding(s: JobSlots, reqs: Seq<JobCategory>, cat: JobCategory)
    ensures
        spawn_count(s, reqs, cat) <= if s.occupied(cat) {
            0nat
        } else {
            1nat
        },
        s.occupied(cat) ==> fold_requests(s, reqs).occupied(cat),
    decreases reqs.len(),
{
    if reqs.len() > 0 {
        let step = spec_request(s, reqs[0]);
        lemma_at_most_one_outstanding(step.0, reqs.drop_first(), cat);
    }
}

} // verus!
