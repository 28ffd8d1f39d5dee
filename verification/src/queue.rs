//! The action queue of the orchestrator. Actions run one step at a time; the one
//! being executed is taken out of the queue and a placeholder with its id stays
//! in its place, so that the running action can still be moved or deleted.
//!
//! The thread that runs the queue asks [`Queue::next_step`] what to do next,
//! performs it (taking out the front action, putting back the previous one,
//! waiting...), runs a step of the action outside of the queue's lock, and then
//! reports the step's result with [`Queue::end_step`].

use std::collections::VecDeque;
use vstd::prelude::*;
use crate::action::{ActionId, ActionWrapper, Context, joined_path, dir_name, path_file_name, is_plain_label};

verus! {

/// Whether the robot is handling an emergency.
#[derive(PartialEq, Eq, Structural, Clone, Copy, Debug)]
pub enum EmergencyStatus {
    /// No emergency.
    NoEmergency,
    /// An emergency was signalled; the emergency action has not started yet.
    WaitingForReset,
    /// The emergency action is running.
    Resetting,
}

/// Why a reordering was refused.
#[derive(PartialEq, Eq, Structural, Clone, Copy, Debug)]
pub enum ReorderError {
    /// The expected and the new order do not hold the same ids.
    MismatchedExpectedNew,
    /// The queue no longer holds the expected ids in the expected order.
    QueueChanged,
}

/// What the runner of the queue should do next.
#[derive(PartialEq, Eq, Structural, Clone, Copy, Debug)]
pub enum NextStep {
    /// The queue was stopped: return.
    Stop,
    /// Release the previously executed action and put it back
    /// ([`Queue::release_prev_action`]), then ask again.
    ReleasePrev,
    /// Start the emergency action ([`Queue::start_emergency`]).
    StartEmergency,
    /// Run another step of the previously executed action.
    ContinuePrev,
    /// Take the front action out of the queue ([`Queue::extract_front`]) and
    /// run it.
    StartFront,
    /// Nothing to do: wait until the queue changes, then ask again.
    Wait,
}

/// What a step of an action returned.
pub enum StepResult<P, E> {
    /// More steps are left; the progress, if the action knows it.
    Running(Option<P>),
    /// The step failed; the action stays in the queue.
    RunningError(E),
    /// The action has finished.
    Finished,
    /// The step failed and the action is dropped.
    FinishedError(E),
}

/// How the queue reacts to the result of a step.
#[derive(PartialEq, Eq, Structural, Clone, Copy, Debug)]
pub struct StepOutcome<P> {
    /// The action is done: release it and remove it from the queue.
    pub release: bool,
    /// Pause the queue.
    pub pause: bool,
    /// The new progress to show for the action, if any.
    pub progress: Option<P>,
}

impl<P: Copy, E> StepResult<P, E> {
    /// The error that a failed step returned, if any.
    pub fn into_error(self) -> (r: Option<E>)
        ensures
            r == (match self {
                StepResult::RunningError(e) => Some(e),
                StepResult::FinishedError(e) => Some(e),
                _ => None,
            }),
    {
        match self {
            StepResult::RunningError(e) => Some(e),
            StepResult::FinishedError(e) => Some(e),
            _ => None,
        }
    }

    /// Running actions stay and report their progress; a failing running action
    /// pauses the queue; finished actions, failed or not, are released, and a
    /// successfully finished one shows `finished_progress`.
    pub fn outcome(&self, finished_progress: P) -> (r: StepOutcome<P>)
        ensures
            r == (match self {
                StepResult::Running(p) => StepOutcome { release: false, pause: false, progress: *p },
                StepResult::RunningError(_) => StepOutcome {
                    release: false,
                    pause: true,
                    progress: None,
                },
                StepResult::Finished => StepOutcome {
                    release: true,
                    pause: false,
                    progress: Some(finished_progress),
                },
                StepResult::FinishedError(_) => StepOutcome {
                    release: true,
                    pause: false,
                    progress: None,
                },
            }),
    {
        match self {
            StepResult::Running(p) => StepOutcome { release: false, pause: false, progress: *p },
            StepResult::RunningError(_) => StepOutcome { release: false, pause: true, progress: None },
            StepResult::Finished => StepOutcome {
                release: true,
                pause: false,
                progress: Some(finished_progress),
            },
            StepResult::FinishedError(_) => StepOutcome { release: true, pause: false, progress: None },
        }
    }
}

/// The placeholder left in the queue while the action of `w` runs: same
/// context, progress and errors, no action.
pub open spec fn placeholder_of<A, P, E>(w: ActionWrapper<A, P, E>) -> ActionWrapper<A, P, E> {
    ActionWrapper { action: None, progress: w.progress, ctx: w.ctx, errors: w.errors }
}

/// The action of `prev` put back into its placeholder `slot`: the action, its
/// context and progress come from `prev`; the errors recorded on the
/// placeholder while it ran are kept.
pub open spec fn put_back<A, P, E>(
    slot: ActionWrapper<A, P, E>,
    prev: ActionWrapper<A, P, E>,
) -> ActionWrapper<A, P, E> {
    ActionWrapper { action: prev.action, progress: prev.progress, ctx: prev.ctx, errors: slot.errors }
}

/// Whether the runner holds an action that it acquired and has not released:
/// the action it ran last, with the action still in it.
pub open spec fn holds_acquired<A, P, E>(prev: Option<ActionWrapper<A, P, E>>) -> bool {
    prev matches Some(p) && p.action is Some
}

/// The ids of a sequence of actions.
pub open spec fn ids_of<A, P, E>(s: Seq<ActionWrapper<A, P, E>>) -> Seq<ActionId> {
    s.map_values(|a: ActionWrapper<A, P, E>| a.ctx.spec_id())
}

/// Index of the first action with id `id`, or `s.len()` if there is none.
pub open spec fn position_of<A, P, E>(s: Seq<ActionWrapper<A, P, E>>, id: ActionId) -> int
    decreases s.len(),
{
    if s.len() == 0 {
        0
    } else if s[0].ctx.spec_id() == id {
        0
    } else {
        1 + position_of(s.drop_first(), id)
    }
}

/// The position of an id lies between 0 and the length; below the length it is
/// the first action with that id, and at the length no action has it.
pub proof fn lemma_position_of_bounds<A, P, E>(s: Seq<ActionWrapper<A, P, E>>, id: ActionId)
    ensures
        0 <= position_of(s, id) <= s.len(),
        position_of(s, id) < s.len() ==> s[position_of(s, id)].ctx.spec_id() == id,
        forall|j: int| 0 <= j < position_of(s, id) ==> s[j].ctx.spec_id() != id,
    decreases s.len(),
{
    if s.len() > 0 && s[0].ctx.spec_id() != id {
        lemma_position_of_bounds(s.drop_first(), id);
        assert forall|j: int| 0 <= j < position_of(s, id) implies s[j].ctx.spec_id() != id by {
            if j > 0 {
                assert(s[j] == s.drop_first()[j - 1]);
            }
        }
    }
}

pub proof fn lemma_position_of<A, P, E>(s: Seq<ActionWrapper<A, P, E>>, id: ActionId, i: int)
    requires
        0 <= i <= s.len(),
        forall|j: int| 0 <= j < i ==> s[j].ctx.spec_id() != id,
        i == s.len() || s[i].ctx.spec_id() == id,
    ensures
        position_of(s, id) == i,
    decreases s.len(),
{
    if s.len() > 0 && i > 0 {
        lemma_position_of(s.drop_first(), id, i - 1);
    }
}

/// Counters that let tests see how often the runner waited and how many steps
/// it went through.
#[derive(Debug)]
pub struct QueueTestStats {
    wait_counter: usize,
    tick_counter: usize,
}

impl QueueTestStats {
    pub closed spec fn spec_waits(&self) -> nat {
        self.wait_counter as nat
    }

    pub closed spec fn spec_ticks(&self) -> nat {
        self.tick_counter as nat
    }

    pub fn new() -> (r: Self)
        ensures
            r.spec_waits() == 0,
            r.spec_ticks() == 0,
    {
        QueueTestStats { wait_counter: 0, tick_counter: 0 }
    }

    pub fn get_wait_counter(&self) -> (r: usize)
        ensures
            r == self.spec_waits(),
    {
        self.wait_counter
    }

    pub fn get_tick_counter(&self) -> (r: usize)
        ensures
            r == self.spec_ticks(),
    {
        self.tick_counter
    }

    /// The runner is about to wait for the queue to change.
    pub fn increase_wait_counter(&mut self)
        requires
            old(self).spec_waits() < usize::MAX,
        ensures
            final(self).spec_waits() == old(self).spec_waits() + 1,
            final(self).spec_ticks() == old(self).spec_ticks(),
    {
        self.wait_counter = self.wait_counter + 1;
    }

    /// The runner asked for its next action.
    pub fn increase_tick_counter(&mut self)
        requires
            old(self).spec_ticks() < usize::MAX,
        ensures
            final(self).spec_ticks() == old(self).spec_ticks() + 1,
            final(self).spec_waits() == old(self).spec_waits(),
    {
        self.tick_counter = self.tick_counter + 1;
    }
}

/// The state shared between the runner of the queue and the rest of the
/// orchestrator.
#[derive(Debug)]
pub struct Queue<A, P, K, E> {
    /// The actions, first to run first.
    pub actions: VecDeque<ActionWrapper<A, P, E>>,
    /// A paused queue starts no step.
    pub paused: bool,
    /// A stopped queue releases the running action and stops its runner.
    pub stopped: bool,
    pub emergency: EmergencyStatus,
    /// The id of the action whose step is running, if any.
    pub running_id: Option<ActionId>,
    /// Whoever can interrupt the running step.
    pub running_killer: Option<K>,
    /// The id the next action will get.
    pub id_counter: ActionId,
    /// The directory inside which actions save themselves.
    pub save_dir: String,
}

impl<A, P: Copy, K, E> Queue<A, P, K, E> {
    /// The same queue apart from the actions.
    pub open spec fn same_except_actions(&self, other: &Self) -> bool {
        &&& self.paused == other.paused
        &&& self.stopped == other.stopped
        &&& self.emergency == other.emergency
        &&& self.running_id == other.running_id
        &&& self.running_killer == other.running_killer
        &&& self.id_counter == other.id_counter
        &&& self.save_dir@ == other.save_dir@
    }

    /// Every placeholder in the queue stands for the action with id `held`, the
    /// one the runner holds (none when `held` is `None`).
    pub open spec fn placeholders_only(&self, held: Option<ActionId>) -> bool {
        forall|j: int|
            0 <= j < self.actions@.len() && (#[trigger] self.actions@[j]).action is None ==> held
                == Some(self.actions@[j].ctx.spec_id())
    }

    /// Each id in the queue occurs once, and each was handed out before the
    /// current value of the counter.
    pub open spec fn ids_unique(&self) -> bool {
        forall|x: ActionId|
            #![trigger count_of(ids_of(self.actions@), x)]
            count_of(ids_of(self.actions@), x) <= 1 && (x >= self.id_counter ==> count_of(
                ids_of(self.actions@),
                x,
            ) == 0)
    }

    /// What the runner should do, given the action it executed last (if any).
    pub open spec fn spec_next_step(&self, prev: Option<ActionWrapper<A, P, E>>) -> NextStep {
        if self.stopped {
            if prev is Some {
                NextStep::ReleasePrev
            } else {
                NextStep::Stop
            }
        } else if self.paused || self.emergency != EmergencyStatus::NoEmergency {
            if prev is Some {
                NextStep::ReleasePrev
            } else if self.emergency == EmergencyStatus::WaitingForReset {
                NextStep::StartEmergency
            } else {
                NextStep::Wait
            }
        } else if self.actions@.len() > 0 {
            match prev {
                Some(p) => if self.actions@[0].ctx.spec_id() == p.ctx.spec_id() && p.action is Some {
                    NextStep::ContinuePrev
                } else {
                    NextStep::ReleasePrev
                },
                None => NextStep::StartFront,
            }
        } else {
            if prev is Some {
                NextStep::ReleasePrev
            } else {
                NextStep::Wait
            }
        }
    }

    /// An empty queue, not paused, saving its actions inside `save_dir`.
    pub fn new(save_dir: String) -> (r: Self)
        ensures
            r.actions@.len() == 0,
            !r.paused,
            !r.stopped,
            r.emergency == EmergencyStatus::NoEmergency,
            r.running_id is None,
            r.running_killer is None,
            r.id_counter == 0,
            r.save_dir@ == save_dir@,
            r.ids_unique(),
    {
        Queue {
            actions: VecDeque::new(),
            paused: false,
            stopped: false,
            emergency: EmergencyStatus::NoEmergency,
            running_id: None,
            running_killer: None,
            id_counter: 0,
            save_dir,
        }
    }

    /// Wraps `action` with the next id; ids are handed out in order and wrap
    /// around after `u32::MAX`.
    pub fn create_action_wrapper(&mut self, action: A, type_label: &str) -> (r: ActionWrapper<A, P, E>)
        ensures
            r.action == Some(action),
            r.progress is None,
            r.errors@.len() == 0,
            r.ctx.spec_id() == old(self).id_counter,
            r.ctx.spec_type_name() == type_label@,
            r.ctx.spec_save_dir() == joined_path(
                old(self).save_dir@,
                dir_name(old(self).id_counter, type_label@),
            ),
            is_plain_label(type_label@) ==> path_file_name(r.ctx.spec_save_dir()) == Some(
                dir_name(old(self).id_counter, type_label@),
            ),
            final(self).id_counter == (if old(self).id_counter == u32::MAX {
                0
            } else {
                old(self).id_counter + 1
            }),
            final(self).actions@ == old(self).actions@,
            final(self).paused == old(self).paused,
            final(self).stopped == old(self).stopped,
            final(self).emergency == old(self).emergency,
            final(self).running_id == old(self).running_id,
            final(self).running_killer == old(self).running_killer,
            final(self).save_dir@ == old(self).save_dir@,
            old(self).ids_unique() && old(self).id_counter < u32::MAX ==> final(self).ids_unique(),
    {
        let res = ActionWrapper::new(action, self.id_counter, self.save_dir.as_str(), type_label);
        self.id_counter = self.id_counter.wrapping_add(1);
        res
    }

    /// Appends `action` to the queue and returns its id.
    pub fn add_action(&mut self, action: A, type_label: &str) -> (r: ActionId)
        ensures
            r == old(self).id_counter,
            final(self).actions@.len() == old(self).actions@.len() + 1,
            final(self).actions@.drop_last() == old(self).actions@,
            final(self).actions@.last().action == Some(action),
            final(self).actions@.last().progress is None,
            final(self).actions@.last().errors@.len() == 0,
            final(self).actions@.last().ctx.spec_id() == r,
            final(self).actions@.last().ctx.spec_type_name() == type_label@,
            final(self).actions@.last().ctx.spec_save_dir() == joined_path(
                old(self).save_dir@,
                dir_name(r, type_label@),
            ),
            is_plain_label(type_label@) ==> path_file_name(
                final(self).actions@.last().ctx.spec_save_dir(),
            ) == Some(dir_name(r, type_label@)),
            final(self).id_counter == (if old(self).id_counter == u32::MAX {
                0
            } else {
                old(self).id_counter + 1
            }),
            final(self).paused == old(self).paused,
            final(self).stopped == old(self).stopped,
            final(self).emergency == old(self).emergency,
            final(self).running_id == old(self).running_id,
            final(self).running_killer == old(self).running_killer,
            final(self).save_dir@ == old(self).save_dir@,
            old(self).ids_unique() && old(self).id_counter < u32::MAX ==> final(self).ids_unique(),
            forall|held: Option<ActionId>|
                #[trigger] old(self).placeholders_only(held) ==> final(self).placeholders_only(held),
    {
        let action = self.create_action_wrapper(action, type_label);
        let id = action.get_id();
        self.actions.push_back(action);
        assert(self.actions@.drop_last() =~= old(self).actions@);
        proof {
            assert(ids_of(self.actions@) =~= ids_of(old(self).actions@).push(id));
            assert forall|x: ActionId| #[trigger] count_of(ids_of(self.actions@), x) == count_of(
                ids_of(old(self).actions@),
                x,
            ) + if id == x {
                1nat
            } else {
                0nat
            } by {
                lemma_count_push(ids_of(old(self).actions@), id, x);
            }
        }
        id
    }

    /// Removes every action (a running action is then dropped once its step
    /// ends).
    pub fn clear(&mut self)
        ensures
            final(self).actions@.len() == 0,
            final(self).same_except_actions(old(self)),
            final(self).ids_unique(),
            forall|held: Option<ActionId>|
                #[trigger] old(self).placeholders_only(held) ==> final(self).placeholders_only(held),
    {
        self.actions.clear();
        assert(ids_of(self.actions@) =~= Seq::<ActionId>::empty());
    }

    /// Starts no new step until the queue is unpaused.
    pub fn pause(&mut self)
        ensures
            final(self).paused,
            final(self).actions@ == old(self).actions@,
            final(self).stopped == old(self).stopped,
            final(self).emergency == old(self).emergency,
            final(self).running_id == old(self).running_id,
            final(self).running_killer == old(self).running_killer,
            final(self).id_counter == old(self).id_counter,
            final(self).save_dir@ == old(self).save_dir@,
    {
        self.paused = true;
    }

    /// Lets steps run again.
    pub fn unpause(&mut self)
        ensures
            !final(self).paused,
            final(self).actions@ == old(self).actions@,
            final(self).stopped == old(self).stopped,
            final(self).emergency == old(self).emergency,
            final(self).running_id == old(self).running_id,
            final(self).running_killer == old(self).running_killer,
            final(self).id_counter == old(self).id_counter,
            final(self).save_dir@ == old(self).save_dir@,
    {
        self.paused = false;
    }

    /// Asks the runner to stop after the current step.
    pub fn stop(&mut self)
        ensures
            final(self).stopped,
            final(self).actions@ == old(self).actions@,
            final(self).paused == old(self).paused,
            final(self).emergency == old(self).emergency,
            final(self).running_id == old(self).running_id,
            final(self).running_killer == old(self).running_killer,
            final(self).id_counter == old(self).id_counter,
            final(self).save_dir@ == old(self).save_dir@,
    {
        self.stopped = true;
    }

    /// Whether no step is running.
    pub fn is_idle(&self) -> (r: bool)
        ensures
            r == self.running_id.is_none(),
    {
        self.running_id.is_none()
    }

    /// Always pauses the queue. If the step running is the one of action
    /// `running_id`, hands back whoever can interrupt it (at most once), so that
    /// the caller can signal it.
    pub fn kill_running_action(&mut self, running_id: ActionId) -> (r: Option<K>)
        ensures
            final(self).paused,
            old(self).running_id == Some(running_id) ==> r == old(self).running_killer
                && final(self).running_killer is None,
            old(self).running_id != Some(running_id) ==> r is None && final(self).running_killer
                == old(self).running_killer,
            final(self).actions@ == old(self).actions@,
            final(self).stopped == old(self).stopped,
            final(self).emergency == old(self).emergency,
            final(self).running_id == old(self).running_id,
            final(self).id_counter == old(self).id_counter,
            final(self).save_dir@ == old(self).save_dir@,
    {
        self.paused = true;
        if self.running_id == Some(running_id) {
            self.running_killer.take()
        } else {
            None
        }
    }

    /// Always pauses the queue, and hands back whoever can interrupt the running
    /// step, if any.
    pub fn force_kill_any_running_action(&mut self) -> (r: Option<K>)
        ensures
            final(self).paused,
            r == old(self).running_killer,
            final(self).running_killer is None,
            final(self).actions@ == old(self).actions@,
            final(self).stopped == old(self).stopped,
            final(self).emergency == old(self).emergency,
            final(self).running_id == old(self).running_id,
            final(self).id_counter == old(self).id_counter,
            final(self).save_dir@ == old(self).save_dir@,
    {
        self.paused = true;
        self.running_killer.take()
    }

    /// Signals an emergency: the emergency action will run once the current step
    /// ends.
    pub fn signal_emergency(&mut self)
        ensures
            final(self).emergency == EmergencyStatus::WaitingForReset,
            final(self).actions@ == old(self).actions@,
            final(self).paused == old(self).paused,
            final(self).stopped == old(self).stopped,
            final(self).running_id == old(self).running_id,
            final(self).running_killer == old(self).running_killer,
            final(self).id_counter == old(self).id_counter,
            final(self).save_dir@ == old(self).save_dir@,
    {
        self.emergency = EmergencyStatus::WaitingForReset;
    }

    /// The first index of an action with id `id`, or the number of actions.
    pub fn find_position(&self, id: ActionId) -> (r: usize)
        ensures
            r == position_of(self.actions@, id),
            r <= self.actions@.len(),
            r < self.actions@.len() ==> self.actions@[r as int].ctx.spec_id() == id,
            forall|j: int| 0 <= j < r ==> self.actions@[j].ctx.spec_id() != id,
    {
        let n = self.actions.len();
        let mut i: usize = 0;
        while i < n
            invariant
                n == self.actions@.len(),
                i <= n,
                forall|j: int| 0 <= j < i ==> self.actions@[j].ctx.spec_id() != id,
            decreases n - i,
        {
            if self.actions[i].get_id() == id {
                proof {
                    lemma_position_of(self.actions@, id, i as int);
                }
                return i;
            }
            i = i + 1;
        }
        proof {
            lemma_position_of(self.actions@, id, n as int);
        }
        n
    }

    /// What the runner should do next, given the action it executed last.
    pub fn next_step(&self, prev: &Option<ActionWrapper<A, P, E>>) -> (r: NextStep)
        ensures
            r == self.spec_next_step(*prev),
    {
        if self.stopped {
            if prev.is_some() {
                NextStep::ReleasePrev
            } else {
                NextStep::Stop
            }
        } else if self.paused || self.emergency != EmergencyStatus::NoEmergency {
            if prev.is_some() {
                NextStep::ReleasePrev
            } else if self.emergency == EmergencyStatus::WaitingForReset {
                NextStep::StartEmergency
            } else {
                NextStep::Wait
            }
        } else if self.actions.len() > 0 {
            match prev {
                Some(p) => {
                    if self.actions[0].get_id() == p.get_id() && p.action.is_some() {
                        NextStep::ContinuePrev
                    } else {
                        NextStep::ReleasePrev
                    }
                },
                None => NextStep::StartFront,
            }
        } else {
            if prev.is_some() {
                NextStep::ReleasePrev
            } else {
                NextStep::Wait
            }
        }
    }

    /// Starts handling the emergency: wraps the emergency action with the next
    /// id (it is not put in the queue).
    pub fn start_emergency(&mut self, action: A, type_label: &str) -> (r: ActionWrapper<A, P, E>)
        ensures
            final(self).emergency == EmergencyStatus::Resetting,
            r.action == Some(action),
            r.progress is None,
            r.errors@.len() == 0,
            r.ctx.spec_id() == old(self).id_counter,
            r.ctx.spec_type_name() == type_label@,
            final(self).id_counter == (if old(self).id_counter == u32::MAX {
                0
            } else {
                old(self).id_counter + 1
            }),
            final(self).actions@ == old(self).actions@,
            final(self).paused == old(self).paused,
            final(self).stopped == old(self).stopped,
            final(self).running_id == old(self).running_id,
            final(self).running_killer == old(self).running_killer,
            final(self).save_dir@ == old(self).save_dir@,
            old(self).ids_unique() && old(self).id_counter < u32::MAX ==> final(self).ids_unique(),
    {
        self.emergency = EmergencyStatus::Resetting;
        self.create_action_wrapper(action, type_label)
    }

    /// Takes the front action out to run it, leaving a placeholder with the same
    /// context and progress in its place. A placeholder at the front cannot be
    /// run: then nothing changes and `None` is returned.
    pub fn extract_front(&mut self) -> (r: Option<ActionWrapper<A, P, E>>)
        requires
            old(self).actions@.len() > 0,
        ensures
            old(self).actions@[0].action is None ==> r is None && final(self).actions@ == old(
                self,
            ).actions@,
            old(self).actions@[0].action is Some ==> (r matches Some(w) && w.action == old(
                self,
            ).actions@[0].action && w.progress == old(self).actions@[0].progress && w.ctx == old(
                self,
            ).actions@[0].ctx && w.errors@.len() == 0) && final(self).actions@ == old(
                self,
            ).actions@.update(0, placeholder_of(old(self).actions@[0])),
            final(self).same_except_actions(old(self)),
            old(self).ids_unique() ==> final(self).ids_unique(),
            old(self).placeholders_only(None) ==> (r matches Some(w) && final(self).placeholders_only(
                Some(w.ctx.spec_id()),
            )),
    {
        if self.actions[0].action.is_none() {
            return None;
        }
        let mut front = self.actions.remove(0).unwrap();
        let next = front.make_placeholder_and_extract();
        self.actions.insert(0, front);
        assert(self.actions@ =~= old(self).actions@.update(0, placeholder_of(old(self).actions@[0])));
        assert(ids_of(self.actions@) =~= ids_of(old(self).actions@));
        proof {
            if old(self).placeholders_only(None) {
                assert forall|j: int|
                    0 <= j < self.actions@.len() && (#[trigger] self.actions@[j]).action
                        is None implies Some(next.ctx.spec_id()) == Some(
                    self.actions@[j].ctx.spec_id(),
                ) by {
                    if j != 0 {
                        assert(self.actions@[j] == old(self).actions@[j]);
                    }
                }
            }
        }
        Some(next)
    }

    /// Puts back the previously executed action, after it was released. If it
    /// has not finished, it replaces its placeholder; if its placeholder was
    /// deleted in the meantime, it is handed back so that its data on disk can be
    /// deleted. If it has finished, its placeholder is removed and it is handed
    /// back for the same reason.
    pub fn release_prev_action(&mut self, prev: ActionWrapper<A, P, E>) -> (r: Option<
        ActionWrapper<A, P, E>,
    >)
        ensures
            ({
                let i = position_of(old(self).actions@, prev.ctx.spec_id());
                let found = i < old(self).actions@.len();
                if prev.action is Some {
                    if found {
                        r is None && final(self).actions@ == old(self).actions@.update(
                            i,
                            put_back(old(self).actions@[i], prev),
                        )
                    } else {
                        r == Some(prev) && final(self).actions@ == old(self).actions@
                    }
                } else {
                    r == Some(prev) && if found {
                        final(self).actions@ == old(self).actions@.remove(i)
                    } else {
                        final(self).actions@ == old(self).actions@
                    }
                }
            }),
            final(self).same_except_actions(old(self)),
            old(self).ids_unique() ==> final(self).ids_unique(),
            old(self).ids_unique() && old(self).placeholders_only(Some(prev.ctx.spec_id()))
                ==> final(self).placeholders_only(None),
            0 <= position_of(old(self).actions@, prev.ctx.spec_id()) <= old(self).actions@.len(),
    {
        let i = self.find_position(prev.get_id());
        proof {
            if old(self).ids_unique() && old(self).placeholders_only(Some(prev.ctx.spec_id())) {
                // the only action with the id of `prev` is at `i`
                assert forall|j: int|
                    0 <= j < old(self).actions@.len() && (#[trigger] old(self).actions@[j]).action
                        is None implies j == i by {
                    assert(old(self).actions@[j].ctx.spec_id() == prev.ctx.spec_id());
                    if j != i {
                        lemma_same_id_same_index(old(self).actions@, i as int, j);
                    }
                }
            }
        }
        let found = i < self.actions.len();
        if prev.action.is_some() {
            if found {
                let slot = self.actions.remove(i).unwrap();
                let back = ActionWrapper {
                    action: prev.action,
                    progress: prev.progress,
                    ctx: prev.ctx,
                    errors: slot.errors,
                };
                self.actions.insert(i, back);
                assert(self.actions@ =~= old(self).actions@.update(
                    i as int,
                    put_back(old(self).actions@[i as int], prev),
                ));
                assert(ids_of(self.actions@) =~= ids_of(old(self).actions@));
                None
            } else {
                Some(prev)
            }
        } else {
            if found {
                let _ = self.actions.remove(i);
                proof {
                    let before = ids_of(old(self).actions@);
                    assert(ids_of(self.actions@) =~= before.remove(i as int));
                    assert forall|x: ActionId| #[trigger] count_of(ids_of(self.actions@), x) <= count_of(
                        before,
                        x,
                    ) by {
                        lemma_count_remove(before, i as int, x);
                    }
                }
            }
            Some(prev)
        }
    }

    /// A step of action `id` starts; `killer` can interrupt it.
    pub fn begin_step(&mut self, id: ActionId, killer: K)
        ensures
            final(self).running_id == Some(id),
            final(self).running_killer == Some(killer),
            final(self).actions@ == old(self).actions@,
            final(self).paused == old(self).paused,
            final(self).stopped == old(self).stopped,
            final(self).emergency == old(self).emergency,
            final(self).id_counter == old(self).id_counter,
            final(self).save_dir@ == old(self).save_dir@,
    {
        self.running_id = Some(id);
        self.running_killer = Some(killer);
    }

    /// The step of action `id` ended: nothing runs any more; the queue is paused
    /// if asked; a known new progress is shown on the first action with that id.
    pub fn end_step(&mut self, id: ActionId, pause: bool, progress: Option<P>, error: Option<E>)
        ensures
            final(self).running_id is None,
            final(self).running_killer is None,
            final(self).paused == (old(self).paused || pause),
            0 <= position_of(old(self).actions@, id) <= old(self).actions@.len(),
            ({
                let i = position_of(old(self).actions@, id);
                if (progress is Some || error is Some) && i < old(self).actions@.len() {
                    &&& final(self).actions@.len() == old(self).actions@.len()
                    &&& forall|j: int|
                        0 <= j < old(self).actions@.len() && j != i ==> final(self).actions@[j]
                            == old(self).actions@[j]
                    &&& final(self).actions@[i].action == old(self).actions@[i].action
                    &&& final(self).actions@[i].ctx == old(self).actions@[i].ctx
                    &&& final(self).actions@[i].progress == (if progress is Some {
                        progress
                    } else {
                        old(self).actions@[i].progress
                    })
                    &&& final(self).actions@[i].errors@ == (match error {
                        Some(e) => old(self).actions@[i].errors@.push(e),
                        None => old(self).actions@[i].errors@,
                    })
                } else {
                    final(self).actions@ == old(self).actions@
                }
            }),
            final(self).stopped == old(self).stopped,
            final(self).emergency == old(self).emergency,
            final(self).id_counter == old(self).id_counter,
            final(self).save_dir@ == old(self).save_dir@,
            old(self).ids_unique() ==> final(self).ids_unique(),
            forall|held: Option<ActionId>|
                #[trigger] old(self).placeholders_only(held) ==> final(self).placeholders_only(held),
    {
        proof {
            lemma_position_of_bounds(self.actions@, id);
        }
        self.running_id = None;
        self.running_killer = None;
        if pause {
            self.paused = true;
        }
        if progress.is_some() || error.is_some() {
            let i = self.find_position(id);
            if i < self.actions.len() {
                let mut item = self.actions.remove(i).unwrap();
                if progress.is_some() {
                    item.progress = progress;
                }
                match error {
                    Some(e) => item.errors.push(e),
                    None => {},
                }
                self.actions.insert(i, item);
                assert(ids_of(self.actions@) =~= ids_of(old(self).actions@));
            }
        }
    }
}

/// What the runner does next, by the state of the queue. It stops only when the
/// queue was stopped and nothing is left to put back; it starts the emergency
/// action only when an emergency waits and nothing is held; it starts the front
/// action only when the queue runs freely, holds actions, and nothing is held;
/// it steps the previous action again only when that action is still present
/// and its placeholder is at the front of a freely running queue; with nothing
/// held and nothing to do (paused, resetting, or empty) it waits for a change.
pub proof fn lemma_next_step_by_state<A, P: Copy, K, E>(
    q: Queue<A, P, K, E>,
    prev: Option<ActionWrapper<A, P, E>>,
)
    ensures
        q.spec_next_step(prev) == NextStep::Stop <==> q.stopped && prev is None,
        q.spec_next_step(prev) == NextStep::StartEmergency <==> !q.stopped && prev is None
            && q.emergency == EmergencyStatus::WaitingForReset,
        q.spec_next_step(prev) == NextStep::StartFront <==> !q.stopped && !q.paused && q.emergency
            == EmergencyStatus::NoEmergency && prev is None && q.actions@.len() > 0,
        q.spec_next_step(prev) == NextStep::ContinuePrev <==> !q.stopped && !q.paused && q.emergency
            == EmergencyStatus::NoEmergency && q.actions@.len() > 0 && (prev matches Some(p)
            && p.action is Some && q.actions@[0].ctx.spec_id() == p.ctx.spec_id()),
        q.spec_next_step(prev) == NextStep::Wait <==> !q.stopped && prev is None && q.emergency
            != EmergencyStatus::WaitingForReset && (q.paused || q.emergency
            != EmergencyStatus::NoEmergency || q.actions@.len() == 0),
        q.spec_next_step(prev) == NextStep::ReleasePrev <==> prev is Some && !(!q.stopped
            && !q.paused && q.emergency == EmergencyStatus::NoEmergency && q.actions@.len() > 0
            && (prev matches Some(p) && p.action is Some && q.actions@[0].ctx.spec_id()
            == p.ctx.spec_id())),
{
}

/// A queue that is paused, stopped or handling an emergency neither starts an
/// action from the queue nor continues the one that ran last.
pub proof fn lemma_halted_queue_runs_no_action<A, P: Copy, K, E>(
    q: Queue<A, P, K, E>,
    prev: Option<ActionWrapper<A, P, E>>,
)
    requires
        q.paused || q.stopped || q.emergency != EmergencyStatus::NoEmergency,
    ensures
        q.spec_next_step(prev) != NextStep::StartFront,
        q.spec_next_step(prev) != NextStep::ContinuePrev,
{
}

/// Whatever the state of the queue, the action that ran last is either run
/// again or released and put back before the runner does anything else; and
/// the runner only stops or waits once nothing is left to put back.
pub proof fn lemma_prev_released_first<A, P: Copy, K, E>(
    q: Queue<A, P, K, E>,
    prev: Option<ActionWrapper<A, P, E>>,
)
    ensures
        prev is Some ==> (q.spec_next_step(prev) == NextStep::ContinuePrev || q.spec_next_step(prev)
            == NextStep::ReleasePrev),
        prev is None ==> q.spec_next_step(prev) != NextStep::ContinuePrev && q.spec_next_step(prev)
            != NextStep::ReleasePrev,
        q.spec_next_step(prev) == NextStep::ContinuePrev ==> (prev matches Some(p) && p.action is Some
            && q.actions@.len() > 0 && q.actions@[0].ctx.spec_id() == p.ctx.spec_id()),
{
}

/// Each action is acquired, stepped and released in turn. Suppose every
/// placeholder in the queue stands for the action the runner holds. Then the
/// runner starts the front action or the emergency action (and acquires it)
/// only when it holds nothing, and the front action is present, not a
/// placeholder; it steps again only
/// an action it holds and has not released; before anything else it puts back
/// (releasing it if it still holds its action) the action it ran last; and it
/// stops or waits only holding nothing. [`Queue::extract_front`] and
/// [`Queue::release_prev_action`] keep the placeholders standing for the held
/// action, and the other operations leave them as they are.
pub proof fn lemma_acquire_step_release<A, P: Copy, K, E>(
    q: Queue<A, P, K, E>,
    prev: Option<ActionWrapper<A, P, E>>,
)
    requires
        q.placeholders_only(
            match prev {
                Some(p) => Some(p.ctx.spec_id()),
                None => None,
            },
        ),
    ensures
        q.spec_next_step(prev) == NextStep::StartFront ==> prev is None && q.actions@[0].action is Some,
        q.spec_next_step(prev) == NextStep::StartEmergency ==> prev is None,
        q.spec_next_step(prev) == NextStep::ContinuePrev ==> holds_acquired(prev),
        q.spec_next_step(prev) == NextStep::ReleasePrev ==> prev is Some,
        q.spec_next_step(prev) == NextStep::Stop ==> prev is None,
        q.spec_next_step(prev) == NextStep::Wait ==> prev is None,
{
    if q.spec_next_step(prev) == NextStep::StartFront {
        assert(q.actions@[0].action is Some);
    }
}

/// Extracting the front action and putting it back right away, with no change
/// in between, leaves the queue as it was.
pub proof fn lemma_extract_then_release_restores<A, P, E>(
    actions: Seq<ActionWrapper<A, P, E>>,
    extracted: ActionWrapper<A, P, E>,
)
    requires
        actions.len() > 0,
        actions[0].action is Some,
        extracted.action == actions[0].action,
        extracted.progress == actions[0].progress,
        extracted.ctx == actions[0].ctx,
    ensures
        ({
            let with_placeholder = actions.update(0, placeholder_of(actions[0]));
            let i = position_of(with_placeholder, extracted.ctx.spec_id());
            &&& i == 0
            &&& with_placeholder.update(i, put_back(with_placeholder[i], extracted)) == actions
        }),
{
    let with_placeholder = actions.update(0, placeholder_of(actions[0]));
    lemma_position_of(with_placeholder, extracted.ctx.spec_id(), 0);
    assert(with_placeholder.update(0, put_back(with_placeholder[0], extracted)) =~= actions);
}


/// How many times `x` occurs in `s`.
pub open spec fn count_of(s: Seq<ActionId>, x: ActionId) -> nat
    decreases s.len(),
{
    if s.len() == 0 {
        0
    } else {
        count_of(s.drop_last(), x) + if s.last() == x {
            1nat
        } else {
            0nat
        }
    }
}

/// In a queue whose ids occur at most once, two actions with the same id are
/// the same action.
pub proof fn lemma_same_id_same_index<A, P, E>(s: Seq<ActionWrapper<A, P, E>>, i: int, j: int)
    requires
        forall|x: ActionId| #[trigger] count_of(ids_of(s), x) <= 1,
        0 <= i < s.len(),
        0 <= j < s.len(),
        s[i].ctx.spec_id() == s[j].ctx.spec_id(),
    ensures
        i == j,
{
    if i < j {
        lemma_count_two(ids_of(s), i, j);
    } else if j < i {
        lemma_count_two(ids_of(s), j, i);
    }
}

/// Appending `y` adds one occurrence of `y`.
pub proof fn lemma_count_push(s: Seq<ActionId>, y: ActionId, x: ActionId)
    ensures
        count_of(s.push(y), x) == count_of(s, x) + if y == x {
            1nat
        } else {
            0nat
        },
{
    assert(s.push(y).drop_last() =~= s);
}

/// Removing the element at `i` removes one occurrence of it.
pub proof fn lemma_count_remove(s: Seq<ActionId>, i: int, x: ActionId)
    requires
        0 <= i < s.len(),
    ensures
        count_of(s, x) == count_of(s.remove(i), x) + if s[i] == x {
            1nat
        } else {
            0nat
        },
    decreases s.len(),
{
    if i == s.len() - 1 {
        assert(s.remove(i) =~= s.drop_last());
    } else {
        lemma_count_remove(s.drop_last(), i, x);
        assert(s.remove(i).drop_last() =~= s.drop_last().remove(i));
        assert(s.remove(i).last() == s.last());
    }
}

/// Whether two lists hold the same ids, each as many times.
pub open spec fn same_ids(a: Seq<ActionId>, b: Seq<ActionId>) -> bool {
    forall|x: ActionId| count_of(a, x) == count_of(b, x)
}

/// Index of the last `x` in `s`, or -1.
pub open spec fn last_index(s: Seq<ActionId>, x: ActionId) -> int
    decreases s.len(),
{
    if s.len() == 0 {
        -1
    } else if s.last() == x {
        s.len() - 1
    } else {
        last_index(s.drop_last(), x)
    }
}

/// Where an action with id `x` goes when the queue is reordered to `new`: the
/// last position of `x` in `new`, or after all of them when `x` is not there.
pub open spec fn sort_key(new: Seq<ActionId>, x: ActionId) -> int {
    let i = last_index(new, x);
    if i < 0 {
        new.len() as int
    } else {
        i
    }
}

pub open spec fn key_is<A, P, E>(new: Seq<ActionId>, k: int) -> spec_fn(ActionWrapper<A, P, E>) -> bool {
    |a: ActionWrapper<A, P, E>| sort_key(new, a.ctx.spec_id()) == k
}

pub open spec fn key_is_not<A, P, E>(new: Seq<ActionId>, k: int) -> spec_fn(ActionWrapper<A, P, E>) -> bool {
    |a: ActionWrapper<A, P, E>| sort_key(new, a.ctx.spec_id()) != k
}

pub open spec fn key_at_least<A, P, E>(new: Seq<ActionId>, k: int) -> spec_fn(ActionWrapper<A, P, E>) -> bool {
    |a: ActionWrapper<A, P, E>| sort_key(new, a.ctx.spec_id()) >= k
}

/// The actions whose key is below `k`, grouped by key, each group in queue
/// order.
pub open spec fn buckets<A, P, E>(s: Seq<ActionWrapper<A, P, E>>, new: Seq<ActionId>, k: nat) -> Seq<
    ActionWrapper<A, P, E>,
>
    decreases k,
{
    if k == 0 {
        Seq::empty()
    } else {
        buckets(s, new, (k - 1) as nat) + s.filter(key_is(new, k - 1))
    }
}

/// The queue `s` sorted, stably, by the position of each id in `new`; ids that
/// are not in `new` go last.
pub open spec fn reordered<A, P, E>(s: Seq<ActionWrapper<A, P, E>>, new: Seq<ActionId>) -> Seq<
    ActionWrapper<A, P, E>,
> {
    buckets(s, new, new.len() + 1)
}

pub proof fn lemma_last_index_bounds(s: Seq<ActionId>, x: ActionId)
    ensures
        -1 <= last_index(s, x) < s.len(),
        last_index(s, x) >= 0 ==> s[last_index(s, x)] == x,
        last_index(s, x) < 0 ==> !s.contains(x),
    decreases s.len(),
{
    if s.len() > 0 {
        lemma_last_index_bounds(s.drop_last(), x);
        if s.last() != x && last_index(s, x) < 0 {
            assert forall|j: int| 0 <= j < s.len() implies s[j] != x by {
                if j < s.len() - 1 {
                    assert(s[j] == s.drop_last()[j]);
                }
            }
        }
    }
}

pub proof fn lemma_filter_step<T>(s: Seq<T>, p: spec_fn(T) -> bool, t: int)
    requires
        0 <= t < s.len(),
    ensures
        s.take(t + 1).filter(p) == (if p(s[t]) {
            s.take(t).filter(p).push(s[t])
        } else {
            s.take(t).filter(p)
        }),
{
    reveal(Seq::filter);
    assert(s.take(t + 1).drop_last() =~= s.take(t));
}

pub proof fn lemma_filter_filter<T>(
    s: Seq<T>,
    p: spec_fn(T) -> bool,
    q: spec_fn(T) -> bool,
    r: spec_fn(T) -> bool,
)
    requires
        forall|a: T| #[trigger] r(a) == (p(a) && q(a)),
    ensures
        s.filter(p).filter(q) == s.filter(r),
    decreases s.len(),
{
    reveal(Seq::filter);
    if s.len() > 0 {
        lemma_filter_filter(s.drop_last(), p, q, r);
        let x = s.last();
        let fp = s.drop_last().filter(p);
        if p(x) {
            assert(fp.push(x).drop_last() =~= fp);
        }
    }
}

pub proof fn lemma_filter_all<T>(s: Seq<T>, p: spec_fn(T) -> bool)
    requires
        forall|a: T| #[trigger] p(a),
    ensures
        s.filter(p) == s,
    decreases s.len(),
{
    reveal(Seq::filter);
    if s.len() > 0 {
        lemma_filter_all(s.drop_last(), p);
        assert(s.drop_last().push(s.last()) =~= s);
    }
}

pub proof fn lemma_sort_key_bounds(new: Seq<ActionId>, x: ActionId)
    ensures
        0 <= sort_key(new, x) <= new.len(),
{
    lemma_last_index_bounds(new, x);
}

/// The number of times `x` occurs in the first `i` ids.
pub fn count_id(v: &Vec<ActionId>, x: ActionId) -> (r: usize)
    ensures
        r == count_of(v@, x),
{
    let n = v.len();
    let mut i: usize = 0;
    let mut c: usize = 0;
    while i < n
        invariant
            n == v@.len(),
            i <= n,
            c <= i,
            c == count_of(v@.take(i as int), x),
        decreases n - i,
    {
        assert(v@.take(i + 1).drop_last() =~= v@.take(i as int));
        if v[i] == x {
            c = c + 1;
        }
        i = i + 1;
    }
    assert(v@.take(n as int) =~= v@);
    c
}

pub proof fn lemma_count_positive(s: Seq<ActionId>, x: ActionId)
    requires
        count_of(s, x) > 0,
    ensures
        s.contains(x),
    decreases s.len(),
{
    if s.last() != x {
        lemma_count_positive(s.drop_last(), x);
        let j = choose|j: int| 0 <= j < s.drop_last().len() && s.drop_last()[j] == x;
        assert(s[j] == x);
    } else {
        assert(s[s.len() - 1] == x);
    }
}

/// Whether `a` and `b` hold the same ids, each as many times.
pub fn same_multiset(a: &Vec<ActionId>, b: &Vec<ActionId>) -> (r: bool)
    ensures
        r == same_ids(a@, b@),
{
    let na = a.len();
    let mut i: usize = 0;
    while i < na
        invariant
            na == a@.len(),
            i <= na,
            forall|j: int| 0 <= j < i ==> count_of(a@, #[trigger] a@[j]) == count_of(b@, a@[j]),
        decreases na - i,
    {
        if count_id(a, a[i]) != count_id(b, a[i]) {
            return false;
        }
        i = i + 1;
    }
    let nb = b.len();
    let mut i: usize = 0;
    while i < nb
        invariant
            nb == b@.len(),
            i <= nb,
            forall|j: int| 0 <= j < na ==> count_of(a@, #[trigger] a@[j]) == count_of(b@, a@[j]),
            forall|j: int| 0 <= j < i ==> count_of(a@, #[trigger] b@[j]) == count_of(b@, b@[j]),
        decreases nb - i,
    {
        if count_id(a, b[i]) != count_id(b, b[i]) {
            return false;
        }
        i = i + 1;
    }
    assert forall|x: ActionId| count_of(a@, x) == count_of(b@, x) by {
        if count_of(a@, x) > 0 {
            lemma_count_positive(a@, x);
            let j = choose|j: int| 0 <= j < a@.len() && a@[j] == x;
            assert(count_of(a@, a@[j]) == count_of(b@, a@[j]));
        } else if count_of(b@, x) > 0 {
            lemma_count_positive(b@, x);
            let j = choose|j: int| 0 <= j < b@.len() && b@[j] == x;
            assert(count_of(a@, b@[j]) == count_of(b@, b@[j]));
        }
    }
    true
}

/// The key of an action with id `x` when reordering to `new`.
pub fn sort_key_of(new: &Vec<ActionId>, x: ActionId) -> (r: usize)
    ensures
        r == sort_key(new@, x),
{
    let n = new.len();
    let mut i: usize = 0;
    let mut found: Option<usize> = None;
    while i < n
        invariant
            n == new@.len(),
            i <= n,
            found matches Some(f) ==> f < i && last_index(new@.take(i as int), x) == f,
            found is None ==> last_index(new@.take(i as int), x) == -1,
        decreases n - i,
    {
        assert(new@.take(i + 1).drop_last() =~= new@.take(i as int));
        if new[i] == x {
            found = Some(i);
        }
        i = i + 1;
    }
    assert(new@.take(n as int) =~= new@);
    match found {
        Some(f) => f,
        None => n,
    }
}

impl<A, P: Copy, K, E> Queue<A, P, K, E> {
    /// Whether the ids of the actions are exactly `expected`, in order.
    pub fn ids_are(&self, expected: &Vec<ActionId>) -> (r: bool)
        ensures
            r == (ids_of(self.actions@) == expected@),
    {
        let n = self.actions.len();
        if n != expected.len() {
            assert(ids_of(self.actions@).len() != expected@.len());
            return false;
        }
        let mut i: usize = 0;
        while i < n
            invariant
                n == self.actions@.len(),
                n == expected@.len(),
                i <= n,
                forall|j: int| 0 <= j < i ==> self.actions@[j].ctx.spec_id() == expected@[j],
            decreases n - i,
        {
            if self.actions[i].get_id() != expected[i] {
                assert(ids_of(self.actions@)[i as int] != expected@[i as int]);
                return false;
            }
            i = i + 1;
        }
        assert(ids_of(self.actions@) =~= expected@);
        true
    }

    /// Reorders the actions. `expected` must hold the same ids as `new` (each as
    /// many times), and the queue must still hold exactly the ids `expected`, in
    /// that order; then the actions are sorted, stably, by the last position of
    /// their id in `new`.
    pub fn reorder(&mut self, expected: Vec<ActionId>, new: Vec<ActionId>) -> (r: Result<
        (),
        ReorderError,
    >)
        ensures
            !same_ids(expected@, new@) ==> r == Err::<(), ReorderError>(
                ReorderError::MismatchedExpectedNew,
            ) && final(self).actions@ == old(self).actions@,
            same_ids(expected@, new@) && ids_of(old(self).actions@) != expected@ ==> r == Err::<
                (),
                ReorderError,
            >(ReorderError::QueueChanged) && final(self).actions@ == old(self).actions@,
            same_ids(expected@, new@) && ids_of(old(self).actions@) == expected@ ==> r == Ok::<
                (),
                ReorderError,
            >(()) && final(self).actions@ == reordered(old(self).actions@, new@),
            final(self).same_except_actions(old(self)),
            old(self).ids_unique() ==> final(self).ids_unique(),
            forall|held: Option<ActionId>|
                #[trigger] old(self).placeholders_only(held) ==> final(self).placeholders_only(held),
    {
        if !same_multiset(&expected, &new) {
            return Err(ReorderError::MismatchedExpectedNew);
        }
        if !self.ids_are(&expected) {
            return Err(ReorderError::QueueChanged);
        }
        let ghost orig = self.actions@;
        let mut remaining: VecDeque<ActionWrapper<A, P, E>> = VecDeque::new();
        std::mem::swap(&mut remaining, &mut self.actions);
        let mut result: VecDeque<ActionWrapper<A, P, E>> = VecDeque::new();
        let n = new.len();
        proof {
            assert forall|a: ActionWrapper<A, P, E>| #[trigger] key_at_least::<A, P, E>(new@, 0)(a) by {
                lemma_sort_key_bounds(new@, a.ctx.spec_id());
            }
            lemma_filter_all(orig, key_at_least::<A, P, E>(new@, 0));
            assert(result@ =~= buckets(orig, new@, 0));
        }
        let mut k: usize = 0;
        while k < n
            invariant
                n == new@.len(),
                k <= n,
                remaining@ == orig.filter(key_at_least::<A, P, E>(new@, k as int)),
                result@ == buckets(orig, new@, k as nat),
                self.actions@.len() == 0,
                self.same_except_actions(old(self)),
            decreases n - k,
        {
            Self::take_bucket(&mut remaining, &mut result, &new, k);
            proof {
                Self::lemma_bucket_step(orig, new@, k as int);
            }
            k = k + 1;
        }
        Self::take_bucket(&mut remaining, &mut result, &new, n);
        proof {
            Self::lemma_bucket_step(orig, new@, n as int);
        }
        self.actions = result;
        proof {
            if old(self).ids_unique() {
                lemma_reorder_follows_new(orig, new@);
                assert forall|x: ActionId| #[trigger] count_of(ids_of(self.actions@), x) == count_of(
                    ids_of(orig),
                    x,
                ) by {
                    assert(count_of(expected@, x) == count_of(new@, x));
                }
            }
            lemma_reorder_permutes(orig, new@);
            orig.to_multiset_ensures();
            self.actions@.to_multiset_ensures();
            assert forall|held: Option<ActionId>| #[trigger]
                old(self).placeholders_only(held) implies self.placeholders_only(held) by {
                assert forall|j: int|
                    0 <= j < self.actions@.len() && (#[trigger] self.actions@[j]).action
                        is None implies held == Some(self.actions@[j].ctx.spec_id()) by {
                    let a = self.actions@[j];
                    assert(self.actions@.contains(a));
                    assert(self.actions@.to_multiset().count(a) > 0);
                    assert(self.actions@ == reordered(orig, new@));
                    assert(orig.to_multiset().count(a) > 0);
                    assert(orig.contains(a));
                    let k = choose|k: int| 0 <= k < orig.len() && orig[k] == a;
                    assert(old(self).actions@[k] == a);
                }
            }
        }
        Ok(())
    }

    proof fn lemma_bucket_step(orig: Seq<ActionWrapper<A, P, E>>, new: Seq<ActionId>, k: int)
        requires
            0 <= k,
        ensures
            orig.filter(key_at_least::<A, P, E>(new, k)).filter(key_is_not::<A, P, E>(new, k))
                == orig.filter(key_at_least::<A, P, E>(new, k + 1)),
            buckets(orig, new, k as nat) + orig.filter(key_at_least::<A, P, E>(new, k)).filter(
                key_is::<A, P, E>(new, k),
            ) == buckets(orig, new, (k + 1) as nat),
    {
        lemma_filter_filter(
            orig,
            key_at_least::<A, P, E>(new, k),
            key_is_not::<A, P, E>(new, k),
            key_at_least::<A, P, E>(new, k + 1),
        );
        lemma_filter_filter(
            orig,
            key_at_least::<A, P, E>(new, k),
            key_is::<A, P, E>(new, k),
            key_is::<A, P, E>(new, k),
        );
    }

    /// Moves the actions of key `k`, in order, from `remaining` to the end of
    /// `result`.
    fn take_bucket(
        remaining: &mut VecDeque<ActionWrapper<A, P, E>>,
        result: &mut VecDeque<ActionWrapper<A, P, E>>,
        new: &Vec<ActionId>,
        k: usize,
    )
        ensures
            final(remaining)@ == old(remaining)@.filter(key_is_not::<A, P, E>(new@, k as int)),
            final(result)@ == old(result)@ + old(remaining)@.filter(key_is::<A, P, E>(new@, k as int)),
    {
        let ghost rb = old(remaining)@;
        let ghost base = old(result)@;
        let ghost mut t: int = 0;
        let mut j: usize = 0;
        assert(rb.take(0) =~= Seq::<ActionWrapper<A, P, E>>::empty());
        proof {
            reveal(Seq::filter);
        }
        assert(remaining@ =~= rb.take(0).filter(key_is_not::<A, P, E>(new@, k as int)) + rb.skip(0));
        assert(result@ =~= base + rb.take(0).filter(key_is::<A, P, E>(new@, k as int)));
        while j < remaining.len()
            invariant
                0 <= t <= rb.len(),
                remaining@ == rb.take(t).filter(key_is_not::<A, P, E>(new@, k as int)) + rb.skip(t),
                j == rb.take(t).filter(key_is_not::<A, P, E>(new@, k as int)).len(),
                result@ == base + rb.take(t).filter(key_is::<A, P, E>(new@, k as int)),
            decreases remaining@.len() - j,
        {
            let ghost kept = rb.take(t).filter(key_is_not::<A, P, E>(new@, k as int));
            let ghost moved = rb.take(t).filter(key_is::<A, P, E>(new@, k as int));
            assert(remaining@[j as int] == rb[t]);
            let key = sort_key_of(new, remaining[j].get_id());
            proof {
                lemma_filter_step(rb, key_is_not::<A, P, E>(new@, k as int), t);
                lemma_filter_step(rb, key_is::<A, P, E>(new@, k as int), t);
            }
            if key == k {
                let item = remaining.remove(j).unwrap();
                result.push_back(item);
                assert(remaining@ =~= kept + rb.skip(t + 1));
                assert(result@ =~= base + moved.push(rb[t]));
            } else {
                j = j + 1;
                assert(remaining@ =~= kept.push(rb[t]) + rb.skip(t + 1));
            }
            proof {
                t = t + 1;
            }
        }
        assert(t == rb.len());
        assert(rb.take(t) =~= rb);
        assert(rb.skip(t) =~= Seq::<ActionWrapper<A, P, E>>::empty());
        assert(remaining@ =~= rb.filter(key_is_not::<A, P, E>(new@, k as int)));
    }
}


pub open spec fn has_id<A, P, E>(x: ActionId) -> spec_fn(ActionWrapper<A, P, E>) -> bool {
    |a: ActionWrapper<A, P, E>| a.ctx.spec_id() == x
}

pub open spec fn key_below<A, P, E>(new: Seq<ActionId>, k: int) -> spec_fn(ActionWrapper<A, P, E>) -> bool {
    |a: ActionWrapper<A, P, E>| sort_key(new, a.ctx.spec_id()) < k
}

pub proof fn lemma_filter_ext<T>(s: Seq<T>, p: spec_fn(T) -> bool, q: spec_fn(T) -> bool)
    requires
        forall|a: T| #[trigger] p(a) == q(a),
    ensures
        s.filter(p) == s.filter(q),
    decreases s.len(),
{
    reveal(Seq::filter);
    if s.len() > 0 {
        lemma_filter_ext(s.drop_last(), p, q);
    }
}

pub proof fn lemma_count_contains(s: Seq<ActionId>, i: int)
    requires
        0 <= i < s.len(),
    ensures
        count_of(s, s[i]) >= 1,
    decreases s.len(),
{
    if i < s.len() - 1 {
        lemma_count_contains(s.drop_last(), i);
        assert(s.drop_last()[i] == s[i]);
    }
}

pub proof fn lemma_count_two(s: Seq<ActionId>, i: int, j: int)
    requires
        0 <= i < j < s.len(),
        s[i] == s[j],
    ensures
        count_of(s, s[i]) >= 2,
    decreases s.len(),
{
    if j == s.len() - 1 {
        lemma_count_contains(s.drop_last(), i);
        assert(s.drop_last()[i] == s[i]);
    } else {
        lemma_count_two(s.drop_last(), i, j);
        assert(s.drop_last()[i] == s[i]);
        assert(s.drop_last()[j] == s[j]);
    }
}

pub proof fn lemma_ids_drop_last<A, P, E>(s: Seq<ActionWrapper<A, P, E>>)
    requires
        s.len() > 0,
    ensures
        ids_of(s.drop_last()) == ids_of(s).drop_last(),
        ids_of(s).last() == s.last().ctx.spec_id(),
{
    assert(ids_of(s.drop_last()) =~= ids_of(s).drop_last());
}

/// An id occurs in the ids of a queue as many times as there are actions with
/// that id.
pub proof fn lemma_count_filter<A, P, E>(s: Seq<ActionWrapper<A, P, E>>, x: ActionId)
    ensures
        count_of(ids_of(s), x) == s.filter(has_id::<A, P, E>(x)).len(),
    decreases s.len(),
{
    reveal(Seq::filter);
    if s.len() > 0 {
        lemma_count_filter(s.drop_last(), x);
        lemma_ids_drop_last(s);
    }
}

/// Where an action goes when the queue is reordered to `new`: at the last
/// position of its id in `new`, or after all of them when `new` lacks its id.
pub proof fn lemma_sort_key_is_last_position(new: Seq<ActionId>, x: ActionId)
    ensures
        0 <= sort_key(new, x) <= new.len(),
        sort_key(new, x) < new.len() ==> new[sort_key(new, x)] == x,
        forall|j: int| sort_key(new, x) < j < new.len() ==> new[j] != x,
        sort_key(new, x) == new.len() <==> !new.contains(x),
    decreases new.len(),
{
    lemma_last_index_bounds(new, x);
    if new.len() > 0 && new.last() != x {
        lemma_sort_key_is_last_position(new.drop_last(), x);
        lemma_last_index_bounds(new.drop_last(), x);
        assert forall|j: int| sort_key(new, x) < j < new.len() implies new[j] != x by {
            if j < new.len() - 1 {
                assert(new[j] == new.drop_last()[j]);
            }
        }
        if last_index(new, x) >= 0 {
            assert(new.contains(x));
        }
    }
    if last_index(new, x) >= 0 {
        assert(new[last_index(new, x)] == x);
    }
}

/// When no id occurs twice in `new`, an id of `new` has its own index as key,
/// and an id elsewhere has the key `new.len()`.
pub proof fn lemma_sort_key_distinct(new: Seq<ActionId>, x: ActionId)
    requires
        forall|y: ActionId| count_of(new, y) <= 1,
    ensures
        forall|k: int| 0 <= k < new.len() && new[k] == x ==> sort_key(new, x) == k,
        !new.contains(x) ==> sort_key(new, x) == new.len(),
{
    lemma_last_index_bounds(new, x);
    assert forall|k: int| 0 <= k < new.len() && new[k] == x implies sort_key(new, x) == k by {
        let l = last_index(new, x);
        if l < 0 {
            assert(new.contains(x));
        } else if l < k {
            lemma_count_two(new, l, k);
        } else if k < l {
            lemma_count_two(new, k, l);
        }
    }
}

/// When no id occurs twice in the queue, and `new` holds the same ids, the
/// reordered queue has exactly the ids of `new`, in the order of `new`.
pub proof fn lemma_reorder_follows_new<A, P, E>(s: Seq<ActionWrapper<A, P, E>>, new: Seq<ActionId>)
    requires
        forall|x: ActionId| count_of(ids_of(s), x) <= 1,
        same_ids(ids_of(s), new),
    ensures
        ids_of(reordered(s, new)) == new,
{
    assert forall|y: ActionId| count_of(new, y) <= 1 by {
        assert(count_of(new, y) == count_of(ids_of(s), y));
    }
    lemma_buckets_follow_new(s, new, new.len());
    // no action has the key `new.len()`
    let last_key = key_is::<A, P, E>(new, new.len() as int);
    assert forall|i: int| 0 <= i < s.len() implies !last_key(#[trigger] s[i]) by {
        let id = s[i].ctx.spec_id();
        assert(ids_of(s)[i] == id);
        lemma_count_contains(ids_of(s), i);
        assert(count_of(new, id) >= 1);
        lemma_count_positive(new, id);
        let k = choose|k: int| 0 <= k < new.len() && new[k] == id;
        lemma_sort_key_distinct(new, id);
    }
    s.lemma_all_neg_filter_empty(last_key);
    let b = buckets(s, new, new.len());
    assert(reordered(s, new) == b + s.filter(last_key));
    assert(reordered(s, new) =~= b);
    assert(new.take(new.len() as int) =~= new);
}

proof fn lemma_buckets_follow_new<A, P, E>(s: Seq<ActionWrapper<A, P, E>>, new: Seq<ActionId>, k: nat)
    requires
        k <= new.len(),
        forall|x: ActionId| count_of(ids_of(s), x) <= 1,
        forall|y: ActionId| count_of(new, y) <= 1,
        same_ids(ids_of(s), new),
    ensures
        ids_of(buckets(s, new, k)) == new.take(k as int),
    decreases k,
{
    if k == 0 {
        assert(ids_of(buckets(s, new, 0)) =~= new.take(0));
    } else {
        let j = k - 1;
        lemma_buckets_follow_new(s, new, (k - 1) as nat);
        let x = new[j];
        // the actions of key j are those with id new[j]
        assert forall|a: ActionWrapper<A, P, E>| #[trigger] key_is::<A, P, E>(new, j)(a) == has_id::<A, P, E>(x)(a) by {
            let id = a.ctx.spec_id();
            lemma_sort_key_distinct(new, id);
            lemma_last_index_bounds(new, id);
            if new.contains(id) {
                let m = choose|m: int| 0 <= m < new.len() && new[m] == id;
                assert(sort_key(new, id) == m);
            }
        }
        lemma_filter_ext(s, key_is::<A, P, E>(new, j), has_id::<A, P, E>(x));
        let f = s.filter(has_id::<A, P, E>(x));
        lemma_count_filter(s, x);
        lemma_count_contains(new, j);
        assert(count_of(ids_of(s), x) == count_of(new, x));
        assert(f.len() == 1);
        s.lemma_filter_pred(has_id::<A, P, E>(x), 0);
        assert(has_id::<A, P, E>(x)(f[0]));
        let prev = buckets(s, new, (k - 1) as nat);
        assert(buckets(s, new, k) == prev + f);
        assert(ids_of(prev + f) =~= ids_of(prev) + ids_of(f));
        assert(ids_of(f) =~= seq![x]);
        assert(new.take(k as int) =~= new.take(j).push(x));
    }
}

/// Reordering only moves the actions: the reordered queue holds the same
/// actions, each as many times.
pub proof fn lemma_reorder_permutes<A, P, E>(s: Seq<ActionWrapper<A, P, E>>, new: Seq<ActionId>)
    ensures
        reordered(s, new).to_multiset() == s.to_multiset(),
{
    lemma_buckets_multiset(s, new, new.len() + 1);
    assert forall|a: ActionWrapper<A, P, E>| #[trigger] key_below::<A, P, E>(
        new,
        (new.len() + 1) as int,
    )(a) by {
        lemma_sort_key_bounds(new, a.ctx.spec_id());
    }
    lemma_filter_all(s, key_below::<A, P, E>(new, (new.len() + 1) as int));
}

proof fn lemma_buckets_multiset<A, P, E>(s: Seq<ActionWrapper<A, P, E>>, new: Seq<ActionId>, k: nat)
    ensures
        buckets(s, new, k).to_multiset() == s.filter(key_below::<A, P, E>(new, k as int)).to_multiset(),
    decreases k,
{
    broadcast use vstd::multiset::group_multiset_axioms;

    if k == 0 {
        assert forall|a: ActionWrapper<A, P, E>| #[trigger] key_below::<A, P, E>(new, 0)(a) == false by {
            lemma_sort_key_bounds(new, a.ctx.spec_id());
        }
        s.lemma_all_neg_filter_empty(key_below::<A, P, E>(new, 0));
        assert(s.filter(key_below::<A, P, E>(new, 0)) =~= Seq::<ActionWrapper<A, P, E>>::empty());
        assert(buckets(s, new, 0) =~= Seq::<ActionWrapper<A, P, E>>::empty());
    } else {
        lemma_buckets_multiset(s, new, (k - 1) as nat);
        let prev = buckets(s, new, (k - 1) as nat);
        let f = s.filter(key_is::<A, P, E>(new, k - 1));
        vstd::seq_lib::lemma_multiset_commutative(prev, f);
        lemma_filter_split_multiset(
            s,
            key_below::<A, P, E>(new, k - 1),
            key_is::<A, P, E>(new, k - 1),
            key_below::<A, P, E>(new, k as int),
        );
    }
}

proof fn lemma_filter_split_multiset<T>(
    s: Seq<T>,
    p: spec_fn(T) -> bool,
    q: spec_fn(T) -> bool,
    r: spec_fn(T) -> bool,
)
    requires
        forall|a: T| #[trigger] r(a) == (p(a) || q(a)),
        forall|a: T| !(#[trigger] p(a) && q(a)),
    ensures
        s.filter(r).to_multiset() == s.filter(p).to_multiset().add(s.filter(q).to_multiset()),
    decreases s.len(),
{
    broadcast use vstd::multiset::group_multiset_axioms;
    broadcast use vstd::seq_lib::group_to_multiset_ensures;

    reveal(Seq::filter);
    if s.len() == 0 {
        assert(s.filter(r).to_multiset() =~= vstd::multiset::Multiset::<T>::empty());
        assert(s.filter(p).to_multiset() =~= vstd::multiset::Multiset::<T>::empty());
        assert(s.filter(q).to_multiset() =~= vstd::multiset::Multiset::<T>::empty());
    } else {
        lemma_filter_split_multiset(s.drop_last(), p, q, r);
        let x = s.last();
        let fr = s.drop_last().filter(r);
        let fp = s.drop_last().filter(p);
        let fq = s.drop_last().filter(q);
        if p(x) {
            assert(fr.push(x).to_multiset() =~= fr.to_multiset().insert(x));
            assert(fp.push(x).to_multiset() =~= fp.to_multiset().insert(x));
            assert(s.filter(r).to_multiset() =~= s.filter(p).to_multiset().add(
                s.filter(q).to_multiset(),
            ));
        } else if q(x) {
            assert(fr.push(x).to_multiset() =~= fr.to_multiset().insert(x));
            assert(fq.push(x).to_multiset() =~= fq.to_multiset().insert(x));
            assert(s.filter(r).to_multiset() =~= s.filter(p).to_multiset().add(
                s.filter(q).to_multiset(),
            ));
        }
    }
}

} // verus!
