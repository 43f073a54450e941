//! The life cycles of tasks, stakes and deliverables: the states, the steps
//! between them, and the guards on each step.

use vstd::prelude::*;
use crate::codec::Decode;
use crate::codec::Encode;
use crate::error::XaamError;
use crate::pubkey::UnixTimestamp;
use crate::wire::Wire;

verus! {

/// Where a task stands. A task only ever moves forward through this list.
#[derive(Clone, Copy, Debug, PartialEq, Eq, Structural)]
pub enum TaskStatus {
    Created,
    Staked,
    InProgress,
    Submitted,
    Judged,
    Completed,
}

/// What kind of participant an agent is.
#[derive(Clone, Copy, Debug, PartialEq, Eq, Structural)]
pub enum AgentType {
    Worker,
    Judge,
}

/// Where a stake stands.
#[derive(Clone, Copy, Debug, PartialEq, Eq, Structural)]
pub enum StakeStatus {
    Active,
    Returned,
    Forfeited,
}

/// Where a deliverable stands.
#[derive(Clone, Copy, Debug, PartialEq, Eq, Structural)]
pub enum DeliverableStatus {
    Submitted,
    Judged,
    Accepted,
    Rejected,
}

/// What can happen to a task.
#[derive(Clone, Copy, Debug, PartialEq, Eq, Structural)]
pub enum TaskStep {
    /// A worker stakes on the task.
    Stake,
    /// The worker hands in a deliverable.
    Submit,
    /// A judge scores the deliverable.
    Judge,
    /// The creator closes the task.
    Complete,
}

/// What can happen to a stake.
#[derive(Clone, Copy, Debug, PartialEq, Eq, Structural)]
pub enum StakeStep {
    /// A judge approves handing the stake back.
    Return,
    /// The stake is lost in a dispute.
    Forfeit,
}

/// What can happen to a deliverable.
#[derive(Clone, Copy, Debug, PartialEq, Eq, Structural)]
pub enum DeliverableStep {
    /// A judge scores it.
    Judge,
    /// Its score is found good enough.
    Accept,
    /// Its score is found wanting.
    Reject,
}

/// The highest score a judge can give.
pub const MAX_SCORE: u8 = 100;

impl TaskStatus {
    /// The byte that stands for the status on the wire, which is also its
    /// place in the order of progress.
    pub open spec fn tag(self) -> u8 {
        match self {
            TaskStatus::Created => 0,
            TaskStatus::Staked => 1,
            TaskStatus::InProgress => 2,
            TaskStatus::Submitted => 3,
            TaskStatus::Judged => 4,
            TaskStatus::Completed => 5,
        }
    }

    /// The status that a byte below 6 stands for.
    pub open spec fn of_tag(tag: u8) -> TaskStatus {
        if tag == 0 {
            TaskStatus::Created
        } else if tag == 1 {
            TaskStatus::Staked
        } else if tag == 2 {
            TaskStatus::InProgress
        } else if tag == 3 {
            TaskStatus::Submitted
        } else if tag == 4 {
            TaskStatus::Judged
        } else {
            TaskStatus::Completed
        }
    }

    /// The status after a step, or the refusal of a step that the status
    /// does not allow.
    pub open spec fn after(self, step: TaskStep) -> Result<TaskStatus, XaamError> {
        match (self, step) {
            (TaskStatus::Created, TaskStep::Stake) => Ok(TaskStatus::Staked),
            (TaskStatus::Staked, TaskStep::Submit) => Ok(TaskStatus::Submitted),
            (TaskStatus::InProgress, TaskStep::Submit) => Ok(TaskStatus::Submitted),
            (TaskStatus::Submitted, TaskStep::Judge) => Ok(TaskStatus::Judged),
            (TaskStatus::Judged, TaskStep::Complete) => Ok(TaskStatus::Completed),
            _ => Err(XaamError::InvalidTaskState),
        }
    }

    /// How far along the task is: 0 for `Created`, up to 5 for `Completed`.
    pub fn rank(&self) -> (rank: u8)
        ensures
            rank == self.tag(),
    {
        match self {
            TaskStatus::Created => 0,
            TaskStatus::Staked => 1,
            TaskStatus::InProgress => 2,
            TaskStatus::Submitted => 3,
            TaskStatus::Judged => 4,
            TaskStatus::Completed => 5,
        }
    }

    /// Takes a step: the next status, or `InvalidTaskState` where the task
    /// is not in a status from which the step leads on.
    pub fn advance(&self, step: TaskStep) -> (next: Result<TaskStatus, XaamError>)
        ensures
            next == self.after(step),
    {
        match (self, step) {
            (TaskStatus::Created, TaskStep::Stake) => Ok(TaskStatus::Staked),
            (TaskStatus::Staked, TaskStep::Submit) => Ok(TaskStatus::Submitted),
            (TaskStatus::InProgress, TaskStep::Submit) => Ok(TaskStatus::Submitted),
            (TaskStatus::Submitted, TaskStep::Judge) => Ok(TaskStatus::Judged),
            (TaskStatus::Judged, TaskStep::Complete) => Ok(TaskStatus::Completed),
            _ => Err(XaamError::InvalidTaskState),
        }
    }
}

impl AgentType {
    /// The byte that stands for the kind on the wire.
    pub open spec fn tag(self) -> u8 {
        match self {
            AgentType::Worker => 0,
            AgentType::Judge => 1,
        }
    }

    /// The kind that a byte below 2 stands for.
    pub open spec fn of_tag(tag: u8) -> AgentType {
        if tag == 0 {
            AgentType::Worker
        } else {
            AgentType::Judge
        }
    }
}

impl StakeStatus {
    /// The byte that stands for the status on the wire.
    pub open spec fn tag(self) -> u8 {
        match self {
            StakeStatus::Active => 0,
            StakeStatus::Returned => 1,
            StakeStatus::Forfeited => 2,
        }
    }

    /// The status that a byte below 3 stands for.
    pub open spec fn of_tag(tag: u8) -> StakeStatus {
        if tag == 0 {
            StakeStatus::Active
        } else if tag == 1 {
            StakeStatus::Returned
        } else {
            StakeStatus::Forfeited
        }
    }

    /// The status after a step, or the refusal of a step on a stake that is
    /// no longer active.
    pub open spec fn after(self, step: StakeStep) -> Result<StakeStatus, XaamError> {
        match (self, step) {
            (StakeStatus::Active, StakeStep::Return) => Ok(StakeStatus::Returned),
            (StakeStatus::Active, StakeStep::Forfeit) => Ok(StakeStatus::Forfeited),
            _ => Err(XaamError::InvalidStakeState),
        }
    }

    /// Takes a step: the next status, or `InvalidStakeState` where the stake
    /// is no longer active.
    pub fn advance(&self, step: StakeStep) -> (next: Result<StakeStatus, XaamError>)
        ensures
            next == self.after(step),
    {
        match (self, step) {
            (StakeStatus::Active, StakeStep::Return) => Ok(StakeStatus::Returned),
            (StakeStatus::Active, StakeStep::Forfeit) => Ok(StakeStatus::Forfeited),
            _ => Err(XaamError::InvalidStakeState),
        }
    }
}

impl DeliverableStatus {
    /// The byte that stands for the status on the wire.
    pub open spec fn tag(self) -> u8 {
        match self {
            DeliverableStatus::Submitted => 0,
            DeliverableStatus::Judged => 1,
            DeliverableStatus::Accepted => 2,
            DeliverableStatus::Rejected => 3,
        }
    }

    /// The status that a byte below 4 stands for.
    pub open spec fn of_tag(tag: u8) -> DeliverableStatus {
        if tag == 0 {
            DeliverableStatus::Submitted
        } else if tag == 1 {
            DeliverableStatus::Judged
        } else if tag == 2 {
            DeliverableStatus::Accepted
        } else {
            DeliverableStatus::Rejected
        }
    }

    /// The status after a step, or the refusal of a step that the status
    /// does not allow.
    pub open spec fn after(self, step: DeliverableStep) -> Result<DeliverableStatus, XaamError> {
        match (self, step) {
            (DeliverableStatus::Submitted, DeliverableStep::Judge) => Ok(DeliverableStatus::Judged),
            (DeliverableStatus::Judged, DeliverableStep::Accept) => Ok(DeliverableStatus::Accepted),
            (DeliverableStatus::Judged, DeliverableStep::Reject) => Ok(DeliverableStatus::Rejected),
            _ => Err(XaamError::InvalidDeliverable),
        }
    }

    /// Takes a step: the next status, or `InvalidDeliverable` where the
    /// deliverable is not in a status from which the step leads on.
    pub fn advance(&self, step: DeliverableStep) -> (next: Result<DeliverableStatus, XaamError>)
        ensures
            next == self.after(step),
    {
        match (self, step) {
            (DeliverableStatus::Submitted, DeliverableStep::Judge) => Ok(DeliverableStatus::Judged),
            (DeliverableStatus::Judged, DeliverableStep::Accept) => Ok(DeliverableStatus::Accepted),
            (DeliverableStatus::Judged, DeliverableStep::Reject) => Ok(DeliverableStatus::Rejected),
            _ => Err(XaamError::InvalidDeliverable),
        }
    }
}

/// The verdict on a score under an acceptance threshold: accepted from the
/// threshold upwards, rejected below it.
pub open spec fn verdict_of(score: u8, threshold: u8) -> DeliverableStep {
    if score >= threshold {
        DeliverableStep::Accept
    } else {
        DeliverableStep::Reject
    }
}

/// The step that settles a judged deliverable. The threshold is a matter of
/// configuration: the program lays down none.
pub fn verdict(score: u8, threshold: u8) -> (step: DeliverableStep)
    ensures
        step == verdict_of(score, threshold),
{
    if score >= threshold {
        DeliverableStep::Accept
    } else {
        DeliverableStep::Reject
    }
}

/// Refuses a score above [`MAX_SCORE`] with `InvalidDeliverable`.
pub fn check_score(score: u8) -> (r: Result<(), XaamError>)
    ensures
        r == if score <= MAX_SCORE {
            Ok::<(), XaamError>(())
        } else {
            Err::<(), XaamError>(XaamError::InvalidDeliverable)
        },
{
    if score <= MAX_SCORE {
        Ok(())
    } else {
        Err(XaamError::InvalidDeliverable)
    }
}

/// Refuses, with `TaskDeadlineExpired`, a deadline that is not strictly
/// after `now`.
pub fn check_deadline(deadline: UnixTimestamp, now: UnixTimestamp) -> (r: Result<(), XaamError>)
    ensures
        r == if deadline > now {
            Ok::<(), XaamError>(())
        } else {
            Err::<(), XaamError>(XaamError::TaskDeadlineExpired)
        },
{
    if deadline > now {
        Ok(())
    } else {
        Err(XaamError::TaskDeadlineExpired)
    }
}

/// Every step that a task takes moves it strictly forward, so no sequence
/// of steps ever brings a task back to a status it has left.
pub proof fn lemma_task_steps_forward(status: TaskStatus, step: TaskStep)
    ensures
        status.after(step) matches Ok(next) ==> status.tag() < next.tag(),
{
}

/// A completed task takes no further step.
pub proof fn lemma_completed_is_final(step: TaskStep)
    ensures
        TaskStatus::Completed.after(step) is Err,
{
}

/// Only an active stake takes a step, and no step leads back to active.
pub proof fn lemma_stake_released_once(status: StakeStatus, step: StakeStep)
    ensures
        status.after(step) is Ok <==> status == StakeStatus::Active,
        status.after(step) matches Ok(next) ==> next != StakeStatus::Active,
{
}

/// A deliverable is judged once and settled once.
pub proof fn lemma_deliverable_steps_forward(status: DeliverableStatus, step: DeliverableStep)
    ensures
        status.after(step) matches Ok(next) ==> status.tag() < next.tag(),
        status == DeliverableStatus::Accepted || status == DeliverableStatus::Rejected
            ==> status.after(step) is Err,
{
}

impl Wire for TaskStatus {
    open spec fn wire_ok(self) -> bool {
        true
    }

    open spec fn wire_bytes(self) -> Seq<u8> {
        seq![self.tag()]
    }

    open spec fn wire_parse(b: Seq<u8>) -> Option<(TaskStatus, int)> {
        if b.len() >= 1 && b[0] < 6 {
            Some((TaskStatus::of_tag(b[0]), 1))
        } else {
            None
        }
    }

    proof fn lemma_parse_bytes(self, rest: Seq<u8>) {
    }

    proof fn lemma_bytes_parse(b: Seq<u8>) {
        if b.len() >= 1 {
            assert(b.subrange(0, 1) =~= seq![b[0]]);
        }
    }
}

impl Wire for AgentType {
    open spec fn wire_ok(self) -> bool {
        true
    }

    open spec fn wire_bytes(self) -> Seq<u8> {
        seq![self.tag()]
    }

    open spec fn wire_parse(b: Seq<u8>) -> Option<(AgentType, int)> {
        if b.len() >= 1 && b[0] < 2 {
            Some((AgentType::of_tag(b[0]), 1))
        } else {
            None
        }
    }

    proof fn lemma_parse_bytes(self, rest: Seq<u8>) {
    }

    proof fn lemma_bytes_parse(b: Seq<u8>) {
        if b.len() >= 1 {
            assert(b.subrange(0, 1) =~= seq![b[0]]);
        }
    }
}

impl Wire for StakeStatus {
    open spec fn wire_ok(self) -> bool {
        true
    }

    open spec fn wire_bytes(self) -> Seq<u8> {
        seq![self.tag()]
    }

    open spec fn wire_parse(b: Seq<u8>) -> Option<(StakeStatus, int)> {
        if b.len() >= 1 && b[0] < 3 {
            Some((StakeStatus::of_tag(b[0]), 1))
        } else {
            None
        }
    }

    proof fn lemma_parse_bytes(self, rest: Seq<u8>) {
    }

    proof fn lemma_bytes_parse(b: Seq<u8>) {
        if b.len() >= 1 {
            assert(b.subrange(0, 1) =~= seq![b[0]]);
        }
    }
}

impl Wire for DeliverableStatus {
    open spec fn wire_ok(self) -> bool {
        true
    }

    open spec fn wire_bytes(self) -> Seq<u8> {
        seq![self.tag()]
    }

    open spec fn wire_parse(b: Seq<u8>) -> Option<(DeliverableStatus, int)> {
        if b.len() >= 1 && b[0] < 4 {
            Some((DeliverableStatus::of_tag(b[0]), 1))
        } else {
            None
        }
    }

    proof fn lemma_parse_bytes(self, rest: Seq<u8>) {
    }

    proof fn lemma_bytes_parse(b: Seq<u8>) {
        if b.len() >= 1 {
            assert(b.subrange(0, 1) =~= seq![b[0]]);
        }
    }
}

impl Encode for TaskStatus {
    type Model = TaskStatus;

    open spec fn model(&self) -> TaskStatus {
        *self
    }

    fn fits(&self) -> (ok: bool) {
        true
    }

    fn put(&self, out: &mut Vec<u8>) {
        out.push(self.rank());
        assert(out@ =~= old(out)@ + seq![self.tag()]);
    }
}

impl Decode for TaskStatus {
    fn take(data: &[u8], pos: usize) -> (r: Option<(TaskStatus, usize)>) {
        if pos >= data.len() {
            return None;
        }
        let status = match data[pos] {
            0 => TaskStatus::Created,
            1 => TaskStatus::Staked,
            2 => TaskStatus::InProgress,
            3 => TaskStatus::Submitted,
            4 => TaskStatus::Judged,
            5 => TaskStatus::Completed,
            _ => {
                return None;
            },
        };
        Some((status, pos + 1))
    }
}

impl Encode for AgentType {
    type Model = AgentType;

    open spec fn model(&self) -> AgentType {
        *self
    }

    fn fits(&self) -> (ok: bool) {
        true
    }

    fn put(&self, out: &mut Vec<u8>) {
        let tag: u8 = match self {
            AgentType::Worker => 0,
            AgentType::Judge => 1,
        };
        out.push(tag);
        assert(out@ =~= old(out)@ + seq![self.tag()]);
    }
}

impl Decode for AgentType {
    fn take(data: &[u8], pos: usize) -> (r: Option<(AgentType, usize)>) {
        if pos >= data.len() {
            return None;
        }
        let kind = match data[pos] {
            0 => AgentType::Worker,
            1 => AgentType::Judge,
            _ => {
                return None;
            },
        };
        Some((kind, pos + 1))
    }
}

impl Encode for StakeStatus {
    type Model = StakeStatus;

    open spec fn model(&self) -> StakeStatus {
        *self
    }

    fn fits(&self) -> (ok: bool) {
        true
    }

    fn put(&self, out: &mut Vec<u8>) {
        let tag: u8 = match self {
            StakeStatus::Active => 0,
            StakeStatus::Returned => 1,
            StakeStatus::Forfeited => 2,
        };
        out.push(tag);
        assert(out@ =~= old(out)@ + seq![self.tag()]);
    }
}

impl Decode for StakeStatus {
    fn take(data: &[u8], pos: usize) -> (r: Option<(StakeStatus, usize)>) {
        if pos >= data.len() {
            return None;
        }
        let status = match data[pos] {
            0 => StakeStatus::Active,
            1 => StakeStatus::Returned,
            2 => StakeStatus::Forfeited,
            _ => {
                return None;
            },
        };
        Some((status, pos + 1))
    }
}

impl Encode for DeliverableStatus {
    type Model = DeliverableStatus;

    open spec fn model(&self) -> DeliverableStatus {
        *self
    }

    fn fits(&self) -> (ok: bool) {
        true
    }

    fn put(&self, out: &mut Vec<u8>) {
        let tag: u8 = match self {
            DeliverableStatus::Submitted => 0,
            DeliverableStatus::Judged => 1,
            DeliverableStatus::Accepted => 2,
            DeliverableStatus::Rejected => 3,
        };
        out.push(tag);
        assert(out@ =~= old(out)@ + seq![self.tag()]);
    }
}

impl Decode for DeliverableStatus {
    fn take(data: &[u8], pos: usize) -> (r: Option<(DeliverableStatus, usize)>) {
        if pos >= data.len() {
            return None;
        }
        let status = match data[pos] {
            0 => DeliverableStatus::Submitted,
            1 => DeliverableStatus::Judged,
            2 => DeliverableStatus::Accepted,
            3 => DeliverableStatus::Rejected,
            _ => {
                return None;
            },
        };
        Some((status, pos + 1))
    }
}

} // verus!
