//! The records that the program keeps in its storage cells.

use vstd::prelude::*;
use crate::codec::Decode;
use crate::codec::Encode;
use crate::pubkey::Pubkey;
use crate::pubkey::UnixTimestamp;
use crate::wire::Wire;

pub use crate::lifecycle::AgentType;
pub use crate::lifecycle::DeliverableStatus;
pub use crate::lifecycle::StakeStatus;
pub use crate::lifecycle::TaskStatus;
pub use crate::lifecycle::MAX_SCORE;

verus! {

/// How many judges a task can name.
pub const MAX_JUDGES: usize = 5;

/// The judge slots of a task, as they travel: always five of them, each
/// present or absent, the present ones first.
pub struct JudgeSlots {
    pub slots: Seq<Option<Pubkey>>,
}

/// Five optional keys in a row.
pub type FiveKeys = (
    Option<Pubkey>,
    (Option<Pubkey>, (Option<Pubkey>, (Option<Pubkey>, Option<Pubkey>))),
);

/// Whether the slots are five with the filled ones first: no filled slot
/// comes after an empty one.
pub open spec fn slots_packed(slots: Seq<Option<Pubkey>>) -> bool {
    slots.len() == 5 && forall|i: int, j: int|
        0 <= i <= j < 5 && slots[i] is None ==> slots[j] is None
}

/// The slots that hold the given judges, in order, and nothing else.
pub open spec fn slots_of(judges: Seq<Pubkey>) -> Seq<Option<Pubkey>>
    recommends
        judges.len() <= 5,
{
    Seq::new(
        5,
        |i: int|
            if i < judges.len() {
                Some(judges[i])
            } else {
                None
            },
    )
}

/// Whether `key` is in one of the slots.
pub open spec fn slots_hold(slots: Seq<Option<Pubkey>>, key: Pubkey) -> bool {
    exists|i: int| 0 <= i < slots.len() && slots[i] == Some(key)
}

impl JudgeSlots {
    /// The fields of the record, in the order in which they travel.
    pub open spec fn as_wire(self) -> FiveKeys {
        (self.slots[0], (self.slots[1], (self.slots[2], (self.slots[3], self.slots[4]))))
    }

    /// The record whose fields, in the order in which they travel, are `t`.
    pub open spec fn of_wire(t: FiveKeys) -> JudgeSlots {
        let (a, (b, (c, (d, e)))) = t;
        JudgeSlots { slots: seq![a, b, c, d, e] }
    }
}

impl Wire for JudgeSlots {
    open spec fn wire_ok(self) -> bool {
        slots_packed(self.slots)
    }

    open spec fn wire_bytes(self) -> Seq<u8> {
        self.as_wire().wire_bytes()
    }

    open spec fn wire_parse(b: Seq<u8>) -> Option<(JudgeSlots, int)> {
        match FiveKeys::wire_parse(b) {
            None => None,
            Some((t, n)) => if slots_packed(JudgeSlots::of_wire(t).slots) {
                Some((JudgeSlots::of_wire(t), n))
            } else {
                None
            },
        }
    }

    proof fn lemma_parse_bytes(self, rest: Seq<u8>) {
        self.as_wire().lemma_parse_bytes(rest);
        assert(JudgeSlots::of_wire(self.as_wire()).slots =~= self.slots);
    }

    proof fn lemma_bytes_parse(b: Seq<u8>) {
        FiveKeys::lemma_bytes_parse(b);
    }
}

impl Encode for [Option<Pubkey>; 5] {
    type Model = JudgeSlots;

    open spec fn model(&self) -> JudgeSlots {
        JudgeSlots { slots: self@ }
    }

    fn fits(&self) -> (ok: bool) {
        let mut i: usize = 1;
        while i < 5
            invariant
                1 <= i <= 5,
                forall|a: int, b: int| 0 <= a <= b < i && self@[a] is None ==> self@[b] is None,
            decreases 5 - i,
        {
            if self[i - 1].is_none() && self[i].is_some() {
                return false;
            }
            i += 1;
        }
        true
    }

    fn put(&self, out: &mut Vec<u8>) {
        self[0].put(out);
        self[1].put(out);
        self[2].put(out);
        self[3].put(out);
        self[4].put(out);
        assert(out@ =~= old(out)@ + self.model().wire_bytes());
    }
}

impl Decode for [Option<Pubkey>; 5] {
    fn take(data: &[u8], pos: usize) -> (r: Option<([Option<Pubkey>; 5], usize)>) {
        match FiveKeys::take(data, pos) {
            None => None,
            Some((parts, next)) => {
                let (a, (b, (c, (d, e)))) = parts;
                let slots: [Option<Pubkey>; 5] = [a, b, c, d, e];
                assert(slots@ =~= JudgeSlots::of_wire(parts.model()).slots);
                if slots.fits() {
                    Some((slots, next))
                } else {
                    None
                }
            },
        }
    }
}

/// A task: what is asked, by whom, for what reward, until when, and how
/// far it has come.
#[derive(Clone, Debug, PartialEq, Eq)]
pub struct Task {
    /// Is this account initialized
    pub is_initialized: bool,
    /// Task NFT identifier
    pub nft_id: Pubkey,
    /// Task title
    pub title: String,
    /// Task summary
    pub summary: String,
    /// Encrypted payload URL
    pub encrypted_payload_url: String,
    /// Creator ID
    pub creator_id: Pubkey,
    /// Task status
    pub status: TaskStatus,
    /// Task deadline
    pub deadline: UnixTimestamp,
    /// Reward amount
    pub reward_amount: u64,
    /// Reward currency (default: USDC)
    pub reward_currency: String,
    /// Judges (up to 5)
    pub judges: [Option<Pubkey>; 5],
    /// Created at timestamp
    pub created_at: UnixTimestamp,
    /// Updated at timestamp
    pub updated_at: UnixTimestamp,
}

/// A task as a mathematical value.
pub struct TaskView {
    pub is_initialized: bool,
    pub nft_id: Pubkey,
    pub title: Seq<char>,
    pub summary: Seq<char>,
    pub encrypted_payload_url: Seq<char>,
    pub creator_id: Pubkey,
    pub status: TaskStatus,
    pub deadline: UnixTimestamp,
    pub reward_amount: u64,
    pub reward_currency: Seq<char>,
    pub judges: Seq<Option<Pubkey>>,
    pub created_at: UnixTimestamp,
    pub updated_at: UnixTimestamp,
}

/// The fields of a task in the order in which they travel.
pub type TaskWire = (
    bool,
    (
        Pubkey,
        (
            Seq<char>,
            (
                Seq<char>,
                (
                    Seq<char>,
                    (
                        Pubkey,
                        (
                            TaskStatus,
                            (i64, (u64, (Seq<char>, (JudgeSlots, (i64, i64))))),
                        ),
                    ),
                ),
            ),
        ),
    ),
);

/// The fields of a task in the order in which they are read.
pub type TaskParts = (
    bool,
    (
        Pubkey,
        (
            String,
            (
                String,
                (
                    String,
                    (
                        Pubkey,
                        (
                            TaskStatus,
                            (i64, (u64, (String, ([Option<Pubkey>; 5], (i64, i64))))),
                        ),
                    ),
                ),
            ),
        ),
    ),
);

impl View for Task {
    type V = TaskView;

    open spec fn view(&self) -> TaskView {
        TaskView {
            is_initialized: self.is_initialized,
            nft_id: self.nft_id,
            title: self.title@,
            summary: self.summary@,
            encrypted_payload_url: self.encrypted_payload_url@,
            creator_id: self.creator_id,
            status: self.status,
            deadline: self.deadline,
            reward_amount: self.reward_amount,
            reward_currency: self.reward_currency@,
            judges: self.judges@,
            created_at: self.created_at,
            updated_at: self.updated_at,
        }
    }
}

impl TaskView {
    /// The fields of the record, in the order in which they travel.
    pub open spec fn as_wire(self) -> TaskWire {
        (
            self.is_initialized,
            (
                self.nft_id,
                (
                    self.title,
                    (
                        self.summary,
                        (
                            self.encrypted_payload_url,
                            (
                                self.creator_id,
                                (
                                    self.status,
                                    (
                                        self.deadline,
                                        (
                                            self.reward_amount,
                                            (
                                                self.reward_currency,
                                                (
                                                    JudgeSlots { slots: self.judges },
                                                    (self.created_at, self.updated_at),
                                                ),
                                            ),
                                        ),
                                    ),
                                ),
                            ),
                        ),
                    ),
                ),
            ),
        )
    }

    /// The record whose fields, in the order in which they travel, are `t`.
    pub open spec fn of_wire(t: TaskWire) -> TaskView {
        let (
            is_initialized,
            (
                nft_id,
                (
                    title,
                    (
                        summary,
                        (
                            encrypted_payload_url,
                            (
                                creator_id,
                                (
                                    status,
                                    (
                                        deadline,
                                        (
                                            reward_amount,
                                            (reward_currency, (judges, (created_at, updated_at))),
                                        ),
                                    ),
                                ),
                            ),
                        ),
                    ),
                ),
            ),
        ) = t;
        TaskView {
            is_initialized,
            nft_id,
            title,
            summary,
            encrypted_payload_url,
            creator_id,
            status,
            deadline,
            reward_amount,
            reward_currency,
            judges: judges.slots,
            created_at,
            updated_at,
        }
    }
}

impl Wire for TaskView {
    open spec fn wire_ok(self) -> bool {
        self.as_wire().wire_ok()
    }

    open spec fn wire_bytes(self) -> Seq<u8> {
        self.as_wire().wire_bytes()
    }

    open spec fn wire_parse(b: Seq<u8>) -> Option<(TaskView, int)> {
        match TaskWire::wire_parse(b) {
            None => None,
            Some((t, n)) => Some((TaskView::of_wire(t), n)),
        }
    }

    proof fn lemma_parse_bytes(self, rest: Seq<u8>) {
        self.as_wire().lemma_parse_bytes(rest);
    }

    proof fn lemma_bytes_parse(b: Seq<u8>) {
        TaskWire::lemma_bytes_parse(b);
    }
}

impl Encode for Task {
    type Model = TaskView;

    open spec fn model(&self) -> TaskView {
        self@
    }

    fn fits(&self) -> (ok: bool) {
        self.title.fits() && self.summary.fits() && self.encrypted_payload_url.fits()
            && self.reward_currency.fits() && self.judges.fits()
    }

    fn put(&self, out: &mut Vec<u8>) {
        (
            &self.is_initialized,
            (
                &self.nft_id,
                (
                    &self.title,
                    (
                        &self.summary,
                        (
                            &self.encrypted_payload_url,
                            (
                                &self.creator_id,
                                (
                                    &self.status,
                                    (
                                        &self.deadline,
                                        (
                                            &self.reward_amount,
                                            (
                                                &self.reward_currency,
                                                (&self.judges, (&self.created_at, &self.updated_at)),
                                            ),
                                        ),
                                    ),
                                ),
                            ),
                        ),
                    ),
                ),
            ),
        ).put(out);
    }
}

impl Decode for Task {
    fn take(data: &[u8], pos: usize) -> (r: Option<(Task, usize)>) {
        match TaskParts::take(data, pos) {
            None => None,
            Some((parts, next)) => {
                let (
                    is_initialized,
                    (
                        nft_id,
                        (
                            title,
                            (
                                summary,
                                (
                                    encrypted_payload_url,
                                    (
                                        creator_id,
                                        (
                                            status,
                                            (
                                                deadline,
                                                (
                                                    reward_amount,
                                                    (
                                                        reward_currency,
                                                        (judges, (created_at, updated_at)),
                                                    ),
                                                ),
                                            ),
                                        ),
                                    ),
                                ),
                            ),
                        ),
                    ),
                ) = parts;
                Some(
                    (
                        Task {
                            is_initialized,
                            nft_id,
                            title,
                            summary,
                            encrypted_payload_url,
                            creator_id,
                            status,
                            deadline,
                            reward_amount,
                            reward_currency,
                            judges,
                            created_at,
                            updated_at,
                        },
                        next,
                    ),
                )
            },
        }
    }
}

impl Task {
    /// Whether the cell that held this record has been filled in.
    pub fn is_initialized(&self) -> (yes: bool)
        ensures
            yes == self.is_initialized,
    {
        self.is_initialized
    }

    /// Whether `key` is one of the judges that the task names.
    pub fn has_judge(&self, key: &Pubkey) -> (yes: bool)
        ensures
            yes == slots_hold(self@.judges, *key),
    {
        let mut i: usize = 0;
        while i < 5
            invariant
                i <= 5,
                forall|j: int| 0 <= j < i ==> self.judges@[j] != Some(*key),
            decreases 5 - i,
        {
            match self.judges[i] {
                Some(judge) => {
                    if judge == *key {
                        assert(self@.judges[i as int] == Some(*key));
                        return true;
                    }
                },
                None => {},
            }
            i += 1;
        }
        false
    }
}


/// An agent: a participant that works on tasks or judges them.
#[derive(Clone, Debug, PartialEq, Eq)]
pub struct Agent {
    /// Is this account initialized
    pub is_initialized: bool,
    /// Agent name
    pub name: String,
    /// Agent description
    pub description: String,
    /// Agent type
    pub agent_type: AgentType,
    /// Wallet address
    pub wallet_address: Pubkey,
    /// Public key for encryption
    pub public_key: String,
    /// Reputation score
    pub reputation_score: u64,
    /// Completed tasks count
    pub completed_tasks: u32,
    /// Successful tasks count
    pub successful_tasks: u32,
    /// Created at timestamp
    pub created_at: UnixTimestamp,
    /// Updated at timestamp
    pub updated_at: UnixTimestamp,
}

/// An agent as a mathematical value.
pub struct AgentView {
    pub is_initialized: bool,
    pub name: Seq<char>,
    pub description: Seq<char>,
    pub agent_type: AgentType,
    pub wallet_address: Pubkey,
    pub public_key: Seq<char>,
    pub reputation_score: u64,
    pub completed_tasks: u32,
    pub successful_tasks: u32,
    pub created_at: UnixTimestamp,
    pub updated_at: UnixTimestamp,
}

/// The fields of an agent in the order in which they travel.
pub type AgentWire = (
    bool,
    (
        Seq<char>,
        (Seq<char>, (AgentType, (Pubkey, (Seq<char>, (u64, (u32, (u32, (i64, i64)))))))),
    ),
);

/// The fields of an agent in the order in which they are read.
pub type AgentParts = (
    bool,
    (String, (String, (AgentType, (Pubkey, (String, (u64, (u32, (u32, (i64, i64))))))))),
);

impl View for Agent {
    type V = AgentView;

    open spec fn view(&self) -> AgentView {
        AgentView {
            is_initialized: self.is_initialized,
            name: self.name@,
            description: self.description@,
            agent_type: self.agent_type,
            wallet_address: self.wallet_address,
            public_key: self.public_key@,
            reputation_score: self.reputation_score,
            completed_tasks: self.completed_tasks,
            successful_tasks: self.successful_tasks,
            created_at: self.created_at,
            updated_at: self.updated_at,
        }
    }
}

impl AgentView {
    /// The fields of the record, in the order in which they travel.
    pub open spec fn as_wire(self) -> AgentWire {
        (
            self.is_initialized,
            (
                self.name,
                (
                    self.description,
                    (
                        self.agent_type,
                        (
                            self.wallet_address,
                            (
                                self.public_key,
                                (
                                    self.reputation_score,
                                    (
                                        self.completed_tasks,
                                        (self.successful_tasks, (self.created_at, self.updated_at)),
                                    ),
                                ),
                            ),
                        ),
                    ),
                ),
            ),
        )
    }

    /// The record whose fields, in the order in which they travel, are `t`.
    pub open spec fn of_wire(t: AgentWire) -> AgentView {
        let (
            is_initialized,
            (
                name,
                (
                    description,
                    (
                        agent_type,
                        (
                            wallet_address,
                            (
                                public_key,
                                (
                                    reputation_score,
                                    (completed_tasks, (successful_tasks, (created_at, updated_at))),
                                ),
                            ),
                        ),
                    ),
                ),
            ),
        ) = t;
        AgentView {
            is_initialized,
            name,
            description,
            agent_type,
            wallet_address,
            public_key,
            reputation_score,
            completed_tasks,
            successful_tasks,
            created_at,
            updated_at,
        }
    }
}

impl Wire for AgentView {
    open spec fn wire_ok(self) -> bool {
        self.as_wire().wire_ok()
    }

    open spec fn wire_bytes(self) -> Seq<u8> {
        self.as_wire().wire_bytes()
    }

    open spec fn wire_parse(b: Seq<u8>) -> Option<(AgentView, int)> {
        match AgentWire::wire_parse(b) {
            None => None,
            Some((t, n)) => Some((AgentView::of_wire(t), n)),
        }
    }

    proof fn lemma_parse_bytes(self, rest: Seq<u8>) {
        self.as_wire().lemma_parse_bytes(rest);
    }

    proof fn lemma_bytes_parse(b: Seq<u8>) {
        AgentWire::lemma_bytes_parse(b);
    }
}

impl Encode for Agent {
    type Model = AgentView;

    open spec fn model(&self) -> AgentView {
        self@
    }

    fn fits(&self) -> (ok: bool) {
        self.name.fits() && self.description.fits() && self.public_key.fits()
    }

    fn put(&self, out: &mut Vec<u8>) {
        (
            &self.is_initialized,
            (
                &self.name,
                (
                    &self.description,
                    (
                        &self.agent_type,
                        (
                            &self.wallet_address,
                            (
                                &self.public_key,
                                (
                                    &self.reputation_score,
                                    (
                                        &self.completed_tasks,
                                        (
                                            &self.successful_tasks,
                                            (&self.created_at, &self.updated_at),
                                        ),
                                    ),
                                ),
                            ),
                        ),
                    ),
                ),
            ),
        ).put(out);
    }
}

impl Decode for Agent {
    fn take(data: &[u8], pos: usize) -> (r: Option<(Agent, usize)>) {
        match AgentParts::take(data, pos) {
            None => None,
            Some((parts, next)) => {
                let (
                    is_initialized,
                    (
                        name,
                        (
                            description,
                            (
                                agent_type,
                                (
                                    wallet_address,
                                    (
                                        public_key,
                                        (
                                            reputation_score,
                                            (
                                                completed_tasks,
                                                (successful_tasks, (created_at, updated_at)),
                                            ),
                                        ),
                                    ),
                                ),
                            ),
                        ),
                    ),
                ) = parts;
                Some(
                    (
                        Agent {
                            is_initialized,
                            name,
                            description,
                            agent_type,
                            wallet_address,
                            public_key,
                            reputation_score,
                            completed_tasks,
                            successful_tasks,
                            created_at,
                            updated_at,
                        },
                        next,
                    ),
                )
            },
        }
    }
}

impl Agent {
    /// Whether the cell that held this record has been filled in.
    pub fn is_initialized(&self) -> (yes: bool)
        ensures
            yes == self.is_initialized,
    {
        self.is_initialized
    }
}

/// A judge: an agent record of its own, with what it judges and how often
/// it has done so.
#[derive(Clone, Debug, PartialEq, Eq)]
pub struct Judge {
    /// Base agent data
    pub agent: Agent,
    /// Specialization
    pub specialization: String,
    /// Judged tasks count
    pub judged_tasks: u32,
}

/// A judge as a mathematical value.
pub struct JudgeView {
    pub agent: AgentView,
    pub specialization: Seq<char>,
    pub judged_tasks: u32,
}

/// The fields of a judge in the order in which they travel.
pub type JudgeWire = (AgentView, (Seq<char>, u32));

/// The fields of a judge in the order in which they are read.
pub type JudgeParts = (Agent, (String, u32));

impl View for Judge {
    type V = JudgeView;

    open spec fn view(&self) -> JudgeView {
        JudgeView {
            agent: self.agent@,
            specialization: self.specialization@,
            judged_tasks: self.judged_tasks,
        }
    }
}

impl JudgeView {
    /// The fields of the record, in the order in which they travel.
    pub open spec fn as_wire(self) -> JudgeWire {
        (self.agent, (self.specialization, self.judged_tasks))
    }

    /// The record whose fields, in the order in which they travel, are `t`.
    pub open spec fn of_wire(t: JudgeWire) -> JudgeView {
        let (agent, (specialization, judged_tasks)) = t;
        JudgeView { agent, specialization, judged_tasks }
    }
}

impl Wire for JudgeView {
    open spec fn wire_ok(self) -> bool {
        self.as_wire().wire_ok()
    }

    open spec fn wire_bytes(self) -> Seq<u8> {
        self.as_wire().wire_bytes()
    }

    open spec fn wire_parse(b: Seq<u8>) -> Option<(JudgeView, int)> {
        match JudgeWire::wire_parse(b) {
            None => None,
            Some((t, n)) => Some((JudgeView::of_wire(t), n)),
        }
    }

    proof fn lemma_parse_bytes(self, rest: Seq<u8>) {
        self.as_wire().lemma_parse_bytes(rest);
    }

    proof fn lemma_bytes_parse(b: Seq<u8>) {
        JudgeWire::lemma_bytes_parse(b);
    }
}

impl Encode for Judge {
    type Model = JudgeView;

    open spec fn model(&self) -> JudgeView {
        self@
    }

    fn fits(&self) -> (ok: bool) {
        self.agent.fits() && self.specialization.fits()
    }

    fn put(&self, out: &mut Vec<u8>) {
        (&self.agent, (&self.specialization, &self.judged_tasks)).put(out);
    }
}

impl Decode for Judge {
    fn take(data: &[u8], pos: usize) -> (r: Option<(Judge, usize)>) {
        match JudgeParts::take(data, pos) {
            None => None,
            Some((parts, next)) => {
                let (agent, (specialization, judged_tasks)) = parts;
                Some((Judge { agent, specialization, judged_tasks }, next))
            },
        }
    }
}

impl Judge {
    /// Whether the cell that held this record has been filled in: a judge
    /// is as initialized as the agent record inside it.
    pub fn is_initialized(&self) -> (yes: bool)
        ensures
            yes == self.agent.is_initialized,
    {
        self.agent.is_initialized
    }
}

/// A stake: collateral that an agent has put down on a task.
#[derive(Clone, Copy, Debug, PartialEq, Eq)]
pub struct Stake {
    /// Is this account initialized
    pub is_initialized: bool,
    /// Task ID
    pub task_id: Pubkey,
    /// Agent ID
    pub agent_id: Pubkey,
    /// Stake amount
    pub amount: u64,
    /// Stake status
    pub status: StakeStatus,
    /// Staked at timestamp
    pub staked_at: UnixTimestamp,
    /// Released at timestamp
    pub released_at: Option<UnixTimestamp>,
}

/// The fields of a stake in the order in which they travel.
pub type StakeWire = (bool, (Pubkey, (Pubkey, (u64, (StakeStatus, (i64, Option<i64>))))));

impl Stake {
    /// A stake has a release time exactly when it is no longer active.
    pub open spec fn release_recorded(self) -> bool {
        self.released_at is Some <==> self.status != StakeStatus::Active
    }

    /// The fields of the record, in the order in which they travel.
    pub open spec fn as_wire(self) -> StakeWire {
        (
            self.is_initialized,
            (
                self.task_id,
                (self.agent_id, (self.amount, (self.status, (self.staked_at, self.released_at)))),
            ),
        )
    }

    /// The record whose fields, in the order in which they travel, are `t`.
    pub open spec fn of_wire(t: StakeWire) -> Stake {
        let (is_initialized, (task_id, (agent_id, (amount, (status, (staked_at, released_at)))))) =
            t;
        Stake { is_initialized, task_id, agent_id, amount, status, staked_at, released_at }
    }

    /// Whether the cell that held this record has been filled in.
    pub fn is_initialized(&self) -> (yes: bool)
        ensures
            yes == self.is_initialized,
    {
        self.is_initialized
    }
}

impl Wire for Stake {
    open spec fn wire_ok(self) -> bool {
        self.release_recorded()
    }

    open spec fn wire_bytes(self) -> Seq<u8> {
        self.as_wire().wire_bytes()
    }

    open spec fn wire_parse(b: Seq<u8>) -> Option<(Stake, int)> {
        match StakeWire::wire_parse(b) {
            None => None,
            Some((t, n)) => if Stake::of_wire(t).release_recorded() {
                Some((Stake::of_wire(t), n))
            } else {
                None
            },
        }
    }

    proof fn lemma_parse_bytes(self, rest: Seq<u8>) {
        self.as_wire().lemma_parse_bytes(rest);
    }

    proof fn lemma_bytes_parse(b: Seq<u8>) {
        StakeWire::lemma_bytes_parse(b);
    }
}

impl Encode for Stake {
    type Model = Stake;

    open spec fn model(&self) -> Stake {
        *self
    }

    fn fits(&self) -> (ok: bool) {
        self.released_at.is_some() == (self.status != StakeStatus::Active)
    }

    fn put(&self, out: &mut Vec<u8>) {
        (
            &self.is_initialized,
            (
                &self.task_id,
                (
                    &self.agent_id,
                    (&self.amount, (&self.status, (&self.staked_at, &self.released_at))),
                ),
            ),
        ).put(out);
    }
}

impl Decode for Stake {
    fn take(data: &[u8], pos: usize) -> (r: Option<(Stake, usize)>) {
        match StakeWire::take(data, pos) {
            None => None,
            Some((parts, next)) => {
                let (
                    is_initialized,
                    (task_id, (agent_id, (amount, (status, (staked_at, released_at))))),
                ) = parts;
                let stake = Stake {
                    is_initialized,
                    task_id,
                    agent_id,
                    amount,
                    status,
                    staked_at,
                    released_at,
                };
                if stake.fits() {
                    Some((stake, next))
                } else {
                    None
                }
            },
        }
    }
}

/// A wallet: what an owner holds.
#[derive(Clone, Copy, Debug, PartialEq, Eq)]
pub struct Wallet {
    /// Is this account initialized
    pub is_initialized: bool,
    /// Owner
    pub owner: Pubkey,
    /// SOL balance
    pub sol_balance: u64,
    /// USDC balance
    pub usdc_balance: u64,
    /// NFT count
    pub nft_count: u32,
}

/// The fields of a wallet in the order in which they travel.
pub type WalletWire = (bool, (Pubkey, (u64, (u64, u32))));

impl Wallet {
    /// The fields of the record, in the order in which they travel.
    pub open spec fn as_wire(self) -> WalletWire {
        (self.is_initialized, (self.owner, (self.sol_balance, (self.usdc_balance, self.nft_count))))
    }

    /// The record whose fields, in the order in which they travel, are `t`.
    pub open spec fn of_wire(t: WalletWire) -> Wallet {
        let (is_initialized, (owner, (sol_balance, (usdc_balance, nft_count)))) = t;
        Wallet { is_initialized, owner, sol_balance, usdc_balance, nft_count }
    }

    /// Whether the cell that held this record has been filled in.
    pub fn is_initialized(&self) -> (yes: bool)
        ensures
            yes == self.is_initialized,
    {
        self.is_initialized
    }
}

impl Wire for Wallet {
    open spec fn wire_ok(self) -> bool {
        true
    }

    open spec fn wire_bytes(self) -> Seq<u8> {
        self.as_wire().wire_bytes()
    }

    open spec fn wire_parse(b: Seq<u8>) -> Option<(Wallet, int)> {
        match WalletWire::wire_parse(b) {
            None => None,
            Some((t, n)) => Some((Wallet::of_wire(t), n)),
        }
    }

    proof fn lemma_parse_bytes(self, rest: Seq<u8>) {
        self.as_wire().lemma_parse_bytes(rest);
    }

    proof fn lemma_bytes_parse(b: Seq<u8>) {
        WalletWire::lemma_bytes_parse(b);
    }
}

impl Encode for Wallet {
    type Model = Wallet;

    open spec fn model(&self) -> Wallet {
        *self
    }

    fn fits(&self) -> (ok: bool) {
        true
    }

    fn put(&self, out: &mut Vec<u8>) {
        (
            &self.is_initialized,
            (&self.owner, (&self.sol_balance, (&self.usdc_balance, &self.nft_count))),
        ).put(out);
    }
}

impl Decode for Wallet {
    fn take(data: &[u8], pos: usize) -> (r: Option<(Wallet, usize)>) {
        match WalletWire::take(data, pos) {
            None => None,
            Some((parts, next)) => {
                let (is_initialized, (owner, (sol_balance, (usdc_balance, nft_count)))) = parts;
                Some((Wallet { is_initialized, owner, sol_balance, usdc_balance, nft_count }, next))
            },
        }
    }
}

/// A deliverable: what a worker handed in, and what a judge made of it.
#[derive(Clone, Debug, PartialEq, Eq)]
pub struct Deliverable {
    /// Is this account initialized
    pub is_initialized: bool,
    /// Encrypted content URL
    pub encrypted_content_url: String,
    /// Encryption keys for judges
    pub encryption_keys: Vec<(Pubkey, String)>,
    /// Deliverable status
    pub status: DeliverableStatus,
    /// Score (0-100)
    pub score: u8,
    /// Feedback
    pub feedback: String,
}

/// A deliverable as a mathematical value.
pub struct DeliverableView {
    pub is_initialized: bool,
    pub encrypted_content_url: Seq<char>,
    pub encryption_keys: Seq<(Pubkey, Seq<char>)>,
    pub status: DeliverableStatus,
    pub score: u8,
    pub feedback: Seq<char>,
}

/// The fields of a deliverable in the order in which they travel.
pub type DeliverableWire = (
    bool,
    (Seq<char>, (Seq<(Pubkey, Seq<char>)>, (DeliverableStatus, (u8, Seq<char>)))),
);

/// The fields of a deliverable in the order in which they are read.
pub type DeliverableParts = (
    bool,
    (String, (Vec<(Pubkey, String)>, (DeliverableStatus, (u8, String)))),
);

impl View for Deliverable {
    type V = DeliverableView;

    open spec fn view(&self) -> DeliverableView {
        DeliverableView {
            is_initialized: self.is_initialized,
            encrypted_content_url: self.encrypted_content_url@,
            encryption_keys: self.encryption_keys.model(),
            status: self.status,
            score: self.score,
            feedback: self.feedback@,
        }
    }
}

impl DeliverableView {
    /// The fields of the record, in the order in which they travel.
    pub open spec fn as_wire(self) -> DeliverableWire {
        (
            self.is_initialized,
            (
                self.encrypted_content_url,
                (self.encryption_keys, (self.status, (self.score, self.feedback))),
            ),
        )
    }

    /// The record whose fields, in the order in which they travel, are `t`.
    pub open spec fn of_wire(t: DeliverableWire) -> DeliverableView {
        let (is_initialized, (encrypted_content_url, (encryption_keys, (status, (score, feedback))))) =
            t;
        DeliverableView {
            is_initialized,
            encrypted_content_url,
            encryption_keys,
            status,
            score,
            feedback,
        }
    }
}

impl Wire for DeliverableView {
    open spec fn wire_ok(self) -> bool {
        self.as_wire().wire_ok() && self.score <= MAX_SCORE
    }

    open spec fn wire_bytes(self) -> Seq<u8> {
        self.as_wire().wire_bytes()
    }

    open spec fn wire_parse(b: Seq<u8>) -> Option<(DeliverableView, int)> {
        match DeliverableWire::wire_parse(b) {
            None => None,
            Some((t, n)) => if DeliverableView::of_wire(t).score <= MAX_SCORE {
                Some((DeliverableView::of_wire(t), n))
            } else {
                None
            },
        }
    }

    proof fn lemma_parse_bytes(self, rest: Seq<u8>) {
        self.as_wire().lemma_parse_bytes(rest);
    }

    proof fn lemma_bytes_parse(b: Seq<u8>) {
        DeliverableWire::lemma_bytes_parse(b);
    }
}

impl Encode for Deliverable {
    type Model = DeliverableView;

    open spec fn model(&self) -> DeliverableView {
        self@
    }

    fn fits(&self) -> (ok: bool) {
        self.encrypted_content_url.fits() && self.encryption_keys.fits() && self.feedback.fits()
            && self.score <= MAX_SCORE
    }

    fn put(&self, out: &mut Vec<u8>) {
        (
            &self.is_initialized,
            (
                &self.encrypted_content_url,
                (&self.encryption_keys, (&self.status, (&self.score, &self.feedback))),
            ),
        ).put(out);
    }
}

impl Decode for Deliverable {
    fn take(data: &[u8], pos: usize) -> (r: Option<(Deliverable, usize)>) {
        match DeliverableParts::take(data, pos) {
            None => None,
            Some((parts, next)) => {
                let (
                    is_initialized,
                    (encrypted_content_url, (encryption_keys, (status, (score, feedback)))),
                ) = parts;
                if score <= MAX_SCORE {
                    Some(
                        (
                            Deliverable {
                                is_initialized,
                                encrypted_content_url,
                                encryption_keys,
                                status,
                                score,
                                feedback,
                            },
                            next,
                        ),
                    )
                } else {
                    None
                }
            },
        }
    }
}


impl Deliverable {
    /// Whether the cell that held this record has been filled in.
    pub fn is_initialized(&self) -> (yes: bool)
        ensures
            yes == self.is_initialized,
    {
        self.is_initialized
    }

    /// Settles a judged deliverable: accepted where its score reaches the
    /// threshold, rejected where it does not. A deliverable that is not in
    /// the judged state is refused with `InvalidDeliverable` and left as it
    /// was. The threshold is the caller's to choose.
    pub fn settle(&mut self, threshold: u8) -> (r: Result<(), crate::error::XaamError>)
        ensures
            match old(self).status.after(crate::lifecycle::verdict_of(old(self).score, threshold)) {
                Ok(status) => r is Ok && final(self)@ == (DeliverableView {
                    status,
                    ..old(self)@
                }),
                Err(e) => r == Err::<(), crate::error::XaamError>(e) && final(self)@ == old(
                    self,
                )@,
            },
    {
        match self.status.advance(crate::lifecycle::verdict(self.score, threshold)) {
            Ok(status) => {
                self.status = status;
                Ok(())
            },
            Err(e) => Err(e),
        }
    }
}

/// Slots filled from a list of at most five judges have no gap.
pub proof fn lemma_slots_of_packed(judges: Seq<Pubkey>)
    requires
        judges.len() <= MAX_JUDGES,
    ensures
        slots_packed(slots_of(judges)),
        forall|key: Pubkey| slots_hold(slots_of(judges), key) <==> judges.contains(key),
{
    assert forall|key: Pubkey| slots_hold(slots_of(judges), key) implies judges.contains(key) by {
        let i = choose|i: int| 0 <= i < slots_of(judges).len() && slots_of(judges)[i] == Some(key);
        assert(judges[i] == key);
    }
    assert forall|key: Pubkey| judges.contains(key) implies slots_hold(slots_of(judges), key) by {
        let i = choose|i: int| 0 <= i < judges.len() && judges[i] == key;
        assert(slots_of(judges)[i] == Some(key));
    }
}

/// A stake takes 83 bytes while it is active and 91 once it is released.
pub proof fn lemma_stake_size(stake: Stake)
    requires
        stake.wire_ok(),
    ensures
        stake.wire_bytes().len() == if stake.status == StakeStatus::Active {
            83int
        } else {
            91int
        },
{
    vstd::bytes::lemma_auto_spec_u64_to_from_le_bytes();
}

/// Moving a task to another status, or touching it at another time,
/// changes neither whether it can travel nor how many bytes it takes.
pub proof fn lemma_task_size_is_kept(task: TaskView, status: TaskStatus, now: UnixTimestamp)
    ensures
        (TaskView { status, updated_at: now, ..task }).wire_ok() == task.wire_ok(),
        (TaskView { status, updated_at: now, ..task }).wire_bytes().len()
            == task.wire_bytes().len(),
{
    vstd::bytes::lemma_auto_spec_u64_to_from_le_bytes();
}


/// How many of the five slots are filled.
pub open spec fn filled_slots(slots: Seq<Option<Pubkey>>) -> int
    recommends
        slots.len() == 5,
{
    (if slots[0] is Some { 1int } else { 0int }) + (if slots[1] is Some { 1int } else { 0int }) + (
    if slots[2] is Some { 1int } else { 0int }) + (if slots[3] is Some { 1int } else { 0int }) + (
    if slots[4] is Some { 1int } else { 0int })
}

/// A task takes 119 bytes, and on top of them the bytes of its four texts
/// and 32 bytes for each judge it names. So a cell of 279 bytes and the
/// bytes of the texts holds any task.
pub proof fn lemma_task_size(task: TaskView)
    requires
        task.wire_ok(),
    ensures
        task.wire_bytes().len() == 119 + vstd::utf8::encode_utf8(task.title).len()
            + vstd::utf8::encode_utf8(task.summary).len() + vstd::utf8::encode_utf8(
            task.encrypted_payload_url,
        ).len() + vstd::utf8::encode_utf8(task.reward_currency).len() + 32 * filled_slots(
            task.judges,
        ),
{
    vstd::bytes::lemma_auto_spec_u64_to_from_le_bytes();
    vstd::bytes::lemma_auto_spec_u32_to_from_le_bytes();
    let slots = JudgeSlots { slots: task.judges };
    assert(slots.wire_bytes().len() == 5 + 32 * filled_slots(task.judges));
}

/// A task with texts short enough to travel, and with its judges filled in
/// from a list of at most five, can travel.
pub proof fn lemma_task_travels(task: TaskView, judges: Seq<Pubkey>)
    requires
        judges.len() <= MAX_JUDGES,
        task.judges == slots_of(judges),
        task.title.wire_ok(),
        task.summary.wire_ok(),
        task.encrypted_payload_url.wire_ok(),
        task.reward_currency.wire_ok(),
    ensures
        task.wire_ok(),
{
    lemma_slots_of_packed(judges);
}


} // verus!
