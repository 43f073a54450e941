//! The instruction handlers. Each one checks the accounts it was given,
//! reads the records it needs, checks the guards of the step it is asked to
//! take, and only then writes: a request that is refused changes nothing.
//! A new record is written to a free cell only, so no record is ever
//! written over by another.
//!
//! What a handler does is laid down twice: as a definition over plain
//! values (`..._outcome`), which names every guard in the order in which it
//! is checked, and as code that is proved to do exactly that. The time is
//! whatever the caller's clock shows; the handlers never look it up.

use vstd::prelude::*;
use crate::account::bytes_for;
use crate::account::load;
use crate::account::require_accounts;
use crate::account::require_free;
use crate::account::require_owner;
use crate::account::require_signer;
use crate::account::views;
use crate::account::Account;
use crate::account::AccountView;
use crate::account::Clock;
use crate::codec::write_cell;
use crate::codec::Encode;
use crate::error::ProgramError;
use crate::error::XaamError;
use crate::instruction::XaamInstruction;
use crate::instruction::XaamInstructionView;
use crate::lifecycle::check_deadline;
use crate::lifecycle::check_score;
use crate::lifecycle::AgentType;
use crate::lifecycle::DeliverableStatus;
use crate::lifecycle::DeliverableStep;
use crate::lifecycle::StakeStatus;
use crate::lifecycle::StakeStep;
use crate::lifecycle::TaskStatus;
use crate::lifecycle::TaskStep;
use crate::lifecycle::MAX_SCORE;
use crate::pubkey::Pubkey;
use crate::pubkey::UnixTimestamp;
use crate::state::slots_hold;
use crate::state::slots_of;
use crate::state::Agent;
use crate::state::AgentView;
use crate::state::Deliverable;
use crate::state::DeliverableView;
use crate::state::Judge;
use crate::state::JudgeView;
use crate::state::Stake;
use crate::state::Task;
use crate::state::TaskView;
use crate::state::MAX_JUDGES;

verus! {

/// What the keeper of tokens and funds has to do once an instruction has
/// gone through. The program decides that it is due and says so; moving
/// the funds is the keeper's work, and the changes that the instruction
/// made stand only if that work succeeds.
#[derive(Clone, Copy, Debug, PartialEq, Eq)]
pub enum Custody {
    /// Nothing is due.
    Nothing,
    /// The token that stands for a new task is to be minted.
    MintTaskToken { mint: Pubkey },
    /// The collateral of a new stake is to be taken in.
    LockStake { amount: u64 },
    /// The reward of a completed task is to be paid out.
    PayReward { amount: u64 },
    /// The collateral of a returned stake is to be handed back.
    ReleaseStake { amount: u64 },
    /// The token that stands for a task is to be destroyed.
    BurnTaskToken { mint: Pubkey },
}

/// What an instruction that goes through leaves behind: the accounts as
/// they then are, and what is due from the keeper of funds.
pub struct Outcome {
    pub accounts: Seq<AccountView>,
    pub custody: Custody,
}

/// Whether a handler did what was expected of it: on success the accounts
/// are as expected and the handler says what is due; on refusal it gives
/// the expected reason and no account has changed.
pub open spec fn handled(
    expected: Result<Outcome, ProgramError>,
    before: Seq<AccountView>,
    after: Seq<AccountView>,
    r: Result<Custody, ProgramError>,
) -> bool {
    match expected {
        Ok(outcome) => r == Ok::<Custody, ProgramError>(outcome.custody) && after
            == outcome.accounts,
        Err(e) => r == Err::<Custody, ProgramError>(e) && after == before,
    }
}

/// Whether the initialized task in a cell, if there is one, is still there
/// afterwards: initialized, with the same creator and deadline, and in a
/// status no earlier than before.
pub open spec fn task_kept(before: AccountView, after: AccountView) -> bool {
    before.holds::<TaskView>() is Some && before.holds::<TaskView>()->Some_0.is_initialized ==> {
        let was = before.holds::<TaskView>()->Some_0;
        let is = after.holds::<TaskView>();
        &&& is is Some
        &&& is->Some_0.is_initialized
        &&& was.status.tag() <= is->Some_0.status.tag()
        &&& is->Some_0.creator_id == was.creator_id
        &&& is->Some_0.deadline == was.deadline
    }
}

/// The task that `InitializeTask` creates.
pub open spec fn new_task(
    creator: Pubkey,
    mint: Pubkey,
    title: Seq<char>,
    summary: Seq<char>,
    encrypted_payload_url: Seq<char>,
    deadline: UnixTimestamp,
    reward_amount: u64,
    reward_currency: Seq<char>,
    judges: Seq<Pubkey>,
    now: UnixTimestamp,
) -> TaskView {
    TaskView {
        is_initialized: true,
        nft_id: mint,
        title,
        summary,
        encrypted_payload_url,
        creator_id: creator,
        status: TaskStatus::Created,
        deadline,
        reward_amount,
        reward_currency,
        judges: slots_of(judges),
        created_at: now,
        updated_at: now,
    }
}

/// What `InitializeTask` does. The accounts are the creator, who signs;
/// the task cell, which must be free; the token that will stand for the
/// task; and three accounts of the host.
pub open spec fn initialize_task_outcome(
    program_id: Pubkey,
    accounts: Seq<AccountView>,
    title: Seq<char>,
    summary: Seq<char>,
    encrypted_payload_url: Seq<char>,
    deadline: UnixTimestamp,
    reward_amount: u64,
    reward_currency: Seq<char>,
    judges: Seq<Pubkey>,
    now: UnixTimestamp,
) -> Result<Outcome, ProgramError> {
    if accounts.len() < 6 {
        Err(ProgramError::NotEnoughAccountKeys)
    } else if !accounts[0].is_signer {
        Err(ProgramError::MissingRequiredSignature)
    } else if accounts[1].owner != program_id {
        Err(XaamError::IncorrectProgramId.surfaced())
    } else if deadline <= now {
        Err(XaamError::TaskDeadlineExpired.surfaced())
    } else if judges.len() > MAX_JUDGES {
        Err(ProgramError::InvalidArgument)
    } else if accounts[1].in_use() {
        Err(XaamError::InvalidTaskState.surfaced())
    } else {
        let task = new_task(
            accounts[0].key,
            accounts[2].key,
            title,
            summary,
            encrypted_payload_url,
            deadline,
            reward_amount,
            reward_currency,
            judges,
            now,
        );
        if !accounts[1].can_hold(task) {
            Err(XaamError::InvalidAccountData.surfaced())
        } else {
            Ok(
                Outcome {
                    accounts: accounts.update(1, accounts[1].with_record(task)),
                    custody: Custody::MintTaskToken { mint: accounts[2].key },
                },
            )
        }
    }
}

/// The agent that `RegisterAgent` creates.
pub open spec fn new_agent(
    owner: Pubkey,
    name: Seq<char>,
    description: Seq<char>,
    agent_type: AgentType,
    public_key: Seq<char>,
    now: UnixTimestamp,
) -> AgentView {
    AgentView {
        is_initialized: true,
        name,
        description,
        agent_type,
        wallet_address: owner,
        public_key,
        reputation_score: 0,
        completed_tasks: 0,
        successful_tasks: 0,
        created_at: now,
        updated_at: now,
    }
}

/// What `RegisterAgent` does. The accounts are the owner, who signs; the
/// agent cell, which must be free; and two accounts of the host.
pub open spec fn register_agent_outcome(
    program_id: Pubkey,
    accounts: Seq<AccountView>,
    name: Seq<char>,
    description: Seq<char>,
    agent_type: AgentType,
    public_key: Seq<char>,
    now: UnixTimestamp,
) -> Result<Outcome, ProgramError> {
    if accounts.len() < 4 {
        Err(ProgramError::NotEnoughAccountKeys)
    } else if !accounts[0].is_signer {
        Err(ProgramError::MissingRequiredSignature)
    } else if accounts[1].owner != program_id {
        Err(XaamError::IncorrectProgramId.surfaced())
    } else if accounts[1].in_use() {
        Err(XaamError::InvalidAgentState.surfaced())
    } else {
        let agent = new_agent(accounts[0].key, name, description, agent_type, public_key, now);
        if !accounts[1].can_hold(agent) {
            Err(XaamError::InvalidAccountData.surfaced())
        } else {
            Ok(
                Outcome {
                    accounts: accounts.update(1, accounts[1].with_record(agent)),
                    custody: Custody::Nothing,
                },
            )
        }
    }
}

/// The judge record that `RegisterJudge` creates from the agent record of
/// its owner: the agent as it stands, under the name, description and key
/// that the judge registers with.
pub open spec fn new_judge(
    base: AgentView,
    name: Seq<char>,
    description: Seq<char>,
    public_key: Seq<char>,
    specialization: Seq<char>,
    now: UnixTimestamp,
) -> JudgeView {
    JudgeView {
        agent: AgentView { name, description, public_key, updated_at: now, ..base },
        specialization,
        judged_tasks: 0,
    }
}

/// What `RegisterJudge` does. The accounts are the owner, who signs; the
/// judge cell, which must be free; the cell of the owner's agent record,
/// which must exist already; and two accounts of the host.
pub open spec fn register_judge_outcome(
    program_id: Pubkey,
    accounts: Seq<AccountView>,
    name: Seq<char>,
    description: Seq<char>,
    public_key: Seq<char>,
    specialization: Seq<char>,
    now: UnixTimestamp,
) -> Result<Outcome, ProgramError> {
    if accounts.len() < 5 {
        Err(ProgramError::NotEnoughAccountKeys)
    } else if !accounts[0].is_signer {
        Err(ProgramError::MissingRequiredSignature)
    } else if accounts[1].owner != program_id || accounts[2].owner != program_id {
        Err(XaamError::IncorrectProgramId.surfaced())
    } else {
        match accounts[2].holds::<AgentView>() {
            None => Err(XaamError::InvalidAccountData.surfaced()),
            Some(base) => {
                if !base.is_initialized {
                    Err(XaamError::InvalidAgentState.surfaced())
                } else if base.wallet_address != accounts[0].key {
                    Err(XaamError::Unauthorized.surfaced())
                } else if accounts[1].in_use() {
                    Err(XaamError::InvalidJudgeState.surfaced())
                } else {
                    let judge = new_judge(
                        base,
                        name,
                        description,
                        public_key,
                        specialization,
                        now,
                    );
                    if !accounts[1].can_hold(judge) {
                        Err(XaamError::InvalidAccountData.surfaced())
                    } else {
                        Ok(
                            Outcome {
                                accounts: accounts.update(1, accounts[1].with_record(judge)),
                                custody: Custody::Nothing,
                            },
                        )
                    }
                }
            },
        }
    }
}

/// The stake that `StakeOnTask` creates.
pub open spec fn new_stake(task: Pubkey, agent: Pubkey, amount: u64, now: UnixTimestamp) -> Stake {
    Stake {
        is_initialized: true,
        task_id: task,
        agent_id: agent,
        amount,
        status: StakeStatus::Active,
        staked_at: now,
        released_at: None,
    }
}

/// A task after a step: in its new status, and touched at `now`.
pub open spec fn moved_task(task: TaskView, status: TaskStatus, now: UnixTimestamp) -> TaskView {
    TaskView { status, updated_at: now, ..task }
}

/// What `StakeOnTask` does. The accounts are the owner of the agent, who
/// signs; the stake cell, which must be free; the task cell; the agent
/// cell; and two accounts of the host.
pub open spec fn stake_on_task_outcome(
    program_id: Pubkey,
    accounts: Seq<AccountView>,
    amount: u64,
    now: UnixTimestamp,
) -> Result<Outcome, ProgramError> {
    if accounts.len() < 6 {
        Err(ProgramError::NotEnoughAccountKeys)
    } else if !accounts[0].is_signer {
        Err(ProgramError::MissingRequiredSignature)
    } else if accounts[1].owner != program_id || accounts[2].owner != program_id
        || accounts[3].owner != program_id {
        Err(XaamError::IncorrectProgramId.surfaced())
    } else {
        match accounts[2].holds::<TaskView>() {
            None => Err(XaamError::InvalidAccountData.surfaced()),
            Some(task) => match task.status.after(TaskStep::Stake) {
                Err(e) => Err(e.surfaced()),
                Ok(status) => {
                    if task.deadline <= now {
                        Err(XaamError::TaskDeadlineExpired.surfaced())
                    } else {
                        match accounts[3].holds::<AgentView>() {
                            None => Err(XaamError::InvalidAccountData.surfaced()),
                            Some(agent) => {
                                let stake = new_stake(
                                    accounts[2].key,
                                    accounts[3].key,
                                    amount,
                                    now,
                                );
                                let staked = moved_task(task, status, now);
                                if agent.agent_type != AgentType::Worker {
                                    Err(XaamError::InvalidAgentState.surfaced())
                                } else if accounts[1].in_use() {
                                    Err(XaamError::InvalidStakeState.surfaced())
                                } else if !accounts[1].can_hold(stake) || !accounts[2].can_hold(
                                    staked,
                                ) {
                                    Err(XaamError::InvalidAccountData.surfaced())
                                } else {
                                    Ok(
                                        Outcome {
                                            accounts: accounts.update(
                                                1,
                                                accounts[1].with_record(stake),
                                            ).update(2, accounts[2].with_record(staked)),
                                            custody: Custody::LockStake { amount },
                                        },
                                    )
                                }
                            },
                        }
                    }
                },
            },
        }
    }
}

/// The deliverable that `SubmitDeliverable` creates.
pub open spec fn new_deliverable(
    encrypted_content_url: Seq<char>,
    encryption_keys: Seq<(Pubkey, Seq<char>)>,
) -> DeliverableView {
    DeliverableView {
        is_initialized: true,
        encrypted_content_url,
        encryption_keys,
        status: DeliverableStatus::Submitted,
        score: 0,
        feedback: Seq::empty(),
    }
}

/// What `SubmitDeliverable` does. The accounts are the owner of the agent,
/// who signs; the deliverable cell, which must be free; the task cell; the
/// agent cell; and two accounts of the host.
pub open spec fn submit_deliverable_outcome(
    program_id: Pubkey,
    accounts: Seq<AccountView>,
    encrypted_content_url: Seq<char>,
    encryption_keys: Seq<(Pubkey, Seq<char>)>,
    now: UnixTimestamp,
) -> Result<Outcome, ProgramError> {
    if accounts.len() < 6 {
        Err(ProgramError::NotEnoughAccountKeys)
    } else if !accounts[0].is_signer {
        Err(ProgramError::MissingRequiredSignature)
    } else if accounts[1].owner != program_id || accounts[2].owner != program_id
        || accounts[3].owner != program_id {
        Err(XaamError::IncorrectProgramId.surfaced())
    } else {
        match accounts[2].holds::<TaskView>() {
            None => Err(XaamError::InvalidAccountData.surfaced()),
            Some(task) => match task.status.after(TaskStep::Submit) {
                Err(e) => Err(e.surfaced()),
                Ok(status) => {
                    let deliverable = new_deliverable(encrypted_content_url, encryption_keys);
                    let submitted = moved_task(task, status, now);
                    if task.deadline <= now {
                        Err(XaamError::TaskDeadlineExpired.surfaced())
                    } else if accounts[1].in_use() {
                        Err(XaamError::InvalidDeliverable.surfaced())
                    } else if !accounts[1].can_hold(deliverable) || !accounts[2].can_hold(
                        submitted,
                    ) {
                        Err(XaamError::InvalidAccountData.surfaced())
                    } else {
                        Ok(
                            Outcome {
                                accounts: accounts.update(
                                    1,
                                    accounts[1].with_record(deliverable),
                                ).update(2, accounts[2].with_record(submitted)),
                                custody: Custody::Nothing,
                            },
                        )
                    }
                },
            },
        }
    }
}

/// A deliverable after a judge has scored it.
pub open spec fn judged_deliverable(
    deliverable: DeliverableView,
    status: DeliverableStatus,
    score: u8,
    feedback: Seq<char>,
) -> DeliverableView {
    DeliverableView { status, score, feedback, ..deliverable }
}

/// What `JudgeDeliverable` does. The accounts are the judge's owner, who
/// signs; the deliverable cell; the task cell; the judge cell; and one
/// account of the host. A deliverable carries one judgement, and with it
/// the task counts as judged.
pub open spec fn judge_deliverable_outcome(
    program_id: Pubkey,
    accounts: Seq<AccountView>,
    score: u8,
    feedback: Seq<char>,
    now: UnixTimestamp,
) -> Result<Outcome, ProgramError> {
    if accounts.len() < 5 {
        Err(ProgramError::NotEnoughAccountKeys)
    } else if !accounts[0].is_signer {
        Err(ProgramError::MissingRequiredSignature)
    } else if accounts[1].owner != program_id || accounts[2].owner != program_id
        || accounts[3].owner != program_id {
        Err(XaamError::IncorrectProgramId.surfaced())
    } else if score > MAX_SCORE {
        Err(XaamError::InvalidDeliverable.surfaced())
    } else {
        match accounts[2].holds::<TaskView>() {
            None => Err(XaamError::InvalidAccountData.surfaced()),
            Some(task) => match task.status.after(TaskStep::Judge) {
                Err(e) => Err(e.surfaced()),
                Ok(status) => {
                    if task.deadline <= now {
                        Err(XaamError::TaskDeadlineExpired.surfaced())
                    } else if !slots_hold(task.judges, accounts[0].key) {
                        Err(XaamError::Unauthorized.surfaced())
                    } else {
                        match accounts[3].holds::<JudgeView>() {
                            None => Err(XaamError::InvalidAccountData.surfaced()),
                            Some(judge) => {
                                if !judge.agent.is_initialized {
                                    Err(XaamError::InvalidJudgeState.surfaced())
                                } else if judge.agent.wallet_address != accounts[0].key {
                                    Err(XaamError::Unauthorized.surfaced())
                                } else {
                                    match accounts[1].holds::<DeliverableView>() {
                                        None => Err(XaamError::InvalidAccountData.surfaced()),
                                        Some(deliverable) => match deliverable.status.after(
                                            DeliverableStep::Judge,
                                        ) {
                                            Err(e) => Err(e.surfaced()),
                                            Ok(verdict) => {
                                                let scored = judged_deliverable(
                                                    deliverable,
                                                    verdict,
                                                    score,
                                                    feedback,
                                                );
                                                let judged = moved_task(task, status, now);
                                                if !accounts[1].can_hold(scored)
                                                    || !accounts[2].can_hold(judged) {
                                                    Err(XaamError::InvalidAccountData.surfaced())
                                                } else {
                                                    Ok(
                                                        Outcome {
                                                            accounts: accounts.update(
                                                                1,
                                                                accounts[1].with_record(scored),
                                                            ).update(
                                                                2,
                                                                accounts[2].with_record(judged),
                                                            ),
                                                            custody: Custody::Nothing,
                                                        },
                                                    )
                                                }
                                            },
                                        },
                                    }
                                }
                            },
                        }
                    }
                },
            },
        }
    }
}

/// What `CompleteTask` does. The accounts are the creator, who signs; the
/// task cell; the winning agent; the wallets of the task and of the agent;
/// and two accounts of the host.
pub open spec fn complete_task_outcome(
    program_id: Pubkey,
    accounts: Seq<AccountView>,
    now: UnixTimestamp,
) -> Result<Outcome, ProgramError> {
    if accounts.len() < 7 {
        Err(ProgramError::NotEnoughAccountKeys)
    } else if !accounts[0].is_signer {
        Err(ProgramError::MissingRequiredSignature)
    } else if accounts[1].owner != program_id {
        Err(XaamError::IncorrectProgramId.surfaced())
    } else {
        match accounts[1].holds::<TaskView>() {
            None => Err(XaamError::InvalidAccountData.surfaced()),
            Some(task) => {
                if task.creator_id != accounts[0].key {
                    Err(XaamError::Unauthorized.surfaced())
                } else {
                    match task.status.after(TaskStep::Complete) {
                        Err(e) => Err(e.surfaced()),
                        Ok(status) => {
                            let completed = moved_task(task, status, now);
                            if !accounts[1].can_hold(completed) {
                                Err(XaamError::InvalidAccountData.surfaced())
                            } else {
                                Ok(
                                    Outcome {
                                        accounts: accounts.update(
                                            1,
                                            accounts[1].with_record(completed),
                                        ),
                                        custody: Custody::PayReward { amount: task.reward_amount },
                                    },
                                )
                            }
                        },
                    }
                }
            },
        }
    }
}

/// A stake after a step: in its new status, and released at `now`.
pub open spec fn released_stake(stake: Stake, status: StakeStatus, now: UnixTimestamp) -> Stake {
    Stake { status, released_at: Some(now), ..stake }
}

/// What `ReturnStake` does. The accounts are the account that signs; the
/// stake cell; the agent cell; and one account of the host. The signer is
/// meant to be a judge of the task that the stake is on, but that is not
/// checked: no task and no judge record is among the accounts, so any
/// signer releases an active stake.
pub open spec fn return_stake_outcome(
    program_id: Pubkey,
    accounts: Seq<AccountView>,
    now: UnixTimestamp,
) -> Result<Outcome, ProgramError> {
    if accounts.len() < 4 {
        Err(ProgramError::NotEnoughAccountKeys)
    } else if !accounts[0].is_signer {
        Err(ProgramError::MissingRequiredSignature)
    } else if accounts[1].owner != program_id || accounts[2].owner != program_id {
        Err(XaamError::IncorrectProgramId.surfaced())
    } else {
        match accounts[1].holds::<Stake>() {
            None => Err(XaamError::InvalidAccountData.surfaced()),
            Some(stake) => match stake.status.after(StakeStep::Return) {
                Err(e) => Err(e.surfaced()),
                Ok(status) => {
                    let released = released_stake(stake, status, now);
                    if !accounts[1].can_hold(released) {
                        Err(XaamError::InvalidAccountData.surfaced())
                    } else {
                        Ok(
                            Outcome {
                                accounts: accounts.update(1, accounts[1].with_record(released)),
                                custody: Custody::ReleaseStake { amount: stake.amount },
                            },
                        )
                    }
                },
            },
        }
    }
}

/// What `BurnTaskNFT` does. The accounts are the creator, who signs; the
/// task cell; the token that stands for the task; and two accounts of the
/// host. Nothing is written: the token named in the task is to be burnt.
pub open spec fn burn_task_nft_outcome(
    program_id: Pubkey,
    accounts: Seq<AccountView>,
) -> Result<Outcome, ProgramError> {
    if accounts.len() < 5 {
        Err(ProgramError::NotEnoughAccountKeys)
    } else if !accounts[0].is_signer {
        Err(ProgramError::MissingRequiredSignature)
    } else if accounts[1].owner != program_id {
        Err(XaamError::IncorrectProgramId.surfaced())
    } else {
        match accounts[1].holds::<TaskView>() {
            None => Err(XaamError::InvalidAccountData.surfaced()),
            Some(task) => {
                if task.creator_id != accounts[0].key {
                    Err(XaamError::Unauthorized.surfaced())
                } else {
                    Ok(Outcome { accounts, custody: Custody::BurnTaskToken { mint: task.nft_id } })
                }
            },
        }
    }
}

/// What an instruction does, whichever it is: what its own handler does.
pub open spec fn process_outcome(
    program_id: Pubkey,
    accounts: Seq<AccountView>,
    instruction: XaamInstructionView,
    now: UnixTimestamp,
) -> Result<Outcome, ProgramError> {
    match instruction {
        XaamInstructionView::InitializeTask {
            title,
            summary,
            encrypted_payload_url,
            deadline,
            reward_amount,
            reward_currency,
            judges,
        } => initialize_task_outcome(
            program_id,
            accounts,
            title,
            summary,
            encrypted_payload_url,
            deadline,
            reward_amount,
            reward_currency,
            judges,
            now,
        ),
        XaamInstructionView::RegisterAgent {
            name,
            description,
            agent_type,
            public_key,
        } => register_agent_outcome(
            program_id,
            accounts,
            name,
            description,
            agent_type,
            public_key,
            now,
        ),
        XaamInstructionView::RegisterJudge {
            name,
            description,
            public_key,
            specialization,
        } => register_judge_outcome(
            program_id,
            accounts,
            name,
            description,
            public_key,
            specialization,
            now,
        ),
        XaamInstructionView::StakeOnTask { amount } => stake_on_task_outcome(
            program_id,
            accounts,
            amount,
            now,
        ),
        XaamInstructionView::SubmitDeliverable {
            encrypted_content_url,
            encryption_keys,
        } => submit_deliverable_outcome(
            program_id,
            accounts,
            encrypted_content_url,
            encryption_keys,
            now,
        ),
        XaamInstructionView::JudgeDeliverable { score, feedback } => judge_deliverable_outcome(
            program_id,
            accounts,
            score,
            feedback,
            now,
        ),
        XaamInstructionView::CompleteTask {  } => complete_task_outcome(program_id, accounts, now),
        XaamInstructionView::ReturnStake {  } => return_stake_outcome(program_id, accounts, now),
        XaamInstructionView::BurnTaskNFT {  } => burn_task_nft_outcome(program_id, accounts),
    }
}

/// What a request does: bytes that are no instruction are refused with
/// `InvalidInstructionData`, and an instruction does what its handler does.
pub open spec fn process_instruction_outcome(
    program_id: Pubkey,
    accounts: Seq<AccountView>,
    instruction_data: Seq<u8>,
    now: UnixTimestamp,
) -> Result<Outcome, ProgramError> {
    match crate::wire::decode_all::<XaamInstructionView>(instruction_data) {
        None => Err(XaamError::InvalidInstructionData.surfaced()),
        Some(instruction) => process_outcome(program_id, accounts, instruction, now),
    }
}

/// The judge slots of a task that names the given judges. Slots that no
/// judge takes stay empty.
fn judge_slots(judges: &Vec<Pubkey>) -> (slots: [Option<Pubkey>; 5])
    requires
        judges@.len() <= MAX_JUDGES,
    ensures
        slots@ == slots_of(judges@),
{
    let mut slots: [Option<Pubkey>; 5] = [None;5];
    let mut i: usize = 0;
    while i < judges.len()
        invariant
            i <= judges@.len() <= 5,
            forall|j: int|
                0 <= j < 5 ==> slots@[j] == (if j < i {
                    Some(judges@[j])
                } else {
                    None::<Pubkey>
                }),
        decreases judges@.len() - i,
    {
        slots[i] = Some(judges[i]);
        i += 1;
    }
    assert(slots@ =~= slots_of(judges@));
    slots
}

/// Writes `bytes` at the start of the cell of the account at `index`.
fn write_record(accounts: &mut Vec<Account>, index: usize, bytes: &Vec<u8>)
    requires
        index < old(accounts)@.len(),
        bytes@.len() <= old(accounts)@[index as int].data@.len(),
    ensures
        final(accounts)@.len() == old(accounts)@.len(),
        forall|j: int|
            0 <= j < old(accounts)@.len() && j != index ==> final(accounts)@[j] == old(
                accounts,
            )@[j],
        final(accounts)@[index as int]@ == (AccountView {
            data: crate::wire::overlay(old(accounts)@[index as int].data@, bytes@),
            ..old(accounts)@[index as int]@
        }),
        views(final(accounts)@) == views(old(accounts)@).update(
            index as int,
            AccountView {
                data: crate::wire::overlay(old(accounts)@[index as int].data@, bytes@),
                ..old(accounts)@[index as int]@
            },
        ),
{
    write_cell(&mut accounts[index].data, bytes.as_slice());
    assert(views(accounts@) =~= views(old(accounts)@).update(
        index as int,
        AccountView {
            data: crate::wire::overlay(old(accounts)@[index as int].data@, bytes@),
            ..old(accounts)@[index as int]@
        },
    ));
}

/// A refusal of the life-cycle rules, as the program hands it back.
fn surfaced<T>(r: Result<T, XaamError>) -> (out: Result<T, ProgramError>)
    ensures
        out == match r {
            Ok(v) => Ok::<T, ProgramError>(v),
            Err(e) => Err::<T, ProgramError>(e.surfaced()),
        },
{
    match r {
        Ok(v) => Ok(v),
        Err(e) => Err(ProgramError::from(e)),
    }
}

/// Program state processor
pub struct Processor {}

impl Processor {
    /// Process an instruction: hands it to the handler of its variant, which
    /// carries it out at the time that `clock` shows.
    pub fn process(
        program_id: &Pubkey,
        accounts: &mut Vec<Account>,
        instruction: XaamInstruction,
        clock: &Clock,
    ) -> (r: Result<Custody, ProgramError>)
        ensures
            handled(
                process_outcome(
                    *program_id,
                    views(old(accounts)@),
                    instruction@,
                    clock.unix_timestamp,
                ),
                views(old(accounts)@),
                views(final(accounts)@),
                r,
            ),
            r is Ok ==> forall|j: int|
                0 <= j < old(accounts)@.len() && !(instruction@ is JudgeDeliverable && j == 1) && !(
                instruction@ is ReturnStake && j == 1) ==> task_kept(
                    #[trigger] views(old(accounts)@)[j],
                    views(final(accounts)@)[j],
                ),
    {
        let ghost before = views(accounts@);
        let ghost asked = instruction@;
        let r = match instruction {
            XaamInstruction::InitializeTask {
                title,
                summary,
                encrypted_payload_url,
                deadline,
                reward_amount,
                reward_currency,
                judges,
            } => Self::process_initialize_task(
                program_id,
                accounts,
                title,
                summary,
                encrypted_payload_url,
                deadline,
                reward_amount,
                reward_currency,
                judges,
                clock,
            ),
            XaamInstruction::RegisterAgent {
                name,
                description,
                agent_type,
                public_key,
            } => Self::process_register_agent(
                program_id,
                accounts,
                name,
                description,
                agent_type,
                public_key,
                clock,
            ),
            XaamInstruction::RegisterJudge {
                name,
                description,
                public_key,
                specialization,
            } => Self::process_register_judge(
                program_id,
                accounts,
                name,
                description,
                public_key,
                specialization,
                clock,
            ),
            XaamInstruction::StakeOnTask { amount } => Self::process_stake_on_task(
                program_id,
                accounts,
                amount,
                clock,
            ),
            XaamInstruction::SubmitDeliverable {
                encrypted_content_url,
                encryption_keys,
            } => Self::process_submit_deliverable(
                program_id,
                accounts,
                encrypted_content_url,
                encryption_keys,
                clock,
            ),
            XaamInstruction::JudgeDeliverable {
                score,
                feedback,
            } => Self::process_judge_deliverable(program_id, accounts, score, feedback, clock),
            XaamInstruction::CompleteTask {  } => Self::process_complete_task(
                program_id,
                accounts,
                clock,
            ),
            XaamInstruction::ReturnStake {  } => Self::process_return_stake(
                program_id,
                accounts,
                clock,
            ),
            XaamInstruction::BurnTaskNFT {  } => Self::process_burn_task_nft(program_id, accounts),
        };
        proof {
            if r is Ok {
                assert forall|j: int|
                    0 <= j < before.len() && !(asked is JudgeDeliverable && j == 1) && !(
                    asked is ReturnStake && j == 1) implies task_kept(
                    #[trigger] before[j],
                    views(accounts@)[j],
                ) by {
                    if before[j].holds::<TaskView>() is Some && before[j].holds::<
                        TaskView,
                    >()->Some_0.is_initialized {
                        crate::laws::lemma_initialized_task_is_kept(
                            *program_id,
                            before,
                            asked,
                            clock.unix_timestamp,
                            j,
                        );
                    }
                }
            }
        }
        r
    }

    /// Process InitializeTask instruction: creates a task in the task cell,
    /// as [`initialize_task_outcome`] lays down.
    pub fn process_initialize_task(
        program_id: &Pubkey,
        accounts: &mut Vec<Account>,
        title: String,
        summary: String,
        encrypted_payload_url: String,
        deadline: i64,
        reward_amount: u64,
        reward_currency: String,
        judges: Vec<Pubkey>,
        clock: &Clock,
    ) -> (r: Result<Custody, ProgramError>)
        ensures
            handled(
                initialize_task_outcome(
                    *program_id,
                    views(old(accounts)@),
                    title@,
                    summary@,
                    encrypted_payload_url@,
                    deadline,
                    reward_amount,
                    reward_currency@,
                    judges@,
                    clock.unix_timestamp,
                ),
                views(old(accounts)@),
                views(final(accounts)@),
                r,
            ),
            old(accounts)@.len() > 1 && views(old(accounts)@)[1].holds::<TaskView>() is Some
                && views(old(accounts)@)[1].holds::<TaskView>()->Some_0.is_initialized ==> r is Err
                && views(final(accounts)@) == views(old(accounts)@),
    {
        proof {
            if accounts@.len() > 1 {
                crate::laws::lemma_initialized_record_is_in_use(views(accounts@)[1]);
            }
        }
        require_accounts(accounts, 6)?;
        require_signer(&accounts[0])?;
        require_owner(&accounts[1], program_id)?;
        let now = clock.unix_timestamp;
        surfaced(check_deadline(deadline, now))?;
        if judges.len() > MAX_JUDGES {
            return Err(ProgramError::InvalidArgument);
        }
        require_free(&accounts[1], XaamError::InvalidTaskState)?;
        let task = Task {
            is_initialized: true,
            nft_id: accounts[2].key,
            title,
            summary,
            encrypted_payload_url,
            creator_id: accounts[0].key,
            status: TaskStatus::Created,
            deadline,
            reward_amount,
            reward_currency,
            judges: judge_slots(&judges),
            created_at: now,
            updated_at: now,
        };
        let bytes = bytes_for(&task, &accounts[1])?;
        let mint = accounts[2].key;
        write_record(accounts, 1, &bytes);
        Ok(Custody::MintTaskToken { mint })
    }

    /// Process RegisterAgent instruction: creates an agent in the agent
    /// cell, as [`register_agent_outcome`] lays down.
    pub fn process_register_agent(
        program_id: &Pubkey,
        accounts: &mut Vec<Account>,
        name: String,
        description: String,
        agent_type: AgentType,
        public_key: String,
        clock: &Clock,
    ) -> (r: Result<Custody, ProgramError>)
        ensures
            handled(
                register_agent_outcome(
                    *program_id,
                    views(old(accounts)@),
                    name@,
                    description@,
                    agent_type,
                    public_key@,
                    clock.unix_timestamp,
                ),
                views(old(accounts)@),
                views(final(accounts)@),
                r,
            ),
            old(accounts)@.len() > 1 && views(old(accounts)@)[1].holds::<AgentView>() is Some
                && views(old(accounts)@)[1].holds::<AgentView>()->Some_0.is_initialized ==> r is Err
                && views(final(accounts)@) == views(old(accounts)@),
    {
        proof {
            if accounts@.len() > 1 {
                crate::laws::lemma_initialized_record_is_in_use(views(accounts@)[1]);
            }
        }
        require_accounts(accounts, 4)?;
        require_signer(&accounts[0])?;
        require_owner(&accounts[1], program_id)?;
        require_free(&accounts[1], XaamError::InvalidAgentState)?;
        let now = clock.unix_timestamp;
        let agent = Agent {
            is_initialized: true,
            name,
            description,
            agent_type,
            wallet_address: accounts[0].key,
            public_key,
            reputation_score: 0,
            completed_tasks: 0,
            successful_tasks: 0,
            created_at: now,
            updated_at: now,
        };
        let bytes = bytes_for(&agent, &accounts[1])?;
        write_record(accounts, 1, &bytes);
        Ok(Custody::Nothing)
    }

    /// Process StakeOnTask instruction: creates an active stake and moves
    /// the task to `Staked`, as [`stake_on_task_outcome`] lays down.
    pub fn process_stake_on_task(
        program_id: &Pubkey,
        accounts: &mut Vec<Account>,
        amount: u64,
        clock: &Clock,
    ) -> (r: Result<Custody, ProgramError>)
        ensures
            handled(
                stake_on_task_outcome(*program_id, views(old(accounts)@), amount, clock.unix_timestamp),
                views(old(accounts)@),
                views(final(accounts)@),
                r,
            ),
    {
        require_accounts(accounts, 6)?;
        require_signer(&accounts[0])?;
        require_owner(&accounts[1], program_id)?;
        require_owner(&accounts[2], program_id)?;
        require_owner(&accounts[3], program_id)?;
        let now = clock.unix_timestamp;
        let mut task = load::<Task>(&accounts[2])?;
        let status = surfaced(task.status.advance(TaskStep::Stake))?;
        surfaced(check_deadline(task.deadline, now))?;
        let agent = load::<Agent>(&accounts[3])?;
        if agent.agent_type != AgentType::Worker {
            return Err(ProgramError::from(XaamError::InvalidAgentState));
        }
        require_free(&accounts[1], XaamError::InvalidStakeState)?;
        let stake = Stake {
            is_initialized: true,
            task_id: accounts[2].key,
            agent_id: accounts[3].key,
            amount,
            status: StakeStatus::Active,
            staked_at: now,
            released_at: None,
        };
        task.status = status;
        task.updated_at = now;
        let stake_bytes = bytes_for(&stake, &accounts[1])?;
        let task_bytes = bytes_for(&task, &accounts[2])?;
        let ghost before = views(accounts@);
        write_record(accounts, 1, &stake_bytes);
        write_record(accounts, 2, &task_bytes);
        assert(views(accounts@) =~= before.update(1, before[1].with_record(stake)).update(
            2,
            before[2].with_record(task@),
        ));
        Ok(Custody::LockStake { amount })
    }

    /// Process CompleteTask instruction: moves a judged task to `Completed`
    /// for its creator, as [`complete_task_outcome`] lays down.
    pub fn process_complete_task(
        program_id: &Pubkey,
        accounts: &mut Vec<Account>,
        clock: &Clock,
    ) -> (r: Result<Custody, ProgramError>)
        ensures
            handled(
                complete_task_outcome(*program_id, views(old(accounts)@), clock.unix_timestamp),
                views(old(accounts)@),
                views(final(accounts)@),
                r,
            ),
    {
        require_accounts(accounts, 7)?;
        require_signer(&accounts[0])?;
        require_owner(&accounts[1], program_id)?;
        let mut task = load::<Task>(&accounts[1])?;
        if task.creator_id != accounts[0].key {
            return Err(ProgramError::from(XaamError::Unauthorized));
        }
        let status = surfaced(task.status.advance(TaskStep::Complete))?;
        task.status = status;
        task.updated_at = clock.unix_timestamp;
        let bytes = bytes_for(&task, &accounts[1])?;
        write_record(accounts, 1, &bytes);
        Ok(Custody::PayReward { amount: task.reward_amount })
    }

    /// Process RegisterJudge instruction: creates a judge record over the
    /// agent record of its owner, as [`register_judge_outcome`] lays down.
    pub fn process_register_judge(
        program_id: &Pubkey,
        accounts: &mut Vec<Account>,
        name: String,
        description: String,
        public_key: String,
        specialization: String,
        clock: &Clock,
    ) -> (r: Result<Custody, ProgramError>)
        ensures
            handled(
                register_judge_outcome(
                    *program_id,
                    views(old(accounts)@),
                    name@,
                    description@,
                    public_key@,
                    specialization@,
                    clock.unix_timestamp,
                ),
                views(old(accounts)@),
                views(final(accounts)@),
                r,
            ),
    {
        require_accounts(accounts, 5)?;
        require_signer(&accounts[0])?;
        require_owner(&accounts[1], program_id)?;
        require_owner(&accounts[2], program_id)?;
        let mut agent = load::<Agent>(&accounts[2])?;
        if !agent.is_initialized {
            return Err(ProgramError::from(XaamError::InvalidAgentState));
        }
        if agent.wallet_address != accounts[0].key {
            return Err(ProgramError::from(XaamError::Unauthorized));
        }
        require_free(&accounts[1], XaamError::InvalidJudgeState)?;
        agent.name = name;
        agent.description = description;
        agent.public_key = public_key;
        agent.updated_at = clock.unix_timestamp;
        let judge = Judge { agent, specialization, judged_tasks: 0 };
        let bytes = bytes_for(&judge, &accounts[1])?;
        write_record(accounts, 1, &bytes);
        Ok(Custody::Nothing)
    }

    /// Process SubmitDeliverable instruction: creates a deliverable and
    /// moves the task to `Submitted`, as [`submit_deliverable_outcome`] lays
    /// down.
    pub fn process_submit_deliverable(
        program_id: &Pubkey,
        accounts: &mut Vec<Account>,
        encrypted_content_url: String,
        encryption_keys: Vec<(Pubkey, String)>,
        clock: &Clock,
    ) -> (r: Result<Custody, ProgramError>)
        ensures
            handled(
                submit_deliverable_outcome(
                    *program_id,
                    views(old(accounts)@),
                    encrypted_content_url@,
                    encryption_keys.model(),
                    clock.unix_timestamp,
                ),
                views(old(accounts)@),
                views(final(accounts)@),
                r,
            ),
    {
        require_accounts(accounts, 6)?;
        require_signer(&accounts[0])?;
        require_owner(&accounts[1], program_id)?;
        require_owner(&accounts[2], program_id)?;
        require_owner(&accounts[3], program_id)?;
        let now = clock.unix_timestamp;
        let mut task = load::<Task>(&accounts[2])?;
        let status = surfaced(task.status.advance(TaskStep::Submit))?;
        surfaced(check_deadline(task.deadline, now))?;
        require_free(&accounts[1], XaamError::InvalidDeliverable)?;
        let deliverable = Deliverable {
            is_initialized: true,
            encrypted_content_url,
            encryption_keys,
            status: DeliverableStatus::Submitted,
            score: 0,
            feedback: String::new(),
        };
        task.status = status;
        task.updated_at = now;
        let deliverable_bytes = bytes_for(&deliverable, &accounts[1])?;
        let task_bytes = bytes_for(&task, &accounts[2])?;
        let ghost before = views(accounts@);
        write_record(accounts, 1, &deliverable_bytes);
        write_record(accounts, 2, &task_bytes);
        assert(views(accounts@) =~= before.update(1, before[1].with_record(deliverable@)).update(
            2,
            before[2].with_record(task@),
        ));
        Ok(Custody::Nothing)
    }

    /// Process JudgeDeliverable instruction: records the score and the
    /// feedback of a judge of the task and moves the task to `Judged`, as
    /// [`judge_deliverable_outcome`] lays down.
    pub fn process_judge_deliverable(
        program_id: &Pubkey,
        accounts: &mut Vec<Account>,
        score: u8,
        feedback: String,
        clock: &Clock,
    ) -> (r: Result<Custody, ProgramError>)
        ensures
            handled(
                judge_deliverable_outcome(
                    *program_id,
                    views(old(accounts)@),
                    score,
                    feedback@,
                    clock.unix_timestamp,
                ),
                views(old(accounts)@),
                views(final(accounts)@),
                r,
            ),
    {
        require_accounts(accounts, 5)?;
        require_signer(&accounts[0])?;
        require_owner(&accounts[1], program_id)?;
        require_owner(&accounts[2], program_id)?;
        require_owner(&accounts[3], program_id)?;
        surfaced(check_score(score))?;
        let now = clock.unix_timestamp;
        let mut task = load::<Task>(&accounts[2])?;
        let status = surfaced(task.status.advance(TaskStep::Judge))?;
        surfaced(check_deadline(task.deadline, now))?;
        if !task.has_judge(&accounts[0].key) {
            return Err(ProgramError::from(XaamError::Unauthorized));
        }
        let judge = load::<Judge>(&accounts[3])?;
        if !judge.is_initialized() {
            return Err(ProgramError::from(XaamError::InvalidJudgeState));
        }
        if judge.agent.wallet_address != accounts[0].key {
            return Err(ProgramError::from(XaamError::Unauthorized));
        }
        let mut deliverable = load::<Deliverable>(&accounts[1])?;
        let verdict = surfaced(deliverable.status.advance(DeliverableStep::Judge))?;
        deliverable.status = verdict;
        deliverable.score = score;
        deliverable.feedback = feedback;
        task.status = status;
        task.updated_at = now;
        let deliverable_bytes = bytes_for(&deliverable, &accounts[1])?;
        let task_bytes = bytes_for(&task, &accounts[2])?;
        let ghost before = views(accounts@);
        write_record(accounts, 1, &deliverable_bytes);
        write_record(accounts, 2, &task_bytes);
        assert(views(accounts@) =~= before.update(1, before[1].with_record(deliverable@)).update(
            2,
            before[2].with_record(task@),
        ));
        Ok(Custody::Nothing)
    }

    /// Process ReturnStake instruction: releases an active stake for
    /// whoever signs, as [`return_stake_outcome`] lays down.
    pub fn process_return_stake(
        program_id: &Pubkey,
        accounts: &mut Vec<Account>,
        clock: &Clock,
    ) -> (r: Result<Custody, ProgramError>)
        ensures
            handled(
                return_stake_outcome(*program_id, views(old(accounts)@), clock.unix_timestamp),
                views(old(accounts)@),
                views(final(accounts)@),
                r,
            ),
    {
        require_accounts(accounts, 4)?;
        require_signer(&accounts[0])?;
        require_owner(&accounts[1], program_id)?;
        require_owner(&accounts[2], program_id)?;
        let mut stake = load::<Stake>(&accounts[1])?;
        let status = surfaced(stake.status.advance(StakeStep::Return))?;
        let amount = stake.amount;
        stake.status = status;
        stake.released_at = Some(clock.unix_timestamp);
        let bytes = bytes_for(&stake, &accounts[1])?;
        write_record(accounts, 1, &bytes);
        Ok(Custody::ReleaseStake { amount })
    }

    /// Process BurnTaskNFT instruction: has the token of a task burnt for
    /// its creator, as [`burn_task_nft_outcome`] lays down.
    pub fn process_burn_task_nft(program_id: &Pubkey, accounts: &mut Vec<Account>) -> (r: Result<
        Custody,
        ProgramError,
    >)
        ensures
            handled(
                burn_task_nft_outcome(*program_id, views(old(accounts)@)),
                views(old(accounts)@),
                views(final(accounts)@),
                r,
            ),
    {
        require_accounts(accounts, 5)?;
        require_signer(&accounts[0])?;
        require_owner(&accounts[1], program_id)?;
        let task = load::<Task>(&accounts[1])?;
        if task.creator_id != accounts[0].key {
            return Err(ProgramError::from(XaamError::Unauthorized));
        }
        Ok(Custody::BurnTaskToken { mint: task.nft_id })
    }
}

} // verus!
