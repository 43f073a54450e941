//! What holds of every request, whatever the accounts and the payload:
//! proved from the handlers' own definitions.

use vstd::prelude::*;
use crate::account::lemma_holds_what_was_written;
use crate::account::AccountView;
use crate::error::ProgramError;
use crate::error::XaamError;
use crate::instruction::XaamInstructionView;
use crate::lifecycle::lemma_task_steps_forward;
use crate::lifecycle::AgentType;
use crate::lifecycle::DeliverableStatus;
use crate::lifecycle::MAX_SCORE;
use crate::lifecycle::TaskStatus;
use crate::lifecycle::TaskStep;
use crate::lifecycle::StakeStatus;
use crate::processor::burn_task_nft_outcome;
use crate::processor::complete_task_outcome;
use crate::processor::initialize_task_outcome;
use crate::processor::judge_deliverable_outcome;
use crate::processor::moved_task;
use crate::processor::new_task;
use crate::processor::process_instruction_outcome;
use crate::processor::process_outcome;
use crate::processor::judged_deliverable;
use crate::processor::new_agent;
use crate::processor::new_deliverable;
use crate::processor::new_judge;
use crate::processor::new_stake;
use crate::processor::register_agent_outcome;
use crate::processor::register_judge_outcome;
use crate::processor::released_stake;
use crate::processor::return_stake_outcome;
use crate::processor::stake_on_task_outcome;
use crate::processor::submit_deliverable_outcome;
use crate::processor::Outcome;
use crate::pubkey::Pubkey;
use crate::pubkey::UnixTimestamp;
use crate::state::lemma_stake_size;
use crate::state::slots_hold;
use crate::state::lemma_task_size_is_kept;
use crate::state::AgentView;
use crate::state::DeliverableView;
use crate::state::JudgeView;
use crate::state::Stake;
use crate::state::TaskView;
use crate::state::Wallet;
use crate::wire::decode_all;
use crate::wire::decode_front;
use crate::wire::lemma_decode_all_encode;
use crate::wire::lemma_decode_front_encode;
use crate::wire::lemma_encode_decode_front;
use crate::wire::Wire;
use crate::state::MAX_JUDGES;

verus! {

/// The place, among the accounts of an instruction, of the cell of the task
/// that the instruction makes or works on. `None` for the instructions that
/// have to do with no task.
pub open spec fn task_slot(instruction: XaamInstructionView) -> Option<int> {
    match instruction {
        XaamInstructionView::InitializeTask { .. } => Some(1),
        XaamInstructionView::StakeOnTask { .. } => Some(2),
        XaamInstructionView::SubmitDeliverable { .. } => Some(2),
        XaamInstructionView::JudgeDeliverable { .. } => Some(2),
        XaamInstructionView::CompleteTask { .. } => Some(1),
        XaamInstructionView::BurnTaskNFT { .. } => Some(1),
        _ => None,
    }
}

/// The places of the cells that an instruction may write to.
pub open spec fn written_slots(instruction: XaamInstructionView) -> Set<int> {
    match instruction {
        XaamInstructionView::InitializeTask { .. } => set![1],
        XaamInstructionView::RegisterAgent { .. } => set![1],
        XaamInstructionView::RegisterJudge { .. } => set![1],
        XaamInstructionView::StakeOnTask { .. } => set![1, 2],
        XaamInstructionView::SubmitDeliverable { .. } => set![1, 2],
        XaamInstructionView::JudgeDeliverable { .. } => set![1, 2],
        XaamInstructionView::CompleteTask { .. } => set![1],
        XaamInstructionView::ReturnStake { .. } => set![1],
        XaamInstructionView::BurnTaskNFT { .. } => Set::empty(),
    }
}

/// The places of the cells whose record an instruction reads and writes
/// back changed. Every other cell that an instruction writes to, it writes
/// a new record to, and that cell must be free.
pub open spec fn rewritten_slots(instruction: XaamInstructionView) -> Set<int> {
    match instruction {
        XaamInstructionView::StakeOnTask { .. } => set![2],
        XaamInstructionView::SubmitDeliverable { .. } => set![2],
        XaamInstructionView::JudgeDeliverable { .. } => set![1, 2],
        XaamInstructionView::CompleteTask { .. } => set![1],
        XaamInstructionView::ReturnStake { .. } => set![1],
        _ => Set::empty(),
    }
}

/// Whether two accounts differ in nothing but the bytes they hold, and hold
/// as many bytes as each other.
pub open spec fn same_but_for_bytes(a: AccountView, b: AccountView) -> bool {
    a.key == b.key && a.is_signer == b.is_signer && a.lamports == b.lamports && a.owner == b.owner
        && a.data.len() == b.data.len()
}

/// A cell that holds a record says so in its first byte: whatever kind of
/// record a cell holds, the record is initialized exactly when the cell is
/// in use.
pub proof fn lemma_initialized_record_is_in_use(cell: AccountView)
    ensures
        cell.holds::<TaskView>() is Some ==> (cell.holds::<TaskView>()->Some_0.is_initialized
            <==> cell.in_use()),
        cell.holds::<AgentView>() is Some ==> (cell.holds::<AgentView>()->Some_0.is_initialized
            <==> cell.in_use()),
        cell.holds::<JudgeView>() is Some ==> (cell.holds::<
            JudgeView,
        >()->Some_0.agent.is_initialized <==> cell.in_use()),
        cell.holds::<Stake>() is Some ==> (cell.holds::<Stake>()->Some_0.is_initialized
            <==> cell.in_use()),
        cell.holds::<Wallet>() is Some ==> (cell.holds::<Wallet>()->Some_0.is_initialized
            <==> cell.in_use()),
        cell.holds::<DeliverableView>() is Some ==> (cell.holds::<
            DeliverableView,
        >()->Some_0.is_initialized <==> cell.in_use()),
{
    reveal(AccountView::holds);
    TaskView::lemma_bytes_parse(cell.data);
    AgentView::lemma_bytes_parse(cell.data);
    JudgeView::lemma_bytes_parse(cell.data);
    Stake::lemma_bytes_parse(cell.data);
    Wallet::lemma_bytes_parse(cell.data);
    DeliverableView::lemma_bytes_parse(cell.data);
}

/// No record is written over. An instruction that goes through leaves
/// every cell in use exactly as it was, but for the cells whose record it
/// read and wrote back changed.
pub proof fn lemma_cells_in_use_are_kept(
    program_id: Pubkey,
    accounts: Seq<AccountView>,
    instruction: XaamInstructionView,
    now: UnixTimestamp,
    j: int,
)
    requires
        process_outcome(program_id, accounts, instruction, now) is Ok,
        0 <= j < accounts.len(),
        accounts[j].in_use(),
        !rewritten_slots(instruction).contains(j),
    ensures
        process_outcome(program_id, accounts, instruction, now)->Ok_0.accounts[j] == accounts[j],
{
}

/// A cell that holds a task holds it after a step too, in its new status.
pub proof fn lemma_task_stays_where_it_is(
    cell: AccountView,
    task: TaskView,
    status: TaskStatus,
    now: UnixTimestamp,
)
    requires
        cell.holds::<TaskView>() == Some(task),
    ensures
        cell.with_record(moved_task(task, status, now)).holds::<TaskView>() == Some(
            moved_task(task, status, now),
        ),
{
    lemma_moved_task_fits(cell, task, status, now);
    lemma_holds_what_was_written(cell, moved_task(task, status, now));
}

/// No record is deleted. A cell that is in use is still in use after any
/// instruction that goes through.
pub proof fn lemma_cells_stay_in_use(
    program_id: Pubkey,
    accounts: Seq<AccountView>,
    instruction: XaamInstructionView,
    now: UnixTimestamp,
    j: int,
)
    requires
        process_outcome(program_id, accounts, instruction, now) is Ok,
        0 <= j < accounts.len(),
        accounts[j].in_use(),
    ensures
        process_outcome(program_id, accounts, instruction, now)->Ok_0.accounts[j].in_use(),
{
    if rewritten_slots(instruction).contains(j) {
        let after = process_outcome(program_id, accounts, instruction, now)->Ok_0.accounts[j];
        lemma_initialized_record_is_in_use(accounts[j]);
        lemma_initialized_record_is_in_use(after);
        if let Some(task) = accounts[j].holds::<TaskView>() {
            lemma_task_stays_where_it_is(accounts[j], task, TaskStatus::Staked, now);
            lemma_task_stays_where_it_is(accounts[j], task, TaskStatus::Submitted, now);
            lemma_task_stays_where_it_is(accounts[j], task, TaskStatus::Judged, now);
            lemma_task_stays_where_it_is(accounts[j], task, TaskStatus::Completed, now);
        }
        if let Some(stake) = accounts[j].holds::<Stake>() {
            let released = released_stake(stake, StakeStatus::Returned, now);
            if accounts[j].can_hold(released) {
                lemma_holds_what_was_written(accounts[j], released);
            }
        }
        if let XaamInstructionView::JudgeDeliverable { score, feedback } = instruction {
            if let Some(deliverable) = accounts[j].holds::<DeliverableView>() {
                let scored = judged_deliverable(
                    deliverable,
                    DeliverableStatus::Judged,
                    score,
                    feedback,
                );
                if accounts[j].can_hold(scored) {
                    lemma_holds_what_was_written(accounts[j], scored);
                }
            }
        }
    } else {
        lemma_cells_in_use_are_kept(program_id, accounts, instruction, now, j);
    }
}

/// A task only moves forward. Whatever instruction makes a task or works
/// on one, if it goes through, the cell of the task holds a task
/// afterwards. `InitializeTask` makes it, `Created`, in a cell that was
/// free. Every other instruction leaves the task in a status no earlier
/// than the one it was in, and otherwise the task it was, touched at `now`.
/// So an initialized task keeps its creator and its deadline and never
/// has an earlier status afterwards.
pub proof fn lemma_task_never_moves_back(
    program_id: Pubkey,
    accounts: Seq<AccountView>,
    instruction: XaamInstructionView,
    now: UnixTimestamp,
)
    requires
        process_outcome(program_id, accounts, instruction, now) is Ok,
        task_slot(instruction) is Some,
    ensures
        ({
            let outcome = process_outcome(program_id, accounts, instruction, now)->Ok_0;
            let k = task_slot(instruction)->Some_0;
            let before = accounts[k].holds::<TaskView>();
            let after = outcome.accounts[k].holds::<TaskView>();
            &&& 0 <= k < accounts.len()
            &&& after is Some
            &&& instruction is InitializeTask ==> !accounts[k].in_use() && after->Some_0.status
                == TaskStatus::Created && after->Some_0.is_initialized
            &&& !(instruction is InitializeTask) ==> before is Some && before->Some_0.status.tag()
                <= after->Some_0.status.tag() && (after == before || after->Some_0 == moved_task(
                before->Some_0,
                after->Some_0.status,
                now,
            ))
            &&& before is Some && before->Some_0.is_initialized ==> after->Some_0.is_initialized
                && before->Some_0.status.tag() <= after->Some_0.status.tag()
                && after->Some_0.creator_id == before->Some_0.creator_id
                && after->Some_0.deadline == before->Some_0.deadline
        }),
{
    let k = task_slot(instruction)->Some_0;
    lemma_initialized_record_is_in_use(accounts[k]);
    match instruction {
        XaamInstructionView::InitializeTask {
            title,
            summary,
            encrypted_payload_url,
            deadline,
            reward_amount,
            reward_currency,
            judges,
        } => {
            lemma_task_starts_created(
                program_id,
                accounts,
                title,
                summary,
                encrypted_payload_url,
                deadline,
                reward_amount,
                reward_currency,
                judges,
                now,
            );
        },
        XaamInstructionView::StakeOnTask { .. } => {
            let before = accounts[k].holds::<TaskView>()->Some_0;
            let status = before.status.after(TaskStep::Stake)->Ok_0;
            lemma_task_steps_forward(before.status, TaskStep::Stake);
            lemma_holds_what_was_written(accounts[k], moved_task(before, status, now));
        },
        XaamInstructionView::SubmitDeliverable { .. } => {
            let before = accounts[k].holds::<TaskView>()->Some_0;
            let status = before.status.after(TaskStep::Submit)->Ok_0;
            lemma_task_steps_forward(before.status, TaskStep::Submit);
            lemma_holds_what_was_written(accounts[k], moved_task(before, status, now));
        },
        XaamInstructionView::JudgeDeliverable { .. } => {
            let before = accounts[k].holds::<TaskView>()->Some_0;
            let status = before.status.after(TaskStep::Judge)->Ok_0;
            lemma_task_steps_forward(before.status, TaskStep::Judge);
            lemma_holds_what_was_written(accounts[k], moved_task(before, status, now));
        },
        XaamInstructionView::CompleteTask { .. } => {
            let before = accounts[k].holds::<TaskView>()->Some_0;
            let status = before.status.after(TaskStep::Complete)->Ok_0;
            lemma_task_steps_forward(before.status, TaskStep::Complete);
            lemma_holds_what_was_written(accounts[k], moved_task(before, status, now));
        },
        _ => {},
    }
}

/// An initialized task is never lost. Whatever the instruction and
/// wherever among its accounts the cell of the task stands, if the
/// instruction goes through, the cell still holds an initialized task with
/// the same creator and deadline and in a status no earlier. The one
/// exception is a cell handed in where `JudgeDeliverable` expects the
/// deliverable or `ReturnStake` the stake, and that reads as one of those
/// too: records carry no mark of their kind.
pub proof fn lemma_initialized_task_is_kept(
    program_id: Pubkey,
    accounts: Seq<AccountView>,
    instruction: XaamInstructionView,
    now: UnixTimestamp,
    j: int,
)
    requires
        process_outcome(program_id, accounts, instruction, now) is Ok,
        0 <= j < accounts.len(),
        accounts[j].holds::<TaskView>() is Some,
        accounts[j].holds::<TaskView>()->Some_0.is_initialized,
        !(instruction is JudgeDeliverable && j == 1),
        !(instruction is ReturnStake && j == 1),
    ensures
        ({
            let outcome = process_outcome(program_id, accounts, instruction, now)->Ok_0;
            let before = accounts[j].holds::<TaskView>()->Some_0;
            let after = outcome.accounts[j].holds::<TaskView>();
            &&& after is Some
            &&& after->Some_0.is_initialized
            &&& before.status.tag() <= after->Some_0.status.tag()
            &&& after->Some_0.creator_id == before.creator_id
            &&& after->Some_0.deadline == before.deadline
        }),
{
    lemma_initialized_record_is_in_use(accounts[j]);
    if rewritten_slots(instruction).contains(j) {
        lemma_task_never_moves_back(program_id, accounts, instruction, now);
    } else {
        lemma_cells_in_use_are_kept(program_id, accounts, instruction, now, j);
    }
}

/// An agent is registered once. Whatever the instruction and wherever
/// among its accounts the cell of an initialized agent stands, if the
/// instruction goes through, the cell holds the same agent afterwards, of
/// the same kind and with the same reputation and counters. The one
/// exception is a cell handed in where an instruction expects the record
/// that it rewrites, and that reads as one of those too.
pub proof fn lemma_initialized_agent_is_kept(
    program_id: Pubkey,
    accounts: Seq<AccountView>,
    instruction: XaamInstructionView,
    now: UnixTimestamp,
    j: int,
)
    requires
        process_outcome(program_id, accounts, instruction, now) is Ok,
        0 <= j < accounts.len(),
        accounts[j].holds::<AgentView>() is Some,
        accounts[j].holds::<AgentView>()->Some_0.is_initialized,
        !rewritten_slots(instruction).contains(j),
    ensures
        process_outcome(program_id, accounts, instruction, now)->Ok_0.accounts[j].holds::<
            AgentView,
        >() == accounts[j].holds::<AgentView>(),
{
    lemma_initialized_record_is_in_use(accounts[j]);
    lemma_cells_in_use_are_kept(program_id, accounts, instruction, now, j);
}

/// A task is made in its first status: the cell that `InitializeTask`
/// writes holds the new task, which is `Created`.
pub proof fn lemma_task_starts_created(
    program_id: Pubkey,
    accounts: Seq<AccountView>,
    title: Seq<char>,
    summary: Seq<char>,
    encrypted_payload_url: Seq<char>,
    deadline: UnixTimestamp,
    reward_amount: u64,
    reward_currency: Seq<char>,
    judges: Seq<Pubkey>,
    now: UnixTimestamp,
)
    ensures
        initialize_task_outcome(
            program_id,
            accounts,
            title,
            summary,
            encrypted_payload_url,
            deadline,
            reward_amount,
            reward_currency,
            judges,
            now,
        ) matches Ok(outcome) ==> ({
            &&& outcome.accounts[1].holds::<TaskView>() matches Some(task)
            &&& task == new_task(
                accounts[0].key,
                accounts[2].key,
                title,
                summary,
                encrypted_payload_url,
                deadline,
                reward_amount,
                reward_currency,
                judges,
                now,
            )
            &&& task.status == TaskStatus::Created
            &&& task.is_initialized
            &&& task.deadline > now
        }),
{
    if initialize_task_outcome(
        program_id,
        accounts,
        title,
        summary,
        encrypted_payload_url,
        deadline,
        reward_amount,
        reward_currency,
        judges,
        now,
    ) is Ok {
        lemma_holds_what_was_written(
            accounts[1],
            new_task(
                accounts[0].key,
                accounts[2].key,
                title,
                summary,
                encrypted_payload_url,
                deadline,
                reward_amount,
                reward_currency,
                judges,
                now,
            ),
        );
    }
}

/// No task is made with a deadline that has passed: `InitializeTask` with
/// a deadline at or before `now` never goes through, and once the accounts
/// have passed their checks the reason given is `TaskDeadlineExpired`.
pub proof fn lemma_initialize_task_deadline(
    program_id: Pubkey,
    accounts: Seq<AccountView>,
    title: Seq<char>,
    summary: Seq<char>,
    encrypted_payload_url: Seq<char>,
    deadline: UnixTimestamp,
    reward_amount: u64,
    reward_currency: Seq<char>,
    judges: Seq<Pubkey>,
    now: UnixTimestamp,
)
    requires
        deadline <= now,
    ensures
        initialize_task_outcome(
            program_id,
            accounts,
            title,
            summary,
            encrypted_payload_url,
            deadline,
            reward_amount,
            reward_currency,
            judges,
            now,
        ) is Err,
        accounts.len() >= 6 && accounts[0].is_signer && accounts[1].owner == program_id
            ==> initialize_task_outcome(
            program_id,
            accounts,
            title,
            summary,
            encrypted_payload_url,
            deadline,
            reward_amount,
            reward_currency,
            judges,
            now,
        ) == Err::<Outcome, ProgramError>(XaamError::TaskDeadlineExpired.surfaced()),
{
}

/// No stake is taken on a task whose deadline has passed: `StakeOnTask`
/// then never goes through, and once the accounts have passed their checks
/// and the task is found `Created`, the reason given is
/// `TaskDeadlineExpired`.
pub proof fn lemma_stake_on_task_deadline(
    program_id: Pubkey,
    accounts: Seq<AccountView>,
    amount: u64,
    now: UnixTimestamp,
)
    requires
        accounts.len() > 2,
        accounts[2].holds::<TaskView>() matches Some(task) && task.deadline <= now,
    ensures
        stake_on_task_outcome(program_id, accounts, amount, now) is Err,
        accounts.len() >= 6 && accounts[0].is_signer && accounts[1].owner == program_id
            && accounts[2].owner == program_id && accounts[3].owner == program_id
            && accounts[2].holds::<TaskView>()->Some_0.status == TaskStatus::Created
            ==> stake_on_task_outcome(program_id, accounts, amount, now) == Err::<
            Outcome,
            ProgramError,
        >(XaamError::TaskDeadlineExpired.surfaced()),
{
}

/// No deliverable is taken for a task whose deadline has passed:
/// `SubmitDeliverable` then never goes through, and once the accounts have
/// passed their checks and the task is found staked or in progress, the
/// reason given is `TaskDeadlineExpired`.
pub proof fn lemma_submit_deliverable_deadline(
    program_id: Pubkey,
    accounts: Seq<AccountView>,
    encrypted_content_url: Seq<char>,
    encryption_keys: Seq<(Pubkey, Seq<char>)>,
    now: UnixTimestamp,
)
    requires
        accounts.len() > 2,
        accounts[2].holds::<TaskView>() matches Some(task) && task.deadline <= now,
    ensures
        submit_deliverable_outcome(
            program_id,
            accounts,
            encrypted_content_url,
            encryption_keys,
            now,
        ) is Err,
        accounts.len() >= 6 && accounts[0].is_signer && accounts[1].owner == program_id
            && accounts[2].owner == program_id && accounts[3].owner == program_id && (
        accounts[2].holds::<TaskView>()->Some_0.status == TaskStatus::Staked
            || accounts[2].holds::<TaskView>()->Some_0.status == TaskStatus::InProgress)
            ==> submit_deliverable_outcome(
            program_id,
            accounts,
            encrypted_content_url,
            encryption_keys,
            now,
        ) == Err::<Outcome, ProgramError>(XaamError::TaskDeadlineExpired.surfaced()),
{
}

/// No deliverable is judged for a task whose deadline has passed.
pub proof fn lemma_judge_deliverable_deadline(
    program_id: Pubkey,
    accounts: Seq<AccountView>,
    score: u8,
    feedback: Seq<char>,
    now: UnixTimestamp,
)
    requires
        accounts.len() > 2,
        accounts[2].holds::<TaskView>() matches Some(task) && task.deadline <= now,
    ensures
        judge_deliverable_outcome(program_id, accounts, score, feedback, now) is Err,
{
}

/// Only its creator completes a task. `CompleteTask` on a task that the
/// signer did not create never goes through, and once the accounts have
/// passed their checks the reason given is `Unauthorized`, whatever status
/// the task is in.
pub proof fn lemma_only_creator_completes(
    program_id: Pubkey,
    accounts: Seq<AccountView>,
    now: UnixTimestamp,
)
    requires
        accounts.len() > 1,
        accounts[1].holds::<TaskView>() matches Some(task) && task.creator_id != accounts[0].key,
    ensures
        complete_task_outcome(program_id, accounts, now) is Err,
        accounts.len() >= 7 && accounts[0].is_signer && accounts[1].owner == program_id
            ==> complete_task_outcome(program_id, accounts, now) == Err::<Outcome, ProgramError>(
            XaamError::Unauthorized.surfaced(),
        ),
{
}

/// Only workers stake. `StakeOnTask` with an agent that is no worker never
/// goes through, and once the accounts have passed their checks and the
/// task is found `Created` and within its deadline, the reason given is
/// `InvalidAgentState`.
pub proof fn lemma_only_workers_stake(
    program_id: Pubkey,
    accounts: Seq<AccountView>,
    amount: u64,
    now: UnixTimestamp,
)
    requires
        accounts.len() > 3,
        accounts[3].holds::<AgentView>() matches Some(agent) && agent.agent_type
            != AgentType::Worker,
    ensures
        stake_on_task_outcome(program_id, accounts, amount, now) is Err,
        accounts.len() >= 6 && accounts[0].is_signer && accounts[1].owner == program_id
            && accounts[2].owner == program_id && accounts[3].owner == program_id && (
        accounts[2].holds::<TaskView>() matches Some(task) && task.status == TaskStatus::Created
            && task.deadline > now) ==> stake_on_task_outcome(program_id, accounts, amount, now)
            == Err::<Outcome, ProgramError>(XaamError::InvalidAgentState.surfaced()),
{
}

/// A task names at most five judges. `InitializeTask` with more never goes
/// through, and once the accounts and the deadline have passed their checks
/// the reason given is `InvalidArgument`. With five or fewer, texts short
/// enough to travel and a free cell long enough for the task, it goes
/// through;
/// the task then names the judges given, in order, in its first slots, and
/// its other slots are empty.
pub proof fn lemma_judge_cap(
    program_id: Pubkey,
    accounts: Seq<AccountView>,
    title: Seq<char>,
    summary: Seq<char>,
    encrypted_payload_url: Seq<char>,
    deadline: UnixTimestamp,
    reward_amount: u64,
    reward_currency: Seq<char>,
    judges: Seq<Pubkey>,
    now: UnixTimestamp,
)
    ensures
        judges.len() > MAX_JUDGES ==> initialize_task_outcome(
            program_id,
            accounts,
            title,
            summary,
            encrypted_payload_url,
            deadline,
            reward_amount,
            reward_currency,
            judges,
            now,
        ) is Err,
        judges.len() > MAX_JUDGES && accounts.len() >= 6 && accounts[0].is_signer
            && accounts[1].owner == program_id && deadline > now ==> initialize_task_outcome(
            program_id,
            accounts,
            title,
            summary,
            encrypted_payload_url,
            deadline,
            reward_amount,
            reward_currency,
            judges,
            now,
        ) == Err::<Outcome, ProgramError>(ProgramError::InvalidArgument),
        judges.len() <= MAX_JUDGES && accounts.len() >= 6 && accounts[0].is_signer
            && accounts[1].owner == program_id && deadline > now && !accounts[1].in_use()
            && title.wire_ok() && summary.wire_ok() && encrypted_payload_url.wire_ok() && reward_currency.wire_ok()
            && new_task(
            accounts[0].key,
            accounts[2].key,
            title,
            summary,
            encrypted_payload_url,
            deadline,
            reward_amount,
            reward_currency,
            judges,
            now,
        ).wire_bytes().len() <= accounts[1].data.len() ==> initialize_task_outcome(
            program_id,
            accounts,
            title,
            summary,
            encrypted_payload_url,
            deadline,
            reward_amount,
            reward_currency,
            judges,
            now,
        ) is Ok,
        initialize_task_outcome(
            program_id,
            accounts,
            title,
            summary,
            encrypted_payload_url,
            deadline,
            reward_amount,
            reward_currency,
            judges,
            now,
        ) matches Ok(outcome) ==> ({
            &&& outcome.accounts[1].holds::<TaskView>() matches Some(task)
            &&& judges.len() <= MAX_JUDGES
            &&& task.judges.len() == MAX_JUDGES
            &&& forall|i: int|
                0 <= i < MAX_JUDGES ==> #[trigger] task.judges[i] == (if i < judges.len() {
                    Some(judges[i])
                } else {
                    None::<Pubkey>
                })
        }),
{
    lemma_task_starts_created(
        program_id,
        accounts,
        title,
        summary,
        encrypted_payload_url,
        deadline,
        reward_amount,
        reward_currency,
        judges,
        now,
    );
    if judges.len() <= MAX_JUDGES && accounts.len() >= 6 && title.wire_ok() && summary.wire_ok()
        && encrypted_payload_url.wire_ok() && reward_currency.wire_ok() {
        reveal(AccountView::can_hold);
        crate::state::lemma_task_travels(
            new_task(
                accounts[0].key,
                accounts[2].key,
                title,
                summary,
                encrypted_payload_url,
                deadline,
                reward_amount,
                reward_currency,
                judges,
                now,
            ),
            judges,
        );
    }
}

/// An instruction changes nothing but the bytes of the cells that it is
/// declared to write: every account keeps its key, its owner, its balance
/// and the size of its cell, and every other account keeps its bytes too.
pub proof fn lemma_only_declared_cells_change(
    program_id: Pubkey,
    accounts: Seq<AccountView>,
    instruction: XaamInstructionView,
    now: UnixTimestamp,
)
    ensures
        process_outcome(program_id, accounts, instruction, now) matches Ok(outcome) ==> ({
            &&& outcome.accounts.len() == accounts.len()
            &&& forall|j: int|
                0 <= j < accounts.len() ==> same_but_for_bytes(
                    accounts[j],
                    #[trigger] outcome.accounts[j],
                ) && (!written_slots(instruction).contains(j) ==> outcome.accounts[j]
                    == accounts[j])
        }),
{
    let outcome = process_outcome(program_id, accounts, instruction, now);
    if outcome is Ok {
        let after = outcome->Ok_0.accounts;
        assert(after.len() == accounts.len());
        assert forall|j: int| 0 <= j < accounts.len() implies same_but_for_bytes(
            accounts[j],
            #[trigger] after[j],
        ) && (!written_slots(instruction).contains(j) ==> after[j] == accounts[j]) by {
            lemma_written_cell_keeps_its_frame(accounts[j], after[j]);
        }
    }
}

/// A cell that a record was written to differs from what it was in nothing
/// but its bytes.
proof fn lemma_written_cell_keeps_its_frame(before: AccountView, after: AccountView)
    ensures
        after == before ==> same_but_for_bytes(before, after),
        forall|task: TaskView|
            before.can_hold(task) && after == #[trigger] before.with_record(task)
                ==> same_but_for_bytes(before, after),
        forall|agent: AgentView|
            before.can_hold(agent) && after == #[trigger] before.with_record(agent)
                ==> same_but_for_bytes(before, after),
        forall|judge: JudgeView|
            before.can_hold(judge) && after == #[trigger] before.with_record(judge)
                ==> same_but_for_bytes(before, after),
        forall|stake: Stake|
            before.can_hold(stake) && after == #[trigger] before.with_record(stake)
                ==> same_but_for_bytes(before, after),
        forall|deliverable: DeliverableView|
            before.can_hold(deliverable) && after == #[trigger] before.with_record(deliverable)
                ==> same_but_for_bytes(before, after),
{
    reveal(AccountView::with_record);
    reveal(AccountView::can_hold);
}

/// Decoding undoes encoding, for every kind of record and for every
/// instruction: the bytes of a value decode to that value, as a payload and
/// at the start of a cell, whatever slack the cell has after them.
pub proof fn lemma_everything_round_trips(
    task: TaskView,
    agent: AgentView,
    judge: JudgeView,
    stake: Stake,
    wallet: Wallet,
    deliverable: DeliverableView,
    instruction: XaamInstructionView,
    slack: Seq<u8>,
)
    ensures
        task.wire_ok() ==> decode_all::<TaskView>(task.wire_bytes()) == Some(task) && decode_front::<
            TaskView,
        >(task.wire_bytes() + slack) == Some(task),
        agent.wire_ok() ==> decode_all::<AgentView>(agent.wire_bytes()) == Some(agent)
            && decode_front::<AgentView>(agent.wire_bytes() + slack) == Some(agent),
        judge.wire_ok() ==> decode_all::<JudgeView>(judge.wire_bytes()) == Some(judge)
            && decode_front::<JudgeView>(judge.wire_bytes() + slack) == Some(judge),
        stake.wire_ok() ==> decode_all::<Stake>(stake.wire_bytes()) == Some(stake) && decode_front::<
            Stake,
        >(stake.wire_bytes() + slack) == Some(stake),
        wallet.wire_ok() ==> decode_all::<Wallet>(wallet.wire_bytes()) == Some(wallet)
            && decode_front::<Wallet>(wallet.wire_bytes() + slack) == Some(wallet),
        deliverable.wire_ok() ==> decode_all::<DeliverableView>(deliverable.wire_bytes()) == Some(
            deliverable,
        ) && decode_front::<DeliverableView>(deliverable.wire_bytes() + slack) == Some(
            deliverable,
        ),
        instruction.wire_ok() ==> decode_all::<XaamInstructionView>(instruction.wire_bytes())
            == Some(instruction),
{
    if task.wire_ok() {
        lemma_decode_all_encode(task);
        lemma_decode_front_encode(task, slack);
    }
    if agent.wire_ok() {
        lemma_decode_all_encode(agent);
        lemma_decode_front_encode(agent, slack);
    }
    if judge.wire_ok() {
        lemma_decode_all_encode(judge);
        lemma_decode_front_encode(judge, slack);
    }
    if stake.wire_ok() {
        lemma_decode_all_encode(stake);
        lemma_decode_front_encode(stake, slack);
    }
    if wallet.wire_ok() {
        lemma_decode_all_encode(wallet);
        lemma_decode_front_encode(wallet, slack);
    }
    if deliverable.wire_ok() {
        lemma_decode_all_encode(deliverable);
        lemma_decode_front_encode(deliverable, slack);
    }
    if instruction.wire_ok() {
        lemma_decode_all_encode(instruction);
    }
}

/// A cell that holds a task can hold it again after a step: a step changes
/// neither the texts nor the judges of a task.
pub proof fn lemma_moved_task_fits(
    cell: AccountView,
    task: TaskView,
    status: TaskStatus,
    now: UnixTimestamp,
)
    requires
        cell.holds::<TaskView>() == Some(task),
    ensures
        cell.can_hold(moved_task(task, status, now)),
{
    reveal(AccountView::holds);
    reveal(AccountView::can_hold);
    lemma_encode_decode_front::<TaskView>(cell.data);
    lemma_task_size_is_kept(task, status, now);
}

/// When a stake is taken. `StakeOnTask` goes through exactly when it is
/// given its six accounts, the first has signed, the program owns the
/// three cells, the task is `Created` and within its deadline, the agent is
/// a worker, and the stake cell is free and has room for the 83 bytes of a
/// new stake.
pub proof fn lemma_when_stake_is_taken(
    program_id: Pubkey,
    accounts: Seq<AccountView>,
    amount: u64,
    now: UnixTimestamp,
)
    ensures
        stake_on_task_outcome(program_id, accounts, amount, now) is Ok <==> ({
            &&& accounts.len() >= 6
            &&& accounts[0].is_signer
            &&& accounts[1].owner == program_id
            &&& accounts[2].owner == program_id
            &&& accounts[3].owner == program_id
            &&& accounts[2].holds::<TaskView>() matches Some(task)
            &&& task.status == TaskStatus::Created
            &&& task.deadline > now
            &&& accounts[3].holds::<AgentView>() matches Some(agent)
            &&& agent.agent_type == AgentType::Worker
            &&& !accounts[1].in_use()
            &&& accounts[1].data.len() >= 83
        }),
{
    if accounts.len() >= 6 {
        let stake = new_stake(accounts[2].key, accounts[3].key, amount, now);
        lemma_stake_size(stake);
        reveal(AccountView::can_hold);
        if let Some(task) = accounts[2].holds::<TaskView>() {
            lemma_moved_task_fits(accounts[2], task, TaskStatus::Staked, now);
        }
    }
}

/// When a task is completed. `CompleteTask` goes through exactly when it
/// is given its seven accounts, the first has signed and is the creator of
/// the task, the program owns the task cell, and the task is `Judged`.
pub proof fn lemma_when_task_is_completed(
    program_id: Pubkey,
    accounts: Seq<AccountView>,
    now: UnixTimestamp,
)
    ensures
        complete_task_outcome(program_id, accounts, now) is Ok <==> ({
            &&& accounts.len() >= 7
            &&& accounts[0].is_signer
            &&& accounts[1].owner == program_id
            &&& accounts[1].holds::<TaskView>() matches Some(task)
            &&& task.creator_id == accounts[0].key
            &&& task.status == TaskStatus::Judged
        }),
{
    if accounts.len() >= 7 {
        if let Some(task) = accounts[1].holds::<TaskView>() {
            lemma_moved_task_fits(accounts[1], task, TaskStatus::Completed, now);
        }
    }
}

/// When a stake is returned. `ReturnStake` goes through exactly when it is
/// given its four accounts, the first has signed, the program owns the two
/// cells, the stake is active, and its cell has room for the 91 bytes of a
/// released stake. Who the signer is, is not checked: any signer will do.
pub proof fn lemma_when_stake_is_returned(
    program_id: Pubkey,
    accounts: Seq<AccountView>,
    now: UnixTimestamp,
)
    ensures
        return_stake_outcome(program_id, accounts, now) is Ok <==> ({
            &&& accounts.len() >= 4
            &&& accounts[0].is_signer
            &&& accounts[1].owner == program_id
            &&& accounts[2].owner == program_id
            &&& accounts[1].holds::<Stake>() matches Some(stake)
            &&& stake.status == StakeStatus::Active
            &&& accounts[1].data.len() >= 91
        }),
{
    if accounts.len() >= 4 {
        if let Some(stake) = accounts[1].holds::<Stake>() {
            let released = released_stake(stake, StakeStatus::Returned, now);
            reveal(AccountView::can_hold);
            if released.wire_ok() {
                lemma_stake_size(released);
            }
        }
    }
}


/// A request is routed to the handler of its instruction, and to no other:
/// carrying out the bytes of an instruction is carrying out the
/// instruction.
pub proof fn lemma_request_reaches_its_handler(
    program_id: Pubkey,
    accounts: Seq<AccountView>,
    instruction: XaamInstructionView,
    now: UnixTimestamp,
)
    requires
        instruction.wire_ok(),
    ensures
        process_instruction_outcome(program_id, accounts, instruction.wire_bytes(), now)
            == process_outcome(program_id, accounts, instruction, now),
{
    lemma_decode_all_encode(instruction);
}

/// A task carries one active stake at a time. Once a stake has been taken
/// on a task, every further `StakeOnTask` on the same accounts is refused
/// with `InvalidTaskState`, whatever the amount and whenever it comes.
pub proof fn lemma_no_second_stake(
    program_id: Pubkey,
    accounts: Seq<AccountView>,
    amount: u64,
    now: UnixTimestamp,
    next_amount: u64,
    later: UnixTimestamp,
)
    requires
        stake_on_task_outcome(program_id, accounts, amount, now) is Ok,
    ensures
        stake_on_task_outcome(program_id, accounts, amount, now) matches Ok(outcome)
            && stake_on_task_outcome(program_id, outcome.accounts, next_amount, later) == Err::<
            Outcome,
            ProgramError,
        >(XaamError::InvalidTaskState.surfaced()),
{
    let task = accounts[2].holds::<TaskView>()->Some_0;
    let stake = new_stake(accounts[2].key, accounts[3].key, amount, now);
    lemma_holds_what_was_written(accounts[1], stake);
    lemma_holds_what_was_written(accounts[2], moved_task(task, TaskStatus::Staked, now));
}


/// When an agent is registered. `RegisterAgent` goes through exactly when
/// it is given its four accounts, the first has signed, the program owns
/// the agent cell, and the cell is free and can hold the new agent.
pub proof fn lemma_when_agent_is_registered(
    program_id: Pubkey,
    accounts: Seq<AccountView>,
    name: Seq<char>,
    description: Seq<char>,
    agent_type: AgentType,
    public_key: Seq<char>,
    now: UnixTimestamp,
)
    ensures
        register_agent_outcome(
            program_id,
            accounts,
            name,
            description,
            agent_type,
            public_key,
            now,
        ) is Ok <==> ({
            &&& accounts.len() >= 4
            &&& accounts[0].is_signer
            &&& accounts[1].owner == program_id
            &&& !accounts[1].in_use()
            &&& accounts[1].can_hold(
                new_agent(accounts[0].key, name, description, agent_type, public_key, now),
            )
        }),
{
}

/// When a judge is registered. `RegisterJudge` goes through exactly when
/// it is given its five accounts, the first has signed, the program owns
/// the two cells, the agent cell holds an initialized agent of the signer,
/// and the judge cell is free and can hold the new judge.
pub proof fn lemma_when_judge_is_registered(
    program_id: Pubkey,
    accounts: Seq<AccountView>,
    name: Seq<char>,
    description: Seq<char>,
    public_key: Seq<char>,
    specialization: Seq<char>,
    now: UnixTimestamp,
)
    ensures
        register_judge_outcome(
            program_id,
            accounts,
            name,
            description,
            public_key,
            specialization,
            now,
        ) is Ok <==> ({
            &&& accounts.len() >= 5
            &&& accounts[0].is_signer
            &&& accounts[1].owner == program_id
            &&& accounts[2].owner == program_id
            &&& accounts[2].holds::<AgentView>() matches Some(base)
            &&& base.is_initialized
            &&& base.wallet_address == accounts[0].key
            &&& !accounts[1].in_use()
            &&& accounts[1].can_hold(
                new_judge(base, name, description, public_key, specialization, now),
            )
        }),
{
}

/// When a deliverable is taken. `SubmitDeliverable` goes through exactly
/// when it is given its six accounts, the first has signed, the program
/// owns the three cells, the task is staked or in progress and within its
/// deadline, and the deliverable cell is free and can hold the new
/// deliverable.
pub proof fn lemma_when_deliverable_is_taken(
    program_id: Pubkey,
    accounts: Seq<AccountView>,
    encrypted_content_url: Seq<char>,
    encryption_keys: Seq<(Pubkey, Seq<char>)>,
    now: UnixTimestamp,
)
    ensures
        submit_deliverable_outcome(
            program_id,
            accounts,
            encrypted_content_url,
            encryption_keys,
            now,
        ) is Ok <==> ({
            &&& accounts.len() >= 6
            &&& accounts[0].is_signer
            &&& accounts[1].owner == program_id
            &&& accounts[2].owner == program_id
            &&& accounts[3].owner == program_id
            &&& accounts[2].holds::<TaskView>() matches Some(task)
            &&& (task.status == TaskStatus::Staked || task.status == TaskStatus::InProgress)
            &&& task.deadline > now
            &&& !accounts[1].in_use()
            &&& accounts[1].can_hold(new_deliverable(encrypted_content_url, encryption_keys))
        }),
{
    if accounts.len() >= 6 {
        if let Some(task) = accounts[2].holds::<TaskView>() {
            lemma_moved_task_fits(accounts[2], task, TaskStatus::Submitted, now);
        }
    }
}

/// When a deliverable is judged. `JudgeDeliverable` goes through exactly
/// when it is given its five accounts, the first has signed, the program
/// owns the three cells, the score is at most a hundred, the task is
/// submitted, within its deadline and names the signer as a judge, the
/// judge cell holds an initialized judge of the signer, the deliverable is
/// submitted, and its cell can hold it with the score and the feedback.
pub proof fn lemma_when_deliverable_is_judged(
    program_id: Pubkey,
    accounts: Seq<AccountView>,
    score: u8,
    feedback: Seq<char>,
    now: UnixTimestamp,
)
    ensures
        judge_deliverable_outcome(program_id, accounts, score, feedback, now) is Ok <==> ({
            &&& accounts.len() >= 5
            &&& accounts[0].is_signer
            &&& accounts[1].owner == program_id
            &&& accounts[2].owner == program_id
            &&& accounts[3].owner == program_id
            &&& score <= MAX_SCORE
            &&& accounts[2].holds::<TaskView>() matches Some(task)
            &&& task.status == TaskStatus::Submitted
            &&& task.deadline > now
            &&& slots_hold(task.judges, accounts[0].key)
            &&& accounts[3].holds::<JudgeView>() matches Some(judge)
            &&& judge.agent.is_initialized
            &&& judge.agent.wallet_address == accounts[0].key
            &&& accounts[1].holds::<DeliverableView>() matches Some(deliverable)
            &&& deliverable.status == DeliverableStatus::Submitted
            &&& accounts[1].can_hold(
                judged_deliverable(deliverable, DeliverableStatus::Judged, score, feedback),
            )
        }),
{
    if accounts.len() >= 5 {
        if let Some(task) = accounts[2].holds::<TaskView>() {
            lemma_moved_task_fits(accounts[2], task, TaskStatus::Judged, now);
        }
    }
}

/// When a token is burnt. `BurnTaskNFT` goes through exactly when it is
/// given its five accounts, the first has signed and is the creator of the
/// task, and the program owns the task cell. It then changes no account.
pub proof fn lemma_when_token_is_burnt(program_id: Pubkey, accounts: Seq<AccountView>)
    ensures
        burn_task_nft_outcome(program_id, accounts) is Ok <==> ({
            &&& accounts.len() >= 5
            &&& accounts[0].is_signer
            &&& accounts[1].owner == program_id
            &&& accounts[1].holds::<TaskView>() matches Some(task)
            &&& task.creator_id == accounts[0].key
        }),
        burn_task_nft_outcome(program_id, accounts) matches Ok(outcome) ==> outcome.accounts
            == accounts,
{
}


} // verus!
