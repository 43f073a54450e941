use xaam::account::Account;
use xaam::account::Clock;
use xaam::codec::from_cell;
use xaam::codec::to_bytes;
use xaam::error::ProgramError;
use xaam::error::XaamError;
use xaam::instruction::XaamInstruction;
use xaam::lifecycle::AgentType;
use xaam::lifecycle::DeliverableStatus;
use xaam::lifecycle::StakeStatus;
use xaam::lifecycle::TaskStatus;
use xaam::process_instruction;
use xaam::process_instruction_at;
use xaam::processor::Custody;
use xaam::processor::Processor;
use xaam::pubkey::Pubkey;
use xaam::state::Agent;
use xaam::state::Deliverable;
use xaam::state::Judge;
use xaam::state::Stake;
use xaam::state::Task;

const NOW: i64 = 1_700_000_000;

fn key(n: u8) -> Pubkey {
    Pubkey::new_from_array([n; 32])
}

fn program() -> Pubkey {
    key(200)
}

fn clock() -> Clock {
    Clock { unix_timestamp: NOW }
}

fn refusal(e: XaamError) -> Result<Custody, ProgramError> {
    Err(ProgramError::from(e))
}

fn signer(n: u8) -> Account {
    Account { key: key(n), is_signer: true, lamports: 1, owner: key(0), data: vec![] }
}

fn cell(n: u8, size: usize) -> Account {
    Account { key: key(n), is_signer: false, lamports: 1, owner: program(), data: vec![0; size] }
}

fn host(n: u8) -> Account {
    Account { key: key(n), is_signer: false, lamports: 1, owner: key(0), data: vec![] }
}

const CREATOR: u8 = 1;
const TASK: u8 = 2;
const MINT: u8 = 3;
const WORKER: u8 = 4;
const WORKER_AGENT: u8 = 5;
const STAKE: u8 = 6;
const JUDGE_OWNER: u8 = 7;
const JUDGE_AGENT: u8 = 8;
const JUDGE: u8 = 9;
const DELIVERABLE: u8 = 10;

/// A task with a deadline an hour ahead, a reward of 1000 and two judges.
fn created_task() -> Account {
    let mut accounts =
        vec![signer(CREATOR), cell(TASK, 400), host(MINT), host(100), host(101), host(102)];
    let r = Processor::process_initialize_task(
        &program(),
        &mut accounts,
        "Label the images".to_string(),
        "Ten thousand of them".to_string(),
        "https://example.org/p/1".to_string(),
        NOW + 3600,
        1000,
        "USDC".to_string(),
        vec![key(JUDGE_OWNER), key(50)],
        &clock(),
    );
    assert_eq!(r, Ok(Custody::MintTaskToken { mint: key(MINT) }));
    accounts.swap_remove(1)
}

fn registered_agent(owner: u8, at: u8, name: &str, kind: AgentType) -> Account {
    let mut accounts = vec![signer(owner), cell(at, 300), host(100), host(102)];
    let r = Processor::process_register_agent(
        &program(),
        &mut accounts,
        name.to_string(),
        "an agent".to_string(),
        kind,
        "pk".to_string(),
        &clock(),
    );
    assert_eq!(r, Ok(Custody::Nothing));
    accounts.swap_remove(1)
}

fn registered_judge() -> Account {
    let agent = registered_agent(JUDGE_OWNER, JUDGE_AGENT, "J1", AgentType::Judge);
    let mut accounts = vec![signer(JUDGE_OWNER), cell(JUDGE, 300), agent, host(100), host(102)];
    let r = Processor::process_register_judge(
        &program(),
        &mut accounts,
        "Judge One".to_string(),
        "judges labellings".to_string(),
        "jpk".to_string(),
        "languages".to_string(),
        &clock(),
    );
    assert_eq!(r, Ok(Custody::Nothing));
    accounts.swap_remove(1)
}

/// A worker registers and stakes 500 on the task.
fn staked() -> (Account, Account, Account) {
    let task = created_task();
    let agent = registered_agent(WORKER, WORKER_AGENT, "W1", AgentType::Worker);
    let mut accounts = vec![signer(WORKER), cell(STAKE, 91), task, agent, host(100), host(102)];
    let r = Processor::process_stake_on_task(&program(), &mut accounts, 500, &clock());
    assert_eq!(r, Ok(Custody::LockStake { amount: 500 }));
    let agent = accounts.swap_remove(3);
    let task = accounts.swap_remove(2);
    let stake = accounts.swap_remove(1);
    (stake, task, agent)
}

fn submitted() -> (Account, Account, Account, Account) {
    let (stake, task, agent) = staked();
    let mut accounts =
        vec![signer(WORKER), cell(DELIVERABLE, 300), task, agent, host(100), host(102)];
    let r = Processor::process_submit_deliverable(
        &program(),
        &mut accounts,
        "ipfs://work".to_string(),
        vec![(key(JUDGE_OWNER), "wrapped key".to_string())],
        &clock(),
    );
    assert_eq!(r, Ok(Custody::Nothing));
    let agent = accounts.swap_remove(3);
    let task = accounts.swap_remove(2);
    let deliverable = accounts.swap_remove(1);
    (stake, task, agent, deliverable)
}

fn judged() -> (Account, Account, Account, Account) {
    let (stake, task, agent, deliverable) = submitted();
    let mut accounts =
        vec![signer(JUDGE_OWNER), deliverable, task, registered_judge(), host(102)];
    let r = Processor::process_judge_deliverable(
        &program(),
        &mut accounts,
        85,
        "well done".to_string(),
        &clock(),
    );
    assert_eq!(r, Ok(Custody::Nothing));
    let task = accounts.swap_remove(2);
    let deliverable = accounts.swap_remove(1);
    (stake, task, agent, deliverable)
}

fn complete_accounts(creator: Account, task: Account) -> Vec<Account> {
    vec![creator, task, cell(WORKER_AGENT, 0), host(60), host(61), host(101), host(102)]
}

fn task_in(account: &Account) -> Task {
    from_cell::<Task>(&account.data).unwrap()
}

#[test]
fn a_task_is_created_with_two_judges() {
    let account = created_task();
    let task = task_in(&account);
    assert!(task.is_initialized());
    assert_eq!(task.status, TaskStatus::Created);
    assert_eq!(task.deadline, NOW + 3600);
    assert_eq!(task.reward_amount, 1000);
    assert_eq!(task.reward_currency, "USDC");
    assert_eq!(task.title, "Label the images");
    assert_eq!(task.creator_id, key(CREATOR));
    assert_eq!(task.nft_id, key(MINT));
    assert_eq!(task.judges, [Some(key(JUDGE_OWNER)), Some(key(50)), None, None, None]);
    assert_eq!(task.created_at, NOW);
    assert_eq!(task.updated_at, NOW);
    assert_eq!(account.data.len(), 400);
}

#[test]
fn a_worker_registers_and_stakes() {
    let agent_account = registered_agent(WORKER, WORKER_AGENT, "W1", AgentType::Worker);
    let agent = from_cell::<Agent>(&agent_account.data).unwrap();
    assert!(agent.is_initialized());
    assert_eq!(agent.name, "W1");
    assert_eq!(agent.agent_type, AgentType::Worker);
    assert_eq!(agent.reputation_score, 0);
    assert_eq!(agent.completed_tasks, 0);
    assert_eq!(agent.successful_tasks, 0);
    assert_eq!(agent.wallet_address, key(WORKER));
    assert_eq!(agent.created_at, NOW);

    let (stake_account, task_account, _) = staked();
    let stake = from_cell::<Stake>(&stake_account.data).unwrap();
    assert_eq!(
        stake,
        Stake {
            is_initialized: true,
            task_id: key(TASK),
            agent_id: key(WORKER_AGENT),
            amount: 500,
            status: StakeStatus::Active,
            staked_at: NOW,
            released_at: None,
        }
    );
    let task = task_in(&task_account);
    assert_eq!(task.status, TaskStatus::Staked);
    assert_eq!(task.updated_at, NOW);
    assert_eq!(task.reward_amount, 1000);
    assert_eq!(task.judges, [Some(key(JUDGE_OWNER)), Some(key(50)), None, None, None]);
}

#[test]
fn a_second_stake_on_a_staked_task_is_refused() {
    let (_, task, agent) = staked();
    let mut accounts = vec![signer(WORKER), cell(STAKE, 91), task, agent, host(100), host(102)];
    let before = accounts.clone();
    let r = Processor::process_stake_on_task(&program(), &mut accounts, 500, &clock());
    assert_eq!(r, refusal(XaamError::InvalidTaskState));
    assert_eq!(accounts, before);
}

#[test]
fn completing_before_judging_is_refused() {
    let (_, task, _) = staked();
    let mut accounts = complete_accounts(signer(CREATOR), task);
    let before = accounts.clone();
    let r = Processor::process_complete_task(&program(), &mut accounts, &clock());
    assert_eq!(r, refusal(XaamError::InvalidTaskState));
    assert_eq!(accounts, before);
}

#[test]
fn a_task_runs_its_whole_course() {
    let (stake, task, agent, deliverable) = judged();
    assert_eq!(task_in(&task).status, TaskStatus::Judged);
    let d = from_cell::<Deliverable>(&deliverable.data).unwrap();
    assert_eq!(d.status, DeliverableStatus::Judged);
    assert_eq!(d.score, 85);
    assert_eq!(d.feedback, "well done");
    assert_eq!(d.encrypted_content_url, "ipfs://work");
    assert_eq!(d.encryption_keys, vec![(key(JUDGE_OWNER), "wrapped key".to_string())]);

    let later = Clock { unix_timestamp: NOW + 10_000 };
    let mut accounts = complete_accounts(signer(CREATOR), task);
    let r = Processor::process_complete_task(&program(), &mut accounts, &later);
    assert_eq!(r, Ok(Custody::PayReward { amount: 1000 }));
    let done = task_in(&accounts[1]);
    assert_eq!(done.status, TaskStatus::Completed);
    assert_eq!(done.updated_at, NOW + 10_000);
    assert_eq!(done.created_at, NOW);

    let mut accounts = vec![signer(JUDGE_OWNER), stake, agent, host(102)];
    let r = Processor::process_return_stake(&program(), &mut accounts, &later);
    assert_eq!(r, Ok(Custody::ReleaseStake { amount: 500 }));
    let returned = from_cell::<Stake>(&accounts[1].data).unwrap();
    assert_eq!(returned.status, StakeStatus::Returned);
    assert_eq!(returned.released_at, Some(NOW + 10_000));
    assert_eq!(returned.amount, 500);
    assert_eq!(accounts[1].data.len(), 91);
}

#[test]
fn too_few_accounts_are_refused_by_every_handler() {
    let needed: [(XaamInstruction, usize); 9] = [
        (
            XaamInstruction::InitializeTask {
                title: "".to_string(),
                summary: "".to_string(),
                encrypted_payload_url: "".to_string(),
                deadline: NOW + 1,
                reward_amount: 0,
                reward_currency: "".to_string(),
                judges: vec![],
            },
            6,
        ),
        (
            XaamInstruction::RegisterAgent {
                name: "".to_string(),
                description: "".to_string(),
                agent_type: AgentType::Worker,
                public_key: "".to_string(),
            },
            4,
        ),
        (
            XaamInstruction::RegisterJudge {
                name: "".to_string(),
                description: "".to_string(),
                public_key: "".to_string(),
                specialization: "".to_string(),
            },
            5,
        ),
        (XaamInstruction::StakeOnTask { amount: 1 }, 6),
        (
            XaamInstruction::SubmitDeliverable {
                encrypted_content_url: "".to_string(),
                encryption_keys: vec![],
            },
            6,
        ),
        (XaamInstruction::JudgeDeliverable { score: 1, feedback: "".to_string() }, 5),
        (XaamInstruction::CompleteTask {}, 7),
        (XaamInstruction::ReturnStake {}, 4),
        (XaamInstruction::BurnTaskNFT {}, 5),
    ];
    for (instruction, count) in needed.iter() {
        let mut accounts: Vec<Account> = Vec::new();
        for i in 0..(*count - 1) {
            accounts.push(signer(i as u8));
        }
        let r = Processor::process(&program(), &mut accounts, instruction.clone(), &clock());
        assert_eq!(r, Err(ProgramError::NotEnoughAccountKeys));
        accounts.push(signer(99));
        let r = Processor::process(&program(), &mut accounts, instruction.clone(), &clock());
        assert_ne!(r, Err(ProgramError::NotEnoughAccountKeys));
    }
}

#[test]
fn a_missing_signature_is_refused_by_every_handler() {
    let all = [
        XaamInstruction::StakeOnTask { amount: 1 },
        XaamInstruction::JudgeDeliverable { score: 1, feedback: "".to_string() },
        XaamInstruction::CompleteTask {},
        XaamInstruction::ReturnStake {},
        XaamInstruction::BurnTaskNFT {},
        XaamInstruction::RegisterAgent {
            name: "".to_string(),
            description: "".to_string(),
            agent_type: AgentType::Worker,
            public_key: "".to_string(),
        },
    ];
    for instruction in all.iter() {
        let mut accounts: Vec<Account> = (0..7).map(|i| cell(i, 100)).collect();
        let before = accounts.clone();
        let r = Processor::process(&program(), &mut accounts, instruction.clone(), &clock());
        assert_eq!(r, Err(ProgramError::MissingRequiredSignature));
        assert_eq!(accounts, before);
    }
}

#[test]
fn a_cell_of_another_owner_is_refused() {
    let mut foreign = cell(TASK, 400);
    foreign.owner = key(77);
    let mut accounts = vec![signer(CREATOR), foreign, host(MINT), host(100), host(101), host(102)];
    let r = Processor::process_initialize_task(
        &program(),
        &mut accounts,
        "t".to_string(),
        "s".to_string(),
        "u".to_string(),
        NOW + 1,
        1,
        "USDC".to_string(),
        vec![],
        &clock(),
    );
    assert_eq!(r, refusal(XaamError::IncorrectProgramId));
    assert_eq!(accounts[1].data, vec![0; 400]);

    let (_, task, mut agent) = staked();
    agent.owner = key(77);
    let mut accounts = vec![signer(WORKER), cell(STAKE, 91), task, agent, host(100), host(102)];
    let r = Processor::process_stake_on_task(&program(), &mut accounts, 1, &clock());
    assert_eq!(r, refusal(XaamError::IncorrectProgramId));
}

#[test]
fn initialize_task_refuses_a_deadline_that_is_not_ahead() {
    for deadline in [NOW, NOW - 1, 0, i64::MIN] {
        let mut accounts =
            vec![signer(CREATOR), cell(TASK, 400), host(MINT), host(100), host(101), host(102)];
        let r = Processor::process_initialize_task(
            &program(),
            &mut accounts,
            "t".to_string(),
            "s".to_string(),
            "u".to_string(),
            deadline,
            1,
            "USDC".to_string(),
            vec![],
            &clock(),
        );
        assert_eq!(r, refusal(XaamError::TaskDeadlineExpired));
        assert_eq!(accounts[1].data, vec![0; 400]);
    }
}

#[test]
fn stake_and_submit_refuse_a_task_past_its_deadline() {
    let task = created_task();
    let agent = registered_agent(WORKER, WORKER_AGENT, "W1", AgentType::Worker);
    for late in [NOW + 3600, NOW + 3601] {
        let mut accounts = vec![
            signer(WORKER),
            cell(STAKE, 91),
            task.clone(),
            agent.clone(),
            host(100),
            host(102),
        ];
        let before = accounts.clone();
        let r = Processor::process_stake_on_task(
            &program(),
            &mut accounts,
            500,
            &Clock { unix_timestamp: late },
        );
        assert_eq!(r, refusal(XaamError::TaskDeadlineExpired));
        assert_eq!(accounts, before);
    }
    let (_, task, agent) = staked();
    let mut accounts =
        vec![signer(WORKER), cell(DELIVERABLE, 300), task, agent, host(100), host(102)];
    let before = accounts.clone();
    let r = Processor::process_submit_deliverable(
        &program(),
        &mut accounts,
        "c".to_string(),
        vec![],
        &Clock { unix_timestamp: NOW + 3600 },
    );
    assert_eq!(r, refusal(XaamError::TaskDeadlineExpired));
    assert_eq!(accounts, before);
}

#[test]
fn one_second_before_the_deadline_a_stake_is_taken() {
    let task = created_task();
    let agent = registered_agent(WORKER, WORKER_AGENT, "W1", AgentType::Worker);
    let mut accounts = vec![signer(WORKER), cell(STAKE, 83), task, agent, host(100), host(102)];
    let r = Processor::process_stake_on_task(
        &program(),
        &mut accounts,
        1,
        &Clock { unix_timestamp: NOW + 3599 },
    );
    assert_eq!(r, Ok(Custody::LockStake { amount: 1 }));
    assert_eq!(task_in(&accounts[2]).updated_at, NOW + 3599);
}

#[test]
fn only_the_creator_completes_whatever_the_status() {
    let (_, staked_task, _) = staked();
    let (_, judged_task, _, _) = judged();
    for task in [created_task(), staked_task, judged_task] {
        let mut accounts = complete_accounts(signer(WORKER), task);
        let before = accounts.clone();
        let r = Processor::process_complete_task(&program(), &mut accounts, &clock());
        assert_eq!(r, refusal(XaamError::Unauthorized));
        assert_eq!(accounts, before);
    }
}

#[test]
fn only_workers_stake() {
    let task = created_task();
    let agent = registered_agent(WORKER, WORKER_AGENT, "J", AgentType::Judge);
    let mut accounts = vec![signer(WORKER), cell(STAKE, 91), task, agent, host(100), host(102)];
    let before = accounts.clone();
    let r = Processor::process_stake_on_task(&program(), &mut accounts, 500, &clock());
    assert_eq!(r, refusal(XaamError::InvalidAgentState));
    assert_eq!(accounts, before);
}

fn initialize_with_judges(count: u8) -> (Result<Custody, ProgramError>, Account) {
    let mut accounts =
        vec![signer(CREATOR), cell(TASK, 400), host(MINT), host(100), host(101), host(102)];
    let judges: Vec<Pubkey> = (0..count).map(|i| key(30 + i)).collect();
    let r = Processor::process_initialize_task(
        &program(),
        &mut accounts,
        "t".to_string(),
        "s".to_string(),
        "u".to_string(),
        NOW + 1,
        1,
        "USDC".to_string(),
        judges,
        &clock(),
    );
    (r, accounts.swap_remove(1))
}

#[test]
fn more_than_five_judges_are_refused() {
    for count in [6u8, 7, 40] {
        let (r, task) = initialize_with_judges(count);
        assert_eq!(r, Err(ProgramError::InvalidArgument));
        assert_eq!(task.data, vec![0; 400]);
    }
}

#[test]
fn five_judges_fill_every_slot() {
    let (r, task) = initialize_with_judges(5);
    assert!(r.is_ok());
    assert_eq!(
        task_in(&task).judges,
        [Some(key(30)), Some(key(31)), Some(key(32)), Some(key(33)), Some(key(34))]
    );
}

#[test]
fn fewer_judges_leave_the_other_slots_empty() {
    let (r, task) = initialize_with_judges(0);
    assert!(r.is_ok());
    assert_eq!(task_in(&task).judges, [None; 5]);
    let (r, task) = initialize_with_judges(3);
    assert!(r.is_ok());
    assert_eq!(task_in(&task).judges, [Some(key(30)), Some(key(31)), Some(key(32)), None, None]);
}

#[test]
fn a_cell_too_small_for_its_record_is_refused_and_left_alone() {
    let mut accounts =
        vec![signer(CREATOR), cell(TASK, 100), host(MINT), host(100), host(101), host(102)];
    let r = Processor::process_initialize_task(
        &program(),
        &mut accounts,
        "t".to_string(),
        "s".to_string(),
        "u".to_string(),
        NOW + 1,
        1,
        "USDC".to_string(),
        vec![],
        &clock(),
    );
    assert_eq!(r, refusal(XaamError::InvalidAccountData));
    assert_eq!(accounts[1].data, vec![0; 100]);

    let task = created_task();
    let agent = registered_agent(WORKER, WORKER_AGENT, "W1", AgentType::Worker);
    let mut accounts = vec![signer(WORKER), cell(STAKE, 82), task, agent, host(100), host(102)];
    let before = accounts.clone();
    let r = Processor::process_stake_on_task(&program(), &mut accounts, 500, &clock());
    assert_eq!(r, refusal(XaamError::InvalidAccountData));
    assert_eq!(accounts, before);
}

#[test]
fn a_cell_that_holds_no_record_is_refused() {
    let agent = registered_agent(WORKER, WORKER_AGENT, "W1", AgentType::Worker);
    let mut garbage = cell(TASK, 400);
    garbage.data[0] = 9;
    let mut accounts = vec![signer(WORKER), cell(STAKE, 91), garbage, agent, host(100), host(102)];
    let r = Processor::process_stake_on_task(&program(), &mut accounts, 500, &clock());
    assert_eq!(r, refusal(XaamError::InvalidAccountData));

    let mut short = cell(TASK, 10);
    short.data[0] = 1;
    let mut accounts = complete_accounts(signer(CREATOR), short);
    let r = Processor::process_complete_task(&program(), &mut accounts, &clock());
    assert_eq!(r, refusal(XaamError::InvalidAccountData));
}

#[test]
fn a_judge_registers_over_an_agent_of_their_own() {
    let judge_account = registered_judge();
    let judge = from_cell::<Judge>(&judge_account.data).unwrap();
    assert!(judge.is_initialized());
    assert_eq!(judge.agent.name, "Judge One");
    assert_eq!(judge.agent.description, "judges labellings");
    assert_eq!(judge.agent.public_key, "jpk");
    assert_eq!(judge.agent.agent_type, AgentType::Judge);
    assert_eq!(judge.agent.wallet_address, key(JUDGE_OWNER));
    assert_eq!(judge.agent.reputation_score, 0);
    assert_eq!(judge.agent.created_at, NOW);
    assert_eq!(judge.specialization, "languages");
    assert_eq!(judge.judged_tasks, 0);
}

fn register_judge_over(agent: Account, owner: u8) -> Result<Custody, ProgramError> {
    let mut accounts = vec![signer(owner), cell(JUDGE, 300), agent, host(100), host(102)];
    let before = accounts.clone();
    let r = Processor::process_register_judge(
        &program(),
        &mut accounts,
        "n".to_string(),
        "d".to_string(),
        "k".to_string(),
        "s".to_string(),
        &clock(),
    );
    if r.is_err() {
        assert_eq!(accounts, before);
    }
    r
}

#[test]
fn a_judge_needs_an_agent_that_exists() {
    assert_eq!(
        register_judge_over(cell(JUDGE_AGENT, 300), JUDGE_OWNER),
        refusal(XaamError::InvalidAgentState)
    );
    assert_eq!(
        register_judge_over(cell(JUDGE_AGENT, 3), JUDGE_OWNER),
        refusal(XaamError::InvalidAccountData)
    );
}

#[test]
fn a_judge_registers_only_over_their_own_agent() {
    let agent = registered_agent(JUDGE_OWNER, JUDGE_AGENT, "J1", AgentType::Judge);
    assert_eq!(register_judge_over(agent, WORKER), refusal(XaamError::Unauthorized));
}

#[test]
fn submit_takes_a_task_that_is_staked_or_in_progress() {
    let (_, task, _, deliverable) = submitted();
    assert_eq!(task_in(&task).status, TaskStatus::Submitted);
    let d = from_cell::<Deliverable>(&deliverable.data).unwrap();
    assert!(d.is_initialized());
    assert_eq!(d.status, DeliverableStatus::Submitted);
    assert_eq!(d.score, 0);
    assert_eq!(d.feedback, "");

    let (_, staked_task, agent) = staked();
    let mut in_progress = task_in(&staked_task);
    in_progress.status = TaskStatus::InProgress;
    let mut task = cell(TASK, 400);
    task.data[..to_bytes(&in_progress).unwrap().len()]
        .copy_from_slice(&to_bytes(&in_progress).unwrap());
    let mut accounts =
        vec![signer(WORKER), cell(DELIVERABLE, 300), task, agent.clone(), host(100), host(102)];
    let r = Processor::process_submit_deliverable(
        &program(),
        &mut accounts,
        "c".to_string(),
        vec![],
        &clock(),
    );
    assert_eq!(r, Ok(Custody::Nothing));
    assert_eq!(task_in(&accounts[2]).status, TaskStatus::Submitted);

    let mut accounts =
        vec![signer(WORKER), cell(DELIVERABLE, 300), created_task(), agent, host(100), host(102)];
    let before = accounts.clone();
    let r = Processor::process_submit_deliverable(
        &program(),
        &mut accounts,
        "c".to_string(),
        vec![],
        &clock(),
    );
    assert_eq!(r, refusal(XaamError::InvalidTaskState));
    assert_eq!(accounts, before);
}

fn judge_with(
    caller: u8,
    deliverable: Account,
    task: Account,
    judge: Account,
    score: u8,
) -> Result<Custody, ProgramError> {
    let mut accounts = vec![signer(caller), deliverable, task, judge, host(102)];
    let before = accounts.clone();
    let r = Processor::process_judge_deliverable(
        &program(),
        &mut accounts,
        score,
        "f".to_string(),
        &clock(),
    );
    if r.is_err() {
        assert_eq!(accounts, before);
    }
    r
}

#[test]
fn a_score_above_a_hundred_is_refused() {
    let (_, task, _, deliverable) = submitted();
    assert_eq!(
        judge_with(JUDGE_OWNER, deliverable.clone(), task.clone(), registered_judge(), 101),
        refusal(XaamError::InvalidDeliverable)
    );
    assert_eq!(
        judge_with(JUDGE_OWNER, deliverable, task, registered_judge(), 100),
        Ok(Custody::Nothing)
    );
}

#[test]
fn only_a_judge_of_the_task_judges() {
    let (_, task, _, deliverable) = submitted();
    assert_eq!(
        judge_with(WORKER, deliverable, task, registered_judge(), 50),
        refusal(XaamError::Unauthorized)
    );
}

#[test]
fn a_judge_judges_with_a_registered_record_of_their_own() {
    let (_, task, _, deliverable) = submitted();
    assert_eq!(
        judge_with(JUDGE_OWNER, deliverable.clone(), task.clone(), cell(JUDGE, 300), 50),
        refusal(XaamError::InvalidJudgeState)
    );
    let agent = registered_agent(50, 51, "J2", AgentType::Judge);
    let mut accounts = vec![signer(50), cell(52, 300), agent, host(100), host(102)];
    let r = Processor::process_register_judge(
        &program(),
        &mut accounts,
        "n".to_string(),
        "d".to_string(),
        "k".to_string(),
        "s".to_string(),
        &clock(),
    );
    assert_eq!(r, Ok(Custody::Nothing));
    let other_judge = accounts.swap_remove(1);
    assert_eq!(
        judge_with(JUDGE_OWNER, deliverable, task, other_judge, 50),
        refusal(XaamError::Unauthorized)
    );
}

#[test]
fn a_deliverable_is_judged_once() {
    let (_, task, _, deliverable) = judged();
    assert_eq!(
        judge_with(JUDGE_OWNER, deliverable.clone(), task, registered_judge(), 10),
        refusal(XaamError::InvalidTaskState)
    );
    let (_, fresh_task, _, _) = submitted();
    assert_eq!(
        judge_with(JUDGE_OWNER, deliverable, fresh_task, registered_judge(), 10),
        refusal(XaamError::InvalidDeliverable)
    );
}

#[test]
fn judging_needs_a_submitted_task() {
    let (_, task, _) = staked();
    assert_eq!(
        judge_with(JUDGE_OWNER, cell(DELIVERABLE, 300), task, registered_judge(), 10),
        refusal(XaamError::InvalidTaskState)
    );
}

#[test]
fn a_stake_is_returned_once() {
    let (stake, _, agent) = staked();
    let mut accounts = vec![signer(JUDGE_OWNER), stake, agent, host(102)];
    let r = Processor::process_return_stake(&program(), &mut accounts, &clock());
    assert_eq!(r, Ok(Custody::ReleaseStake { amount: 500 }));
    let before = accounts.clone();
    let r = Processor::process_return_stake(&program(), &mut accounts, &clock());
    assert_eq!(r, refusal(XaamError::InvalidStakeState));
    assert_eq!(accounts, before);
}

#[test]
fn a_stake_cell_without_room_for_the_release_time_is_refused() {
    let task = created_task();
    let agent = registered_agent(WORKER, WORKER_AGENT, "W1", AgentType::Worker);
    let mut accounts = vec![signer(WORKER), cell(STAKE, 83), task, agent, host(100), host(102)];
    let r = Processor::process_stake_on_task(&program(), &mut accounts, 500, &clock());
    assert!(r.is_ok());
    let agent = accounts.swap_remove(3);
    let stake = accounts.swap_remove(1);
    let mut accounts = vec![signer(JUDGE_OWNER), stake, agent, host(102)];
    let before = accounts.clone();
    let r = Processor::process_return_stake(&program(), &mut accounts, &clock());
    assert_eq!(r, refusal(XaamError::InvalidAccountData));
    assert_eq!(accounts, before);
}

#[test]
fn only_the_creator_burns_the_token_and_no_cell_changes() {
    let task = created_task();
    let mut accounts = vec![signer(CREATOR), task.clone(), host(MINT), host(101), host(102)];
    let before = accounts.clone();
    let r = Processor::process_burn_task_nft(&program(), &mut accounts);
    assert_eq!(r, Ok(Custody::BurnTaskToken { mint: key(MINT) }));
    assert_eq!(accounts, before);
    let mut accounts = vec![signer(WORKER), task, host(MINT), host(101), host(102)];
    let r = Processor::process_burn_task_nft(&program(), &mut accounts);
    assert_eq!(r, refusal(XaamError::Unauthorized));
}

#[test]
fn a_request_that_goes_through_changes_only_the_cells_it_writes() {
    let task = created_task();
    let agent = registered_agent(WORKER, WORKER_AGENT, "W1", AgentType::Worker);
    let mut accounts = vec![signer(WORKER), cell(STAKE, 91), task, agent, host(100), host(102)];
    let before = accounts.clone();
    let r = Processor::process_stake_on_task(&program(), &mut accounts, 500, &clock());
    assert!(r.is_ok());
    for i in [0usize, 3, 4, 5] {
        assert_eq!(accounts[i], before[i]);
    }
    for i in [1usize, 2] {
        assert_ne!(accounts[i].data, before[i].data);
        assert_eq!(accounts[i].data.len(), before[i].data.len());
        assert_eq!(accounts[i].key, before[i].key);
        assert_eq!(accounts[i].owner, before[i].owner);
        assert_eq!(accounts[i].lamports, before[i].lamports);
    }
}

#[test]
fn a_request_is_decoded_and_dispatched() {
    let data = XaamInstruction::InitializeTask {
        title: "t".to_string(),
        summary: "s".to_string(),
        encrypted_payload_url: "u".to_string(),
        deadline: NOW + 3600,
        reward_amount: 1000,
        reward_currency: "USDC".to_string(),
        judges: vec![key(JUDGE_OWNER)],
    }
    .pack();
    let mut accounts =
        vec![signer(CREATOR), cell(TASK, 400), host(MINT), host(100), host(101), host(102)];
    let r = process_instruction_at(&program(), &mut accounts, &data, &clock());
    assert_eq!(r, Ok(Custody::MintTaskToken { mint: key(MINT) }));
    let task = task_in(&accounts[1]);
    assert_eq!(task.title, "t");
    assert_eq!(task.judges, [Some(key(JUDGE_OWNER)), None, None, None, None]);

    let agent = registered_agent(WORKER, WORKER_AGENT, "W1", AgentType::Worker);
    let task = accounts.swap_remove(1);
    let mut accounts = vec![signer(WORKER), cell(STAKE, 91), task, agent, host(100), host(102)];
    let r = process_instruction_at(&program(), &mut accounts, &[3, 0xf4, 1, 0, 0, 0, 0, 0, 0], &clock());
    assert_eq!(r, Ok(Custody::LockStake { amount: 500 }));
}

#[test]
fn a_request_that_is_no_instruction_is_refused() {
    let mut accounts =
        vec![signer(CREATOR), cell(TASK, 400), host(MINT), host(100), host(101), host(102)];
    let before = accounts.clone();
    for data in [vec![], vec![9u8], vec![3u8, 1, 2], vec![6u8, 0], vec![0u8, 0xff, 0xff, 0xff, 0xff]] {
        let r = process_instruction_at(&program(), &mut accounts, &data, &clock());
        assert_eq!(r, refusal(XaamError::InvalidInstructionData));
        assert_eq!(accounts, before);
    }
}

#[test]
fn without_a_clock_a_request_is_refused_and_changes_nothing() {
    let data = XaamInstruction::StakeOnTask { amount: 500 }.pack();
    let task = created_task();
    let agent = registered_agent(WORKER, WORKER_AGENT, "W1", AgentType::Worker);
    let mut accounts = vec![signer(WORKER), cell(STAKE, 91), task, agent, host(100), host(102)];
    let before = accounts.clone();
    let r = process_instruction(&program(), &mut accounts, &data);
    assert_eq!(r, Err(ProgramError::UnsupportedSysvar));
    assert_eq!(accounts, before);
}

#[test]
fn bytes_that_are_no_instruction_are_refused_before_the_clock_is_read() {
    let mut accounts = vec![signer(CREATOR), cell(TASK, 400)];
    let before = accounts.clone();
    let r = process_instruction(&program(), &mut accounts, &[9]);
    assert_eq!(r, refusal(XaamError::InvalidInstructionData));
    assert_eq!(accounts, before);
}

fn initialize_over(
    task: Account,
    creator: u8,
    deadline: i64,
    judges: u8,
) -> (Result<Custody, ProgramError>, bool) {
    let mut accounts = vec![signer(creator), task, host(MINT), host(100), host(101), host(102)];
    let before = accounts.clone();
    let r = Processor::process_initialize_task(
        &program(),
        &mut accounts,
        "another".to_string(),
        "s".to_string(),
        "u".to_string(),
        deadline,
        7,
        "USDC".to_string(),
        (0..judges).map(|i| key(30 + i)).collect(),
        &clock(),
    );
    (r, accounts == before)
}

#[test]
fn a_task_is_not_made_over_a_task_whatever_its_status() {
    let (_, staked_task, _) = staked();
    let (_, judged_task, _, _) = judged();
    let mut completed = complete_accounts(signer(CREATOR), judged_task.clone());
    assert!(Processor::process_complete_task(&program(), &mut completed, &clock()).is_ok());
    let completed_task = completed.swap_remove(1);
    assert_eq!(task_in(&completed_task).status, TaskStatus::Completed);
    for task in [created_task(), staked_task, judged_task, completed_task] {
        for creator in [CREATOR, WORKER] {
            let (r, unchanged) = initialize_over(task.clone(), creator, NOW + 9999, 0);
            assert_eq!(r, refusal(XaamError::InvalidTaskState));
            assert!(unchanged);
        }
    }
}

#[test]
fn the_deadline_and_the_judge_cap_are_checked_before_the_cell() {
    let (_, task, _) = staked();
    let (r, unchanged) = initialize_over(task.clone(), CREATOR, NOW, 0);
    assert_eq!(r, refusal(XaamError::TaskDeadlineExpired));
    assert!(unchanged);
    let (r, unchanged) = initialize_over(task, CREATOR, NOW + 1, 6);
    assert_eq!(r, Err(ProgramError::InvalidArgument));
    assert!(unchanged);
}

#[test]
fn a_task_is_not_made_over_a_record_of_another_kind() {
    let agent = registered_agent(WORKER, WORKER_AGENT, "W1", AgentType::Worker);
    let (r, unchanged) = initialize_over(agent, CREATOR, NOW + 1, 0);
    assert_eq!(r, refusal(XaamError::InvalidTaskState));
    assert!(unchanged);
    let (stake, _, _) = staked();
    let mut roomy = cell(STAKE, 400);
    roomy.data[..91].copy_from_slice(&stake.data);
    let (r, unchanged) = initialize_over(roomy, CREATOR, NOW + 1, 0);
    assert_eq!(r, refusal(XaamError::InvalidTaskState));
    assert!(unchanged);
}

#[test]
fn a_cell_is_free_exactly_when_its_first_byte_is_zero() {
    let mut marked = cell(TASK, 400);
    marked.data[0] = 7;
    let (r, unchanged) = initialize_over(marked, CREATOR, NOW + 1, 0);
    assert_eq!(r, refusal(XaamError::InvalidTaskState));
    assert!(unchanged);
    let mut scribbled = cell(TASK, 400);
    for byte in scribbled.data[1..].iter_mut() {
        *byte = 0xee;
    }
    let (r, unchanged) = initialize_over(scribbled, CREATOR, NOW + 1, 2);
    assert_eq!(r, Ok(Custody::MintTaskToken { mint: key(MINT) }));
    assert!(!unchanged);
}

fn register_agent_over(agent: Account, owner: u8, kind: AgentType) -> Result<Custody, ProgramError> {
    let mut accounts = vec![signer(owner), agent, host(100), host(102)];
    let before = accounts.clone();
    let r = Processor::process_register_agent(
        &program(),
        &mut accounts,
        "again".to_string(),
        "d".to_string(),
        kind,
        "pk".to_string(),
        &clock(),
    );
    if r.is_err() {
        assert_eq!(accounts, before);
    }
    r
}

#[test]
fn an_agent_is_registered_once() {
    let agent = registered_agent(WORKER, WORKER_AGENT, "W1", AgentType::Worker);
    for owner in [WORKER, CREATOR] {
        for kind in [AgentType::Worker, AgentType::Judge] {
            assert_eq!(
                register_agent_over(agent.clone(), owner, kind),
                refusal(XaamError::InvalidAgentState)
            );
        }
    }
    let kept = from_cell::<Agent>(&agent.data).unwrap();
    assert_eq!(kept.agent_type, AgentType::Worker);
    assert_eq!(kept.name, "W1");
    assert_eq!(register_agent_over(created_task(), WORKER, AgentType::Worker),
        refusal(XaamError::InvalidAgentState));
}

#[test]
fn a_judge_is_registered_once() {
    let judge = registered_judge();
    let agent = registered_agent(JUDGE_OWNER, JUDGE_AGENT, "J1", AgentType::Judge);
    let mut accounts = vec![signer(JUDGE_OWNER), judge, agent, host(100), host(102)];
    let before = accounts.clone();
    let r = Processor::process_register_judge(
        &program(),
        &mut accounts,
        "again".to_string(),
        "d".to_string(),
        "k".to_string(),
        "s".to_string(),
        &clock(),
    );
    assert_eq!(r, refusal(XaamError::InvalidJudgeState));
    assert_eq!(accounts, before);
}

#[test]
fn a_stake_is_not_made_over_a_stake() {
    let (stake, _, agent) = staked();
    let mut accounts = vec![signer(WORKER), stake, created_task(), agent, host(100), host(102)];
    let before = accounts.clone();
    let r = Processor::process_stake_on_task(&program(), &mut accounts, 1, &clock());
    assert_eq!(r, refusal(XaamError::InvalidStakeState));
    assert_eq!(accounts, before);
    let kept = from_cell::<Stake>(&accounts[1].data).unwrap();
    assert_eq!(kept.amount, 500);
    assert_eq!(kept.status, StakeStatus::Active);
}

#[test]
fn a_deliverable_is_not_made_over_a_deliverable() {
    let (_, _, _, deliverable) = submitted();
    let (_, task, agent) = staked();
    let mut accounts = vec![signer(WORKER), deliverable, task, agent, host(100), host(102)];
    let before = accounts.clone();
    let r = Processor::process_submit_deliverable(
        &program(),
        &mut accounts,
        "other".to_string(),
        vec![],
        &clock(),
    );
    assert_eq!(r, refusal(XaamError::InvalidDeliverable));
    assert_eq!(accounts, before);
}

#[test]
fn only_a_worker_stakes_even_on_a_cell_in_use() {
    let (stake, _, _) = staked();
    let agent = registered_agent(WORKER, WORKER_AGENT, "J", AgentType::Judge);
    let mut accounts = vec![signer(WORKER), stake, created_task(), agent, host(100), host(102)];
    let r = Processor::process_stake_on_task(&program(), &mut accounts, 1, &clock());
    assert_eq!(r, refusal(XaamError::InvalidAgentState));
}
