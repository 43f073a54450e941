use borsh::BorshDeserialize;
use borsh::BorshSerialize;
use xaam::codec::from_cell;
use xaam::codec::from_payload;
use xaam::codec::to_bytes;
use xaam::codec::write_cell;
use xaam::error::XaamError;
use xaam::instruction::XaamInstruction;
use xaam::lifecycle::AgentType;
use xaam::lifecycle::DeliverableStatus;
use xaam::lifecycle::StakeStatus;
use xaam::lifecycle::TaskStatus;
use xaam::pubkey::Pubkey;
use xaam::state::Agent;
use xaam::state::Deliverable;
use xaam::state::Judge;
use xaam::state::Stake;
use xaam::state::Task;
use xaam::state::Wallet;

fn key(n: u8) -> Pubkey {
    Pubkey::new_from_array([n; 32])
}

fn slots(n: usize) -> [Option<Pubkey>; 5] {
    let mut out: [Option<Pubkey>; 5] = [None; 5];
    for i in 0..n {
        out[i] = Some(key(10 + i as u8));
    }
    out
}

fn raw_slots(n: usize) -> [Option<[u8; 32]>; 5] {
    let mut out: [Option<[u8; 32]>; 5] = [None; 5];
    for i in 0..n {
        out[i] = Some([10 + i as u8; 32]);
    }
    out
}

fn sample_task(judges: usize) -> Task {
    Task {
        is_initialized: true,
        nft_id: key(1),
        title: "Label the images".to_string(),
        summary: "Né en 1970, à étiqueter \u{1F600}".to_string(),
        encrypted_payload_url: "https://example.org/p/1".to_string(),
        creator_id: key(2),
        status: TaskStatus::Submitted,
        deadline: 1_700_003_600,
        reward_amount: 1000,
        reward_currency: "USDC".to_string(),
        judges: slots(judges),
        created_at: 1_700_000_000,
        updated_at: -5,
    }
}

fn sample_agent() -> Agent {
    Agent {
        is_initialized: true,
        name: "W1".to_string(),
        description: "a worker".to_string(),
        agent_type: AgentType::Judge,
        wallet_address: key(3),
        public_key: "age1qqq".to_string(),
        reputation_score: u64::MAX,
        completed_tasks: 7,
        successful_tasks: u32::MAX,
        created_at: i64::MIN,
        updated_at: i64::MAX,
    }
}

fn sample_stake() -> Stake {
    Stake {
        is_initialized: true,
        task_id: key(4),
        agent_id: key(5),
        amount: 500,
        status: StakeStatus::Returned,
        staked_at: 100,
        released_at: Some(-1),
    }
}

fn sample_deliverable() -> Deliverable {
    Deliverable {
        is_initialized: true,
        encrypted_content_url: "ipfs://abc".to_string(),
        encryption_keys: vec![(key(6), "k1".to_string()), (key(7), "".to_string())],
        status: DeliverableStatus::Judged,
        score: 100,
        feedback: "good".to_string(),
    }
}

fn every_instruction() -> Vec<XaamInstruction> {
    vec![
        XaamInstruction::InitializeTask {
            title: "t".to_string(),
            summary: "s".to_string(),
            encrypted_payload_url: "u".to_string(),
            deadline: -1,
            reward_amount: 1000,
            reward_currency: "USDC".to_string(),
            judges: vec![key(1), key(2)],
        },
        XaamInstruction::RegisterAgent {
            name: "W1".to_string(),
            description: "".to_string(),
            agent_type: AgentType::Worker,
            public_key: "pk".to_string(),
        },
        XaamInstruction::RegisterJudge {
            name: "J1".to_string(),
            description: "d".to_string(),
            public_key: "pk".to_string(),
            specialization: "law".to_string(),
        },
        XaamInstruction::StakeOnTask { amount: 500 },
        XaamInstruction::SubmitDeliverable {
            encrypted_content_url: "c".to_string(),
            encryption_keys: vec![(key(9), "secret".to_string())],
        },
        XaamInstruction::JudgeDeliverable { score: 101, feedback: "f".to_string() },
        XaamInstruction::CompleteTask {},
        XaamInstruction::ReturnStake {},
        XaamInstruction::BurnTaskNFT {},
    ]
}

#[test]
fn task_round_trips_with_every_judge_count() {
    for n in 0..=5 {
        let task = sample_task(n);
        let bytes = to_bytes(&task).unwrap();
        assert_eq!(from_cell::<Task>(&bytes), Some(task.clone()));
        assert_eq!(from_payload::<Task>(&bytes), Some(task));
    }
}

#[test]
fn agent_round_trips() {
    let agent = sample_agent();
    let bytes = to_bytes(&agent).unwrap();
    assert_eq!(from_cell::<Agent>(&bytes), Some(agent));
}

#[test]
fn judge_round_trips() {
    let judge =
        Judge { agent: sample_agent(), specialization: "contracts".to_string(), judged_tasks: 3 };
    let bytes = to_bytes(&judge).unwrap();
    assert_eq!(from_cell::<Judge>(&bytes), Some(judge));
}

#[test]
fn stake_round_trips() {
    let stake = sample_stake();
    let bytes = to_bytes(&stake).unwrap();
    assert_eq!(bytes.len(), 91);
    assert_eq!(from_cell::<Stake>(&bytes), Some(stake));
    let active = Stake { status: StakeStatus::Active, released_at: None, ..stake };
    let bytes = to_bytes(&active).unwrap();
    assert_eq!(bytes.len(), 83);
    assert_eq!(from_cell::<Stake>(&bytes), Some(active));
}

#[test]
fn wallet_round_trips() {
    let wallet = Wallet {
        is_initialized: true,
        owner: key(8),
        sol_balance: 1,
        usdc_balance: u64::MAX,
        nft_count: 2,
    };
    let bytes = to_bytes(&wallet).unwrap();
    assert_eq!(bytes.len(), 53);
    assert_eq!(from_cell::<Wallet>(&bytes), Some(wallet));
}

#[test]
fn deliverable_round_trips() {
    let deliverable = sample_deliverable();
    let bytes = to_bytes(&deliverable).unwrap();
    assert_eq!(from_cell::<Deliverable>(&bytes), Some(deliverable));
}

#[test]
fn every_instruction_round_trips() {
    for instruction in every_instruction() {
        let bytes = instruction.pack();
        assert_eq!(XaamInstruction::unpack(&bytes), Ok(instruction));
    }
}

#[test]
fn instruction_tags_count_from_zero() {
    for (i, instruction) in every_instruction().iter().enumerate() {
        assert_eq!(instruction.pack()[0], i as u8);
    }
}

#[test]
fn stake_on_task_payload_is_tag_and_amount() {
    let bytes = XaamInstruction::StakeOnTask { amount: 1000 }.pack();
    assert_eq!(bytes, vec![3, 0xe8, 0x03, 0, 0, 0, 0, 0, 0]);
}

#[test]
fn empty_instructions_are_one_byte() {
    assert_eq!(XaamInstruction::CompleteTask {}.pack(), vec![6]);
    assert_eq!(XaamInstruction::ReturnStake {}.pack(), vec![7]);
    assert_eq!(XaamInstruction::BurnTaskNFT {}.pack(), vec![8]);
}

#[test]
fn text_travels_behind_the_length_of_its_utf8_form() {
    let bytes = to_bytes(&"é!".to_string()).unwrap();
    assert_eq!(bytes, vec![3, 0, 0, 0, 0xc3, 0xa9, b'!']);
    assert_eq!(from_payload::<String>(&bytes), Some("é!".to_string()));
}

#[test]
fn signed_integers_travel_in_twos_complement() {
    assert_eq!(to_bytes(&-2i64).unwrap(), vec![0xfe, 0xff, 0xff, 0xff, 0xff, 0xff, 0xff, 0xff]);
    assert_eq!(from_payload::<i64>(&[0xfe, 0xff, 0xff, 0xff, 0xff, 0xff, 0xff, 0xff]), Some(-2));
    assert_eq!(from_payload::<i64>(&to_bytes(&i64::MIN).unwrap()), Some(i64::MIN));
}

#[test]
fn task_bytes_are_those_that_borsh_writes() {
    for n in 0..=5 {
        let task = sample_task(n);
        let expected = (
            task.is_initialized,
            task.nft_id.to_bytes(),
            task.title.clone(),
            task.summary.clone(),
            task.encrypted_payload_url.clone(),
            task.creator_id.to_bytes(),
            3u8,
            task.deadline,
            task.reward_amount,
            task.reward_currency.clone(),
            raw_slots(n),
            task.created_at,
            task.updated_at,
        )
            .try_to_vec()
            .unwrap();
        assert_eq!(to_bytes(&task).unwrap(), expected);
    }
}

#[test]
fn agent_and_judge_bytes_are_those_that_borsh_writes() {
    let agent = sample_agent();
    let agent_fields = (
        agent.is_initialized,
        agent.name.clone(),
        agent.description.clone(),
        1u8,
        agent.wallet_address.to_bytes(),
        agent.public_key.clone(),
        agent.reputation_score,
        agent.completed_tasks,
        agent.successful_tasks,
        agent.created_at,
        agent.updated_at,
    );
    assert_eq!(to_bytes(&agent).unwrap(), agent_fields.try_to_vec().unwrap());
    let judge = Judge { agent, specialization: "tax".to_string(), judged_tasks: 9 };
    let expected = (agent_fields, "tax".to_string(), 9u32).try_to_vec().unwrap();
    assert_eq!(to_bytes(&judge).unwrap(), expected);
}

#[test]
fn stake_wallet_and_deliverable_bytes_are_those_that_borsh_writes() {
    let stake = sample_stake();
    let expected = (
        stake.is_initialized,
        stake.task_id.to_bytes(),
        stake.agent_id.to_bytes(),
        stake.amount,
        1u8,
        stake.staked_at,
        stake.released_at,
    )
        .try_to_vec()
        .unwrap();
    assert_eq!(to_bytes(&stake).unwrap(), expected);

    let wallet =
        Wallet { is_initialized: false, owner: key(8), sol_balance: 3, usdc_balance: 4, nft_count: 5 };
    let expected = (false, [8u8; 32], 3u64, 4u64, 5u32).try_to_vec().unwrap();
    assert_eq!(to_bytes(&wallet).unwrap(), expected);

    let deliverable = sample_deliverable();
    let expected = (
        true,
        deliverable.encrypted_content_url.clone(),
        vec![([6u8; 32], "k1".to_string()), ([7u8; 32], "".to_string())],
        1u8,
        deliverable.score,
        deliverable.feedback.clone(),
    )
        .try_to_vec()
        .unwrap();
    assert_eq!(to_bytes(&deliverable).unwrap(), expected);
}

#[test]
fn instruction_bytes_are_those_that_borsh_writes() {
    let all = every_instruction();
    let expected: Vec<Vec<u8>> = vec![
        (
            0u8,
            "t".to_string(),
            "s".to_string(),
            "u".to_string(),
            -1i64,
            1000u64,
            "USDC".to_string(),
            vec![[1u8; 32], [2u8; 32]],
        )
            .try_to_vec()
            .unwrap(),
        (1u8, "W1".to_string(), "".to_string(), 0u8, "pk".to_string()).try_to_vec().unwrap(),
        (2u8, "J1".to_string(), "d".to_string(), "pk".to_string(), "law".to_string())
            .try_to_vec()
            .unwrap(),
        (3u8, 500u64).try_to_vec().unwrap(),
        (4u8, "c".to_string(), vec![([9u8; 32], "secret".to_string())]).try_to_vec().unwrap(),
        (5u8, 101u8, "f".to_string()).try_to_vec().unwrap(),
        vec![6],
        vec![7],
        vec![8],
    ];
    for (instruction, bytes) in all.iter().zip(expected.iter()) {
        assert_eq!(&instruction.pack(), bytes);
    }
}

#[test]
fn reads_what_borsh_wrote() {
    let bytes = (
        true,
        [1u8; 32],
        [2u8; 32],
        77u64,
        0u8,
        5i64,
        Option::<i64>::None,
    )
        .try_to_vec()
        .unwrap();
    let stake = from_cell::<Stake>(&bytes).unwrap();
    assert_eq!(stake.task_id, key(1));
    assert_eq!(stake.agent_id, key(2));
    assert_eq!(stake.amount, 77);
    assert_eq!(stake.status, StakeStatus::Active);
    assert_eq!(stake.released_at, None);
}

#[test]
fn borsh_reads_what_was_written() {
    let agent = sample_agent();
    let bytes = to_bytes(&agent).unwrap();
    type Fields = (bool, String, String, u8, [u8; 32], String, u64, u32, u32, i64, i64);
    let fields = Fields::try_from_slice(&bytes).unwrap();
    assert_eq!(fields.1, "W1");
    assert_eq!(fields.3, 1);
    assert_eq!(fields.4, [3u8; 32]);
    assert_eq!(fields.6, u64::MAX);
    assert_eq!(fields.9, i64::MIN);
}

#[test]
fn a_cell_may_be_longer_than_its_record() {
    let task = sample_task(2);
    let mut cell = to_bytes(&task).unwrap();
    cell.extend_from_slice(&[0xff; 40]);
    assert_eq!(from_cell::<Task>(&cell), Some(task));
}

#[test]
fn a_payload_may_not_go_on_after_its_value() {
    let mut bytes = XaamInstruction::StakeOnTask { amount: 1 }.pack();
    bytes.push(0);
    assert_eq!(XaamInstruction::unpack(&bytes), Err(XaamError::InvalidInstructionData));
    let mut bytes = XaamInstruction::CompleteTask {}.pack();
    bytes.push(0);
    assert_eq!(XaamInstruction::unpack(&bytes), Err(XaamError::InvalidInstructionData));
}

#[test]
fn a_zeroed_cell_holds_a_record_that_is_not_initialized() {
    let cell: Vec<u8> = vec![0; 200];
    let task = from_cell::<Task>(&cell).unwrap();
    assert!(!task.is_initialized());
    assert_eq!(task.status, TaskStatus::Created);
    assert_eq!(task.judges, [None; 5]);
    let agent = from_cell::<Agent>(&cell).unwrap();
    assert!(!agent.is_initialized());
    let judge = from_cell::<Judge>(&cell).unwrap();
    assert!(!judge.is_initialized());
    let stake = from_cell::<Stake>(&cell).unwrap();
    assert!(!stake.is_initialized());
    assert_eq!(stake.status, StakeStatus::Active);
    let wallet = from_cell::<Wallet>(&cell).unwrap();
    assert!(!wallet.is_initialized());
    let deliverable = from_cell::<Deliverable>(&cell).unwrap();
    assert!(!deliverable.is_initialized());
    assert_eq!(deliverable.status, DeliverableStatus::Submitted);
}

#[test]
fn every_record_starts_with_the_byte_that_says_it_is_initialized() {
    assert_eq!(to_bytes(&sample_task(2)).unwrap()[0], 1);
    assert_eq!(to_bytes(&sample_agent()).unwrap()[0], 1);
    let judge = Judge { agent: sample_agent(), specialization: "".to_string(), judged_tasks: 0 };
    assert_eq!(to_bytes(&judge).unwrap()[0], 1);
    assert_eq!(to_bytes(&sample_stake()).unwrap()[0], 1);
    assert_eq!(to_bytes(&sample_deliverable()).unwrap()[0], 1);
    let mut blank = sample_deliverable();
    blank.is_initialized = false;
    assert_eq!(to_bytes(&blank).unwrap()[0], 0);
}

#[test]
fn truncated_records_are_refused_at_every_length() {
    let bytes = to_bytes(&sample_task(5)).unwrap();
    for n in 0..bytes.len() {
        assert_eq!(from_cell::<Task>(&bytes[..n]), None);
    }
    let bytes = to_bytes(&sample_deliverable()).unwrap();
    for n in 0..bytes.len() {
        assert_eq!(from_cell::<Deliverable>(&bytes[..n]), None);
    }
}

#[test]
fn truncated_instructions_are_refused_at_every_length() {
    for instruction in every_instruction() {
        let bytes = instruction.pack();
        for n in 0..bytes.len() {
            assert_eq!(
                XaamInstruction::unpack(&bytes[..n]),
                Err(XaamError::InvalidInstructionData)
            );
        }
    }
}

#[test]
fn unknown_instruction_tags_are_refused() {
    for tag in 9..=255u8 {
        assert_eq!(XaamInstruction::unpack(&[tag]), Err(XaamError::InvalidInstructionData));
    }
    assert_eq!(XaamInstruction::unpack(&[]), Err(XaamError::InvalidInstructionData));
}

#[test]
fn malformed_tags_are_refused() {
    let good = to_bytes(&sample_task(1)).unwrap();
    let mut bad_flag = good.clone();
    bad_flag[0] = 2;
    assert_eq!(from_cell::<Task>(&bad_flag), None);

    let stake = to_bytes(&sample_stake()).unwrap();
    let mut bad_status = stake.clone();
    bad_status[73] = 3;
    assert_eq!(from_cell::<Stake>(&bad_status), None);
    let mut bad_presence = stake.clone();
    bad_presence[82] = 2;
    assert_eq!(from_cell::<Stake>(&bad_presence), None);

    let register = XaamInstruction::RegisterAgent {
        name: "".to_string(),
        description: "".to_string(),
        agent_type: AgentType::Judge,
        public_key: "".to_string(),
    }
    .pack();
    assert_eq!(register, vec![1, 0, 0, 0, 0, 0, 0, 0, 0, 1, 0, 0, 0, 0]);
    let mut bad_kind = register.clone();
    bad_kind[9] = 2;
    assert_eq!(XaamInstruction::unpack(&bad_kind), Err(XaamError::InvalidInstructionData));
}

#[test]
fn text_that_is_not_utf8_is_refused() {
    assert_eq!(from_payload::<String>(&[2, 0, 0, 0, 0xc3, 0x28]), None);
    assert_eq!(from_payload::<String>(&[1, 0, 0, 0, 0xff]), None);
    assert_eq!(from_payload::<String>(&[2, 0, 0, 0, 0xc3, 0xa9]), Some("é".to_string()));
    let mut bytes = XaamInstruction::JudgeDeliverable { score: 1, feedback: "ab".to_string() }.pack();
    let last = bytes.len() - 1;
    bytes[last] = 0x80;
    assert_eq!(XaamInstruction::unpack(&bytes), Err(XaamError::InvalidInstructionData));
}

#[test]
fn a_length_that_runs_past_the_end_is_refused() {
    assert_eq!(from_payload::<String>(&[5, 0, 0, 0, b'a', b'b']), None);
    assert_eq!(from_payload::<String>(&[0xff, 0xff, 0xff, 0xff]), None);
    assert_eq!(from_payload::<Vec<Pubkey>>(&[1, 0, 0, 0]), None);
    assert_eq!(from_payload::<Vec<Pubkey>>(&[0, 0, 0, 0]), Some(vec![]));
}

#[test]
fn judge_slots_with_a_gap_are_no_record() {
    let mut task = sample_task(0);
    task.judges[1] = Some(key(9));
    assert_eq!(to_bytes(&task), None);
    let good = to_bytes(&sample_task(0)).unwrap();
    let at = good.len() - 16 - 5;
    let mut gapped = good[..at + 1].to_vec();
    gapped.push(1);
    gapped.extend_from_slice(&[9u8; 32]);
    gapped.extend_from_slice(&good[at + 2..]);
    assert_eq!(from_cell::<Task>(&gapped), None);
}

#[test]
fn a_stake_records_its_release_exactly_when_released() {
    let stake = sample_stake();
    let never_released = Stake { released_at: None, ..stake };
    assert_eq!(to_bytes(&never_released), None);
    let active_but_released =
        Stake { status: StakeStatus::Active, released_at: Some(1), ..stake };
    assert_eq!(to_bytes(&active_but_released), None);
    let bytes =
        (true, [4u8; 32], [5u8; 32], 500u64, 0u8, 100i64, Some(1i64)).try_to_vec().unwrap();
    assert_eq!(from_cell::<Stake>(&bytes), None);
    let bytes = (true, [4u8; 32], [5u8; 32], 500u64, 2u8, 100i64, Option::<i64>::None)
        .try_to_vec()
        .unwrap();
    assert_eq!(from_cell::<Stake>(&bytes), None);
}

#[test]
fn a_deliverable_scores_at_most_a_hundred() {
    let mut deliverable = sample_deliverable();
    deliverable.score = 101;
    assert_eq!(to_bytes(&deliverable), None);
    let bytes = (true, "".to_string(), Vec::<([u8; 32], String)>::new(), 0u8, 101u8, "".to_string())
        .try_to_vec()
        .unwrap();
    assert_eq!(from_cell::<Deliverable>(&bytes), None);
    let bytes = (true, "".to_string(), Vec::<([u8; 32], String)>::new(), 0u8, 100u8, "".to_string())
        .try_to_vec()
        .unwrap();
    assert!(from_cell::<Deliverable>(&bytes).is_some());
}

#[test]
fn writing_to_a_cell_keeps_its_size_and_its_slack() {
    let mut cell: Vec<u8> = vec![0xaa; 10];
    assert!(write_cell(&mut cell, &[1, 2, 3]));
    assert_eq!(cell, vec![1, 2, 3, 0xaa, 0xaa, 0xaa, 0xaa, 0xaa, 0xaa, 0xaa]);
    assert!(write_cell(&mut cell, &[]));
    assert_eq!(cell.len(), 10);
}

#[test]
fn writing_more_than_a_cell_holds_changes_nothing() {
    let mut cell: Vec<u8> = vec![7; 2];
    assert!(!write_cell(&mut cell, &[1, 2, 3]));
    assert_eq!(cell, vec![7, 7]);
    let mut full: Vec<u8> = vec![7; 3];
    assert!(write_cell(&mut full, &[1, 2, 3]));
    assert_eq!(full, vec![1, 2, 3]);
}

#[test]
fn keys_are_equal_exactly_when_their_bytes_are() {
    let mut bytes = [0u8; 32];
    let a = Pubkey::new_from_array(bytes);
    assert_eq!(a, key(0));
    bytes[31] = 1;
    assert_ne!(Pubkey::new_from_array(bytes), a);
    assert_eq!(Pubkey::new_from_array(bytes).to_bytes(), bytes);
}
