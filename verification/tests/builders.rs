use xaam::account::require_accounts;
use xaam::account::require_free;
use xaam::account::require_funds;
use xaam::account::require_owner;
use xaam::account::require_rent_exempt;
use xaam::account::require_signer;
use xaam::account::load;
use xaam::account::store;
use xaam::account::Account;
use xaam::error::ProgramError;
use xaam::error::XaamError;
use xaam::instruction::initialize_task;
use xaam::instruction::register_agent;
use xaam::instruction::stake_on_task;
use xaam::instruction::AccountMeta;
use xaam::instruction::XaamInstruction;
use xaam::lifecycle::AgentType;
use xaam::lifecycle::StakeStatus;
use xaam::pubkey::Pubkey;
use xaam::state::Stake;

fn key(n: u8) -> Pubkey {
    Pubkey::new_from_array([n; 32])
}

const SYSTEM_PROGRAM: [u8; 32] = [0; 32];

const RENT_SYSVAR: [u8; 32] = [
    6, 167, 213, 23, 25, 44, 92, 81, 33, 140, 201, 76, 61, 74, 241, 127, 88, 218, 238, 8, 155, 161,
    253, 68, 227, 219, 217, 138, 0, 0, 0, 0,
];

const TOKEN_PROGRAM: [u8; 32] = [
    6, 221, 246, 225, 215, 101, 161, 147, 217, 203, 225, 70, 206, 235, 121, 172, 28, 180, 133, 237,
    95, 91, 55, 145, 58, 140, 245, 133, 126, 255, 0, 169,
];

fn writable(n: u8, is_signer: bool) -> AccountMeta {
    AccountMeta { pubkey: key(n), is_signer, is_writable: true }
}

fn readonly(bytes: [u8; 32]) -> AccountMeta {
    AccountMeta { pubkey: Pubkey::new_from_array(bytes), is_signer: false, is_writable: false }
}

#[test]
fn account_metas_are_writable_or_read_only() {
    assert_eq!(AccountMeta::new(key(1), true), writable(1, true));
    assert_eq!(AccountMeta::new(key(1), false), writable(1, false));
    assert_eq!(AccountMeta::new_readonly(key(1), false), readonly([1; 32]));
}

#[test]
fn initialize_task_request_names_its_six_accounts_in_order() {
    let request = initialize_task(
        &key(9),
        &key(1),
        &key(2),
        &key(3),
        "t".to_string(),
        "s".to_string(),
        "u".to_string(),
        77,
        1000,
        "USDC".to_string(),
        vec![key(4), key(5)],
    );
    assert_eq!(request.program_id, key(9));
    assert_eq!(
        request.accounts,
        vec![
            writable(1, true),
            writable(2, false),
            writable(3, false),
            readonly(RENT_SYSVAR),
            readonly(TOKEN_PROGRAM),
            readonly(SYSTEM_PROGRAM),
        ]
    );
    assert_eq!(
        XaamInstruction::unpack(&request.data),
        Ok(XaamInstruction::InitializeTask {
            title: "t".to_string(),
            summary: "s".to_string(),
            encrypted_payload_url: "u".to_string(),
            deadline: 77,
            reward_amount: 1000,
            reward_currency: "USDC".to_string(),
            judges: vec![key(4), key(5)],
        })
    );
}

#[test]
fn register_agent_request_names_its_four_accounts_in_order() {
    let request = register_agent(
        &key(9),
        &key(1),
        &key(2),
        "W1".to_string(),
        "d".to_string(),
        AgentType::Worker,
        "pk".to_string(),
    );
    assert_eq!(request.program_id, key(9));
    assert_eq!(
        request.accounts,
        vec![writable(1, true), writable(2, false), readonly(RENT_SYSVAR), readonly(SYSTEM_PROGRAM)]
    );
    assert_eq!(
        XaamInstruction::unpack(&request.data),
        Ok(XaamInstruction::RegisterAgent {
            name: "W1".to_string(),
            description: "d".to_string(),
            agent_type: AgentType::Worker,
            public_key: "pk".to_string(),
        })
    );
}

#[test]
fn stake_on_task_request_names_its_six_accounts_in_order() {
    let request = stake_on_task(&key(9), &key(1), &key(2), &key(3), &key(4), 500);
    assert_eq!(request.program_id, key(9));
    assert_eq!(
        request.accounts,
        vec![
            writable(1, true),
            writable(2, false),
            writable(3, false),
            writable(4, false),
            readonly(RENT_SYSVAR),
            readonly(SYSTEM_PROGRAM),
        ]
    );
    assert_eq!(request.data, vec![3, 0xf4, 0x01, 0, 0, 0, 0, 0, 0]);
}

fn account(is_signer: bool, owner: u8, lamports: u64, size: usize) -> Account {
    Account { key: key(1), is_signer, lamports, owner: key(owner), data: vec![0; size] }
}

#[test]
fn guards_refuse_with_their_own_reasons() {
    let accounts = vec![account(true, 9, 10, 0), account(false, 8, 10, 0)];
    assert_eq!(require_accounts(&accounts, 2), Ok(()));
    assert_eq!(require_accounts(&accounts, 0), Ok(()));
    assert_eq!(require_accounts(&accounts, 3), Err(ProgramError::NotEnoughAccountKeys));
    assert_eq!(require_signer(&accounts[0]), Ok(()));
    assert_eq!(require_signer(&accounts[1]), Err(ProgramError::MissingRequiredSignature));
    assert_eq!(require_owner(&accounts[0], &key(9)), Ok(()));
    assert_eq!(
        require_owner(&accounts[1], &key(9)),
        Err(ProgramError::from(XaamError::IncorrectProgramId))
    );
    assert_eq!(require_rent_exempt(&accounts[0], 10), Ok(()));
    assert_eq!(require_rent_exempt(&accounts[0], 0), Ok(()));
    assert_eq!(
        require_rent_exempt(&accounts[0], 11),
        Err(ProgramError::from(XaamError::NotRentExempt))
    );
    assert_eq!(require_free(&accounts[0], XaamError::InvalidTaskState), Ok(()));
    assert_eq!(require_free(&account(false, 9, 1, 5), XaamError::InvalidTaskState), Ok(()));
    let mut used = account(false, 9, 1, 5);
    used.data[0] = 1;
    assert_eq!(
        require_free(&used, XaamError::InvalidStakeState),
        Err(ProgramError::from(XaamError::InvalidStakeState))
    );
    used.data[0] = 0;
    used.data[1] = 1;
    assert_eq!(require_free(&used, XaamError::InvalidStakeState), Ok(()));
    assert_eq!(require_funds(&accounts[0], 10), Ok(()));
    assert_eq!(
        require_funds(&accounts[0], 11),
        Err(ProgramError::from(XaamError::InsufficientFunds))
    );
}

#[test]
fn a_cell_gives_back_the_record_stored_in_it() {
    let stake = Stake {
        is_initialized: true,
        task_id: key(2),
        agent_id: key(3),
        amount: 9,
        status: StakeStatus::Forfeited,
        staked_at: 1,
        released_at: Some(2),
    };
    let mut cell = account(false, 9, 1, 120);
    cell.data = vec![0x55; 120];
    assert_eq!(store(&stake, &mut cell), Ok(()));
    assert_eq!(cell.data.len(), 120);
    assert_eq!(&cell.data[91..], &[0x55u8; 29][..]);
    assert_eq!(load::<Stake>(&cell), Ok(stake));
}

#[test]
fn a_record_is_not_stored_in_a_cell_too_short_for_it() {
    let stake = Stake {
        is_initialized: true,
        task_id: key(2),
        agent_id: key(3),
        amount: 9,
        status: StakeStatus::Active,
        staked_at: 1,
        released_at: None,
    };
    let mut cell = account(false, 9, 1, 82);
    assert_eq!(store(&stake, &mut cell), Err(ProgramError::from(XaamError::InvalidAccountData)));
    assert_eq!(cell.data, vec![0; 82]);
    assert_eq!(
        load::<Stake>(&cell),
        Err(ProgramError::from(XaamError::InvalidAccountData))
    );
    let mut cell = account(false, 9, 1, 83);
    assert_eq!(store(&stake, &mut cell), Ok(()));
    assert_eq!(load::<Stake>(&cell), Ok(stake));
}

#[test]
fn host_accounts_are_the_ones_the_host_declares() {
    assert_eq!(solana_program::system_program::id().to_bytes(), SYSTEM_PROGRAM);
    assert_eq!(solana_program::sysvar::rent::id().to_bytes(), RENT_SYSVAR);
    assert_eq!(spl_token::id().to_bytes(), TOKEN_PROGRAM);
    assert_eq!(solana_program::system_program::id().to_string(), "11111111111111111111111111111111");
    assert_eq!(
        solana_program::sysvar::rent::id().to_string(),
        "SysvarRent111111111111111111111111111111111"
    );
    assert_eq!(spl_token::id().to_string(), "TokenkegQfeZyiNwAJbNbGKPFXCWuBvf9Ss623VQ5DA");
}
