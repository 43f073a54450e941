//! Task marketplace program: the instruction-processing engine.
//!
//! A requester posts a task backed by a reward, a worker stakes collateral
//! on it and hands in a deliverable, a judge scores the deliverable, and the
//! requester completes the task. All state lives in storage cells that each
//! request presents; the program reads them, checks every guard, and only
//! then writes.

use vstd::prelude::*;

pub mod account;
pub mod codec;
pub mod error;
pub mod instruction;
pub mod laws;
pub mod lifecycle;
pub mod processor;
pub mod pubkey;
pub mod state;
pub mod wire;

pub use crate::account::Account;
pub use crate::account::Clock;
pub use crate::error::ProgramError;
pub use crate::error::XaamError;
pub use crate::instruction::XaamInstruction;
pub use crate::processor::Custody;
pub use crate::processor::Processor;
pub use crate::pubkey::Pubkey;
pub use crate::state::Agent;
pub use crate::state::Deliverable;
pub use crate::state::Judge;
pub use crate::state::Stake;
pub use crate::state::Task;
pub use crate::state::Wallet;

verus! {

/// `Clock::get` of `solana_program`: asks the host for its clock. The host
/// decides what comes back, so nothing is claimed of it: a clock with any
/// time, or `None` where the host has no clock to offer.
#[verifier::external_body]
fn host_clock() -> (clock: Option<Clock>) {
    match <solana_program::clock::Clock as solana_program::sysvar::Sysvar>::get() {
        Ok(clock) => Some(Clock { unix_timestamp: clock.unix_timestamp }),
        Err(_) => None,
    }
}

/// Process a request at the time that the host's clock shows: decodes the
/// instruction in `instruction_data`, reads the clock, and carries the
/// instruction out on `accounts`. Bytes that are no instruction are refused
/// before the clock is read; a host without a clock is refused with
/// `UnsupportedSysvar`; either way no account changes. Otherwise the
/// request is carried out as [`process_instruction_at`] does at the time
/// that was read.
pub fn process_instruction(
    program_id: &Pubkey,
    accounts: &mut Vec<Account>,
    instruction_data: &[u8],
) -> (r: Result<Custody, ProgramError>)
    ensures
        match crate::wire::decode_all::<crate::instruction::XaamInstructionView>(
            instruction_data@,
        ) {
            None => r == Err::<Custody, ProgramError>(
                XaamError::InvalidInstructionData.surfaced(),
            ) && crate::account::views(final(accounts)@) == crate::account::views(
                old(accounts)@,
            ),
            Some(instruction) => (r == Err::<Custody, ProgramError>(
                ProgramError::UnsupportedSysvar,
            ) && crate::account::views(final(accounts)@) == crate::account::views(
                old(accounts)@,
            )) || exists|now: crate::pubkey::UnixTimestamp|
                crate::processor::handled(
                    crate::processor::process_outcome(
                        *program_id,
                        crate::account::views(old(accounts)@),
                        instruction,
                        now,
                    ),
                    crate::account::views(old(accounts)@),
                    crate::account::views(final(accounts)@),
                    r,
                ),
        },
{
    let instruction = match XaamInstruction::unpack(instruction_data) {
        Ok(instruction) => instruction,
        Err(e) => {
            return Err(ProgramError::from(e));
        },
    };
    match host_clock() {
        None => Err(ProgramError::UnsupportedSysvar),
        Some(clock) => {
            let r = Processor::process(program_id, accounts, instruction, &clock);
            assert(crate::processor::handled(
                crate::processor::process_outcome(
                    *program_id,
                    crate::account::views(old(accounts)@),
                    instruction@,
                    clock.unix_timestamp,
                ),
                crate::account::views(old(accounts)@),
                crate::account::views(accounts@),
                r,
            ));
            r
        },
    }
}

/// Process a request at a given time: decodes the instruction in
/// `instruction_data` and carries it out on `accounts`, at the time that
/// `clock` shows.
pub fn process_instruction_at(
    program_id: &Pubkey,
    accounts: &mut Vec<Account>,
    instruction_data: &[u8],
    clock: &Clock,
) -> (r: Result<Custody, ProgramError>)
    ensures
        crate::processor::handled(
            crate::processor::process_instruction_outcome(
                *program_id,
                crate::account::views(old(accounts)@),
                instruction_data@,
                clock.unix_timestamp,
            ),
            crate::account::views(old(accounts)@),
            crate::account::views(final(accounts)@),
            r,
        ),
{
    match XaamInstruction::unpack(instruction_data) {
        Ok(instruction) => Processor::process(program_id, accounts, instruction, clock),
        Err(e) => Err(ProgramError::from(e)),
    }
}

} // verus!
