//! Storage cells as the program sees them, the checks that every
//! instruction makes on them before it changes anything, and the reading
//! and writing of the records they hold.

use vstd::prelude::*;
use crate::codec::from_cell;
use crate::codec::to_bytes;
use crate::codec::Decode;
use crate::codec::Encode;
use crate::error::ProgramError;
use crate::error::XaamError;
use crate::pubkey::Pubkey;
use crate::pubkey::UnixTimestamp;
use crate::wire::decode_front;
use crate::wire::overlay;
use crate::wire::Wire;

verus! {

/// A storage cell, or any other account, as a request presents it: who it
/// is, whether it signed, what it holds, and which program owns it.
#[derive(Clone, Debug, PartialEq, Eq)]
pub struct Account {
    /// The account's key.
    pub key: Pubkey,
    /// Whether the account signed the request.
    pub is_signer: bool,
    /// The balance of the account.
    pub lamports: u64,
    /// The program that owns the account.
    pub owner: Pubkey,
    /// The bytes of the cell. Their number is fixed when the cell is made.
    pub data: Vec<u8>,
}

/// An account as a mathematical value.
pub struct AccountView {
    pub key: Pubkey,
    pub is_signer: bool,
    pub lamports: u64,
    pub owner: Pubkey,
    pub data: Seq<u8>,
}

impl View for Account {
    type V = AccountView;

    open spec fn view(&self) -> AccountView {
        AccountView {
            key: self.key,
            is_signer: self.is_signer,
            lamports: self.lamports,
            owner: self.owner,
            data: self.data@,
        }
    }
}

/// The accounts of a request as mathematical values.
pub open spec fn views(accounts: Seq<Account>) -> Seq<AccountView> {
    Seq::new(accounts.len(), |i: int| accounts[i]@)
}

/// What the host's clock shows.
#[derive(Clone, Copy, Debug, PartialEq, Eq)]
pub struct Clock {
    /// The current time.
    pub unix_timestamp: UnixTimestamp,
}

impl AccountView {
    /// Whether the cell is in use. Every record starts with the byte that
    /// says whether it is initialized, so a cell whose first byte is zero
    /// holds no initialized record of any kind, and a cell that holds an
    /// initialized record of any kind is in use.
    pub open spec fn in_use(self) -> bool {
        self.data.len() > 0 && self.data[0] != 0
    }

    /// The record that the cell holds, if it holds one.
    #[verifier::opaque]
    pub open spec fn holds<M: Wire>(self) -> Option<M> {
        decode_front::<M>(self.data)
    }

    /// Whether the record can be written to the cell: the layout can carry
    /// it, and the cell is long enough for its bytes.
    #[verifier::opaque]
    pub open spec fn can_hold<M: Wire>(self, record: M) -> bool {
        record.wire_ok() && record.wire_bytes().len() <= self.data.len()
    }

    /// The cell after the record was written to it: nothing changes but the
    /// bytes that the record takes, at the start of the cell.
    #[verifier::opaque]
    pub open spec fn with_record<M: Wire>(self, record: M) -> AccountView {
        AccountView { data: overlay(self.data, record.wire_bytes()), ..self }
    }
}

/// A cell holds the record that was last written to it, however long the
/// cell is and whatever it held before.
pub proof fn lemma_holds_what_was_written<M: Wire>(cell: AccountView, record: M)
    requires
        cell.can_hold(record),
    ensures
        cell.with_record(record).holds::<M>() == Some(record),
        cell.with_record(record).data.len() == cell.data.len(),
        cell.with_record(record).key == cell.key,
        cell.with_record(record).owner == cell.owner,
        cell.with_record(record).is_signer == cell.is_signer,
        cell.with_record(record).lamports == cell.lamports,
{
    reveal(AccountView::holds);
    reveal(AccountView::can_hold);
    reveal(AccountView::with_record);
    crate::wire::lemma_decode_front_overlay(cell.data, record);
}

/// Refuses a request with fewer than `count` accounts.
pub fn require_accounts(accounts: &Vec<Account>, count: usize) -> (r: Result<(), ProgramError>)
    ensures
        r == if accounts@.len() >= count {
            Ok::<(), ProgramError>(())
        } else {
            Err::<(), ProgramError>(ProgramError::NotEnoughAccountKeys)
        },
{
    if accounts.len() >= count {
        Ok(())
    } else {
        Err(ProgramError::NotEnoughAccountKeys)
    }
}

/// Refuses an account that has not signed the request.
pub fn require_signer(account: &Account) -> (r: Result<(), ProgramError>)
    ensures
        r == if account.is_signer {
            Ok::<(), ProgramError>(())
        } else {
            Err::<(), ProgramError>(ProgramError::MissingRequiredSignature)
        },
{
    if account.is_signer {
        Ok(())
    } else {
        Err(ProgramError::MissingRequiredSignature)
    }
}

/// Refuses a cell that this program does not own.
pub fn require_owner(account: &Account, program_id: &Pubkey) -> (r: Result<(), ProgramError>)
    ensures
        r == if account.owner == *program_id {
            Ok::<(), ProgramError>(())
        } else {
            Err::<(), ProgramError>(XaamError::IncorrectProgramId.surfaced())
        },
{
    if account.owner == *program_id {
        Ok(())
    } else {
        Err(ProgramError::from(XaamError::IncorrectProgramId))
    }
}

/// Refuses a cell whose balance is below the least that the host asks of a
/// cell of its size. What that least is, the host says.
pub fn require_rent_exempt(account: &Account, minimum_balance: u64) -> (r: Result<
    (),
    ProgramError,
>)
    ensures
        r == if account.lamports >= minimum_balance {
            Ok::<(), ProgramError>(())
        } else {
            Err::<(), ProgramError>(XaamError::NotRentExempt.surfaced())
        },
{
    if account.lamports >= minimum_balance {
        Ok(())
    } else {
        Err(ProgramError::from(XaamError::NotRentExempt))
    }
}

/// Refuses, for the reason given, a cell that is in use: a record is made
/// in a free cell only, so that no instruction writes a new record over
/// one that exists.
pub fn require_free(account: &Account, refusal: XaamError) -> (r: Result<(), ProgramError>)
    ensures
        r == if !account@.in_use() {
            Ok::<(), ProgramError>(())
        } else {
            Err::<(), ProgramError>(refusal.surfaced())
        },
{
    if account.data.len() > 0 && account.data[0] != 0 {
        Err(ProgramError::from(refusal))
    } else {
        Ok(())
    }
}

/// Refuses an account whose balance does not cover `amount`.
pub fn require_funds(account: &Account, amount: u64) -> (r: Result<(), ProgramError>)
    ensures
        r == if account.lamports >= amount {
            Ok::<(), ProgramError>(())
        } else {
            Err::<(), ProgramError>(XaamError::InsufficientFunds.surfaced())
        },
{
    if account.lamports >= amount {
        Ok(())
    } else {
        Err(ProgramError::from(XaamError::InsufficientFunds))
    }
}

/// Reads the record that a cell holds. A cell that holds none (too short,
/// or with a malformed tag, length or text) is refused with
/// `InvalidAccountData`.
pub fn load<T: Decode>(account: &Account) -> (r: Result<T, ProgramError>)
    ensures
        match r {
            Ok(record) => account@.holds::<T::Model>() == Some(record.model()),
            Err(e) => e == XaamError::InvalidAccountData.surfaced() && account@.holds::<
                T::Model,
            >() is None,
        },
{
    reveal(AccountView::holds);
    match from_cell::<T>(account.data.as_slice()) {
        Some(record) => Ok(record),
        None => Err(ProgramError::from(XaamError::InvalidAccountData)),
    }
}

/// The bytes of a record that is about to be written to a cell. A record
/// that the cell cannot hold is refused with `InvalidAccountData`.
pub fn bytes_for<T: Encode>(record: &T, account: &Account) -> (r: Result<Vec<u8>, ProgramError>)
    ensures
        match r {
            Ok(bytes) => account@.can_hold(record.model()) && bytes@.len() <= account.data@.len()
                && account@.with_record(record.model()) == (AccountView {
                data: overlay(account.data@, bytes@),
                ..account@
            }),
            Err(e) => e == XaamError::InvalidAccountData.surfaced() && !account@.can_hold(
                record.model(),
            ),
        },
{
    reveal(AccountView::can_hold);
    reveal(AccountView::with_record);
    match to_bytes(record) {
        Some(bytes) => {
            if bytes.len() <= account.data.len() {
                Ok(bytes)
            } else {
                Err(ProgramError::from(XaamError::InvalidAccountData))
            }
        },
        None => Err(ProgramError::from(XaamError::InvalidAccountData)),
    }
}

/// Writes a record to a cell, or refuses with `InvalidAccountData` a record
/// that the cell cannot hold, and then leaves the cell as it was.
pub fn store<T: Encode>(record: &T, account: &mut Account) -> (r: Result<(), ProgramError>)
    ensures
        match r {
            Ok(_) => old(account)@.can_hold(record.model()) && final(account)@ == old(
                account,
            )@.with_record(record.model()),
            Err(e) => e == XaamError::InvalidAccountData.surfaced() && !old(account)@.can_hold(
                record.model(),
            ) && *final(account) == *old(account),
        },
{
    match bytes_for(record, account) {
        Ok(bytes) => {
            crate::codec::write_cell(&mut account.data, bytes.as_slice());
            Ok(())
        },
        Err(e) => Err(e),
    }
}

} // verus!
