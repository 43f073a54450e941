//! The failure reasons of the program, and their faces at its boundary.

use vstd::prelude::*;

verus! {

/// Why an instruction was refused. The set is closed and flat: each reason
/// names one violated precondition or guard, and each has a stable ordinal
/// under which callers see it.
#[derive(Clone, Copy, Debug, PartialEq, Eq, Structural)]
pub enum XaamError {
    /// Invalid instruction data
    InvalidInstructionData,
    /// Not rent exempt
    NotRentExempt,
    /// Expected account owner to be the program
    IncorrectProgramId,
    /// Invalid account data
    InvalidAccountData,
    /// Insufficient funds
    InsufficientFunds,
    /// Invalid task state
    InvalidTaskState,
    /// Invalid agent state
    InvalidAgentState,
    /// Invalid judge state
    InvalidJudgeState,
    /// Invalid stake state
    InvalidStakeState,
    /// Unauthorized operation
    Unauthorized,
    /// Task deadline expired
    TaskDeadlineExpired,
    /// Invalid deliverable
    InvalidDeliverable,
}

impl XaamError {
    /// The ordinal of the reason: its place in the declaration, from zero.
    pub open spec fn ordinal(self) -> u32 {
        match self {
            XaamError::InvalidInstructionData => 0,
            XaamError::NotRentExempt => 1,
            XaamError::IncorrectProgramId => 2,
            XaamError::InvalidAccountData => 3,
            XaamError::InsufficientFunds => 4,
            XaamError::InvalidTaskState => 5,
            XaamError::InvalidAgentState => 6,
            XaamError::InvalidJudgeState => 7,
            XaamError::InvalidStakeState => 8,
            XaamError::Unauthorized => 9,
            XaamError::TaskDeadlineExpired => 10,
            XaamError::InvalidDeliverable => 11,
        }
    }

    /// The reason with the given ordinal, if there is one.
    pub open spec fn of_ordinal(code: u32) -> Option<XaamError> {
        if code == 0 {
            Some(XaamError::InvalidInstructionData)
        } else if code == 1 {
            Some(XaamError::NotRentExempt)
        } else if code == 2 {
            Some(XaamError::IncorrectProgramId)
        } else if code == 3 {
            Some(XaamError::InvalidAccountData)
        } else if code == 4 {
            Some(XaamError::InsufficientFunds)
        } else if code == 5 {
            Some(XaamError::InvalidTaskState)
        } else if code == 6 {
            Some(XaamError::InvalidAgentState)
        } else if code == 7 {
            Some(XaamError::InvalidJudgeState)
        } else if code == 8 {
            Some(XaamError::InvalidStakeState)
        } else if code == 9 {
            Some(XaamError::Unauthorized)
        } else if code == 10 {
            Some(XaamError::TaskDeadlineExpired)
        } else if code == 11 {
            Some(XaamError::InvalidDeliverable)
        } else {
            None
        }
    }

    /// The short description that callers are shown.
    pub open spec fn description(self) -> Seq<char> {
        match self {
            XaamError::InvalidInstructionData => "Invalid instruction data"@,
            XaamError::NotRentExempt => "Account not rent exempt"@,
            XaamError::IncorrectProgramId => "Account owner should be the program"@,
            XaamError::InvalidAccountData => "Invalid account data"@,
            XaamError::InsufficientFunds => "Insufficient funds"@,
            XaamError::InvalidTaskState => "Invalid task state"@,
            XaamError::InvalidAgentState => "Invalid agent state"@,
            XaamError::InvalidJudgeState => "Invalid judge state"@,
            XaamError::InvalidStakeState => "Invalid stake state"@,
            XaamError::Unauthorized => "Unauthorized operation"@,
            XaamError::TaskDeadlineExpired => "Task deadline expired"@,
            XaamError::InvalidDeliverable => "Invalid deliverable"@,
        }
    }

    /// The face of the reason at the program's boundary.
    pub open spec fn surfaced(self) -> ProgramError {
        ProgramError::Custom(self.ordinal())
    }

    /// The numeric code under which callers see the reason.
    pub fn code(&self) -> (code: u32)
        ensures
            code == self.ordinal(),
    {
        match self {
            XaamError::InvalidInstructionData => 0,
            XaamError::NotRentExempt => 1,
            XaamError::IncorrectProgramId => 2,
            XaamError::InvalidAccountData => 3,
            XaamError::InsufficientFunds => 4,
            XaamError::InvalidTaskState => 5,
            XaamError::InvalidAgentState => 6,
            XaamError::InvalidJudgeState => 7,
            XaamError::InvalidStakeState => 8,
            XaamError::Unauthorized => 9,
            XaamError::TaskDeadlineExpired => 10,
            XaamError::InvalidDeliverable => 11,
        }
    }

    /// The reason that a numeric code stands for; `None` for a number that
    /// is no code of this program.
    pub fn from_code(code: u32) -> (reason: Option<XaamError>)
        ensures
            reason == XaamError::of_ordinal(code),
    {
        match code {
            0 => Some(XaamError::InvalidInstructionData),
            1 => Some(XaamError::NotRentExempt),
            2 => Some(XaamError::IncorrectProgramId),
            3 => Some(XaamError::InvalidAccountData),
            4 => Some(XaamError::InsufficientFunds),
            5 => Some(XaamError::InvalidTaskState),
            6 => Some(XaamError::InvalidAgentState),
            7 => Some(XaamError::InvalidJudgeState),
            8 => Some(XaamError::InvalidStakeState),
            9 => Some(XaamError::Unauthorized),
            10 => Some(XaamError::TaskDeadlineExpired),
            11 => Some(XaamError::InvalidDeliverable),
            _ => None,
        }
    }

    /// The short description of the reason, for display.
    pub fn message(&self) -> (text: String)
        ensures
            text@ == self.description(),
    {
        match self {
            XaamError::InvalidInstructionData => "Invalid instruction data".to_owned(),
            XaamError::NotRentExempt => "Account not rent exempt".to_owned(),
            XaamError::IncorrectProgramId => "Account owner should be the program".to_owned(),
            XaamError::InvalidAccountData => "Invalid account data".to_owned(),
            XaamError::InsufficientFunds => "Insufficient funds".to_owned(),
            XaamError::InvalidTaskState => "Invalid task state".to_owned(),
            XaamError::InvalidAgentState => "Invalid agent state".to_owned(),
            XaamError::InvalidJudgeState => "Invalid judge state".to_owned(),
            XaamError::InvalidStakeState => "Invalid stake state".to_owned(),
            XaamError::Unauthorized => "Unauthorized operation".to_owned(),
            XaamError::TaskDeadlineExpired => "Task deadline expired".to_owned(),
            XaamError::InvalidDeliverable => "Invalid deliverable".to_owned(),
        }
    }
}

/// The codes are stable and tell the reasons apart: a code leads back to
/// the one reason it came from.
pub proof fn lemma_code_names_one_reason(reason: XaamError)
    ensures
        reason.ordinal() < 12,
        XaamError::of_ordinal(reason.ordinal()) == Some(reason),
{
}

/// No number but the twelve codes stands for a reason.
pub proof fn lemma_reason_of_code(code: u32)
    ensures
        XaamError::of_ordinal(code) matches Some(reason) ==> reason.ordinal() == code,
        XaamError::of_ordinal(code) is None <==> code >= 12,
{
}

/// What the program hands back when it refuses an instruction: one of its
/// own reasons under its code, or one of the host's generic conditions.
#[derive(Clone, Copy, Debug, PartialEq, Eq, Structural)]
pub enum ProgramError {
    /// One of the program's own reasons, by its code.
    Custom(u32),
    /// An argument has a shape that the instruction does not take.
    InvalidArgument,
    /// The account that must have signed has not.
    MissingRequiredSignature,
    /// The instruction was given fewer accounts than it reads.
    NotEnoughAccountKeys,
    /// The host offers no clock to read the time from.
    UnsupportedSysvar,
}

impl From<XaamError> for ProgramError {
    fn from(e: XaamError) -> (surfaced: ProgramError) {
        ProgramError::Custom(e.code())
    }
}

impl vstd::std_specs::convert::FromSpecImpl<XaamError> for ProgramError {
    open spec fn obeys_from_spec() -> bool {
        true
    }

    open spec fn from_spec(e: XaamError) -> ProgramError {
        e.surfaced()
    }
}

} // verus!
