//! The errors of the program. Each has a stable numeric code and a message.
use vstd::prelude::*;
use vstd::string::StringExecFns;

verus! {

/// Why a poll transaction was refused. Every error ends the invocation
/// before anything is written.
#[derive(Debug, Copy, Clone, PartialEq, Eq, Structural)]
pub enum PollError {
    /// The instruction bytes are empty.
    InvalidInstruction,
    /// The instruction bytes are malformed or cut short, or name values
    /// outside the bounds of a poll.
    InvalidInstructionData,
    /// A record that has to be initialized is not.
    NotInitialized,
    /// The address handed in is not the one derived for the record.
    AddressMismatch,
    /// The poll counter stands at 255 already.
    PollsOverflow,
    /// The record at the poll's address is initialized already.
    PollAlreadyCreated,
    /// The poll is not the one named, or it has no such option.
    PollMismatch,
    /// This voter's guard record for the poll is initialized already.
    AlreadyVoted,
    /// Stored bytes are no record: wrong length, bad flag byte or text that
    /// is not UTF-8.
    CorruptRecord,
    /// The transaction was handed fewer accounts than it reads.
    NotEnoughAccounts,
    /// The chosen option's tally cannot grow any further.
    TallyOverflow,
}

impl PollError {
    /// The numeric code of the error.
    pub open spec fn spec_code(self) -> u32 {
        match self {
            PollError::InvalidInstruction => 0,
            PollError::InvalidInstructionData => 1,
            PollError::NotInitialized => 2,
            PollError::AddressMismatch => 3,
            PollError::PollsOverflow => 4,
            PollError::PollAlreadyCreated => 5,
            PollError::PollMismatch => 6,
            PollError::AlreadyVoted => 7,
            PollError::CorruptRecord => 8,
            PollError::NotEnoughAccounts => 9,
            PollError::TallyOverflow => 10,
        }
    }

    /// The message of the error.
    pub open spec fn spec_message(self) -> Seq<char> {
        match self {
            PollError::InvalidInstruction => "Invalid Instruction"@,
            PollError::InvalidInstructionData => "Invalid Instruction Data"@,
            PollError::NotInitialized => "Not Initialized"@,
            PollError::AddressMismatch => "Pda did not match"@,
            PollError::PollsOverflow => "Only 255 Polls Supported"@,
            PollError::PollAlreadyCreated => "Poll Already Created"@,
            PollError::PollMismatch => "Poll Mismatch"@,
            PollError::AlreadyVoted => "Already Voted"@,
            PollError::CorruptRecord => "Corrupt Record"@,
            PollError::NotEnoughAccounts => "Not Enough Accounts"@,
            PollError::TallyOverflow => "Tally Overflow"@,
        }
    }

    /// The numeric code under which the error is reported.
    pub fn code(&self) -> (code: u32)
        ensures
            code == self.spec_code(),
    {
        match self {
            PollError::InvalidInstruction => 0,
            PollError::InvalidInstructionData => 1,
            PollError::NotInitialized => 2,
            PollError::AddressMismatch => 3,
            PollError::PollsOverflow => 4,
            PollError::PollAlreadyCreated => 5,
            PollError::PollMismatch => 6,
            PollError::AlreadyVoted => 7,
            PollError::CorruptRecord => 8,
            PollError::NotEnoughAccounts => 9,
            PollError::TallyOverflow => 10,
        }
    }

    /// The message under which the error is reported.
    pub fn message(&self) -> (text: String)
        ensures
            text@ == self.spec_message(),
    {
        match self {
            PollError::InvalidInstruction => String::from_str("Invalid Instruction"),
            PollError::InvalidInstructionData => String::from_str("Invalid Instruction Data"),
            PollError::NotInitialized => String::from_str("Not Initialized"),
            PollError::AddressMismatch => String::from_str("Pda did not match"),
            PollError::PollsOverflow => String::from_str("Only 255 Polls Supported"),
            PollError::PollAlreadyCreated => String::from_str("Poll Already Created"),
            PollError::PollMismatch => String::from_str("Poll Mismatch"),
            PollError::AlreadyVoted => String::from_str("Already Voted"),
            PollError::CorruptRecord => String::from_str("Corrupt Record"),
            PollError::NotEnoughAccounts => String::from_str("Not Enough Accounts"),
            PollError::TallyOverflow => String::from_str("Tally Overflow"),
        }
    }
}

/// Why an instruction of the group vote was refused.
#[derive(Debug, Copy, Clone, PartialEq, Eq, Structural)]
pub enum VoterError {
    /// The instruction bytes are empty, cut short or of an unknown kind.
    InvalidInstruction,
    /// The voter has voted in this group already.
    AlreadyVoted,
    /// The group's tally is not initialized.
    VoteNotInitialized,
    /// The tally handed in is not the group's.
    VoteMismatch,
}

impl VoterError {
    /// The numeric code of the error.
    pub open spec fn spec_code(self) -> u32 {
        match self {
            VoterError::InvalidInstruction => 0,
            VoterError::AlreadyVoted => 1,
            VoterError::VoteNotInitialized => 2,
            VoterError::VoteMismatch => 3,
        }
    }

    /// The message of the error.
    pub open spec fn spec_message(self) -> Seq<char> {
        match self {
            VoterError::InvalidInstruction => "Invalid Instruction"@,
            VoterError::AlreadyVoted => "Already Voted"@,
            VoterError::VoteNotInitialized => "Vote not initialized"@,
            VoterError::VoteMismatch => "Vote account does not Match"@,
        }
    }

    /// The numeric code under which the error is reported.
    pub fn code(&self) -> (code: u32)
        ensures
            code == self.spec_code(),
    {
        match self {
            VoterError::InvalidInstruction => 0,
            VoterError::AlreadyVoted => 1,
            VoterError::VoteNotInitialized => 2,
            VoterError::VoteMismatch => 3,
        }
    }

    /// The message under which the error is reported.
    pub fn message(&self) -> (text: String)
        ensures
            text@ == self.spec_message(),
    {
        match self {
            VoterError::InvalidInstruction => String::from_str("Invalid Instruction"),
            VoterError::AlreadyVoted => String::from_str("Already Voted"),
            VoterError::VoteNotInitialized => String::from_str("Vote not initialized"),
            VoterError::VoteMismatch => String::from_str("Vote account does not Match"),
        }
    }
}

} // verus!
