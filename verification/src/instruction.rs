//! The instructions of the program and their wire format.
//!
//! The first byte of an instruction is its tag; what follows depends on it.
use crate::error::{PollError, VoterError};
use crate::text::text_of;
use vstd::prelude::*;
use vstd::slice::slice_subrange;
use vstd::utf8::*;

verus! {

/// The sum of the lengths in `sizes`.
pub open spec fn total(sizes: Seq<u8>) -> int
    decreases sizes.len(),
{
    if sizes.len() == 0 {
        0
    } else {
        total(sizes.drop_last()) + sizes.last()
    }
}

/// What a [`PollInstruction`] holds.
pub enum PollInstructionView {
    CreatePoll {
        title_length: u8,
        title: Seq<char>,
        options_count: u8,
        options_size: Seq<u8>,
        options: Seq<Seq<char>>,
    },
    VotePoll { id: u8, option_id: u8 },
}

/// The layout of the bytes that follow the tag of a create-poll instruction:
/// the title's length, the title, the number of options, the length of each
/// option, then the options' texts in a row.
pub struct CreatePollLayout {
    pub input: Seq<u8>,
}

impl CreatePollLayout {
    pub open spec fn title_length(self) -> u8 {
        self.input[0]
    }

    pub open spec fn title(self) -> Seq<u8> {
        self.input.subrange(1, 1 + self.title_length())
    }

    pub open spec fn options_count(self) -> u8 {
        self.input[1 + self.title_length()]
    }

    pub open spec fn options_size(self) -> Seq<u8> {
        self.input.subrange(2 + self.title_length(), self.texts())
    }

    /// The offset of the first option's text.
    pub open spec fn texts(self) -> int {
        2 + self.title_length() + self.options_count()
    }

    /// The bytes of the text of option `i`.
    pub open spec fn option(self, i: int) -> Seq<u8> {
        self.input.subrange(
            self.texts() + total(self.options_size().take(i)),
            self.texts() + total(self.options_size().take(i + 1)),
        )
    }

    /// The input holds all that the lengths in it announce, and every text in
    /// it is UTF-8.
    pub open spec fn complete(self) -> bool {
        &&& self.input.len() >= 1
        &&& self.input.len() >= 2 + self.title_length()
        &&& self.input.len() >= self.texts() + total(self.options_size())
        &&& valid_utf8(self.title())
        &&& forall|i: int| 0 <= i < self.options_count() ==> valid_utf8(#[trigger] self.option(i))
    }

    /// The instruction that a complete input spells.
    pub open spec fn instruction(self) -> PollInstructionView {
        PollInstructionView::CreatePoll {
            title_length: self.title_length(),
            title: decode_utf8(self.title()),
            options_count: self.options_count(),
            options_size: self.options_size(),
            options: Seq::new(
                self.options_count() as nat,
                |i: int| decode_utf8(self.option(i)),
            ),
        }
    }
}

impl PollInstructionView {
    /// The create-poll instruction spelled by `input`, the bytes after the
    /// tag.
    pub open spec fn create_poll(input: Seq<u8>) -> Result<PollInstructionView, PollError> {
        let layout = CreatePollLayout { input };
        if layout.complete() {
            Ok(layout.instruction())
        } else {
            Err(PollError::InvalidInstructionData)
        }
    }

    /// The cast-vote instruction spelled by `input`, the bytes after the tag.
    pub open spec fn vote_poll(input: Seq<u8>) -> Result<PollInstructionView, PollError> {
        if input.len() >= 2 {
            Ok(PollInstructionView::VotePoll { id: input[0], option_id: input[1] })
        } else {
            Err(PollError::InvalidInstructionData)
        }
    }

    /// The instruction spelled by `input`.
    pub open spec fn unpacked(input: Seq<u8>) -> Result<PollInstructionView, PollError> {
        if input.len() == 0 {
            Err(PollError::InvalidInstruction)
        } else if input[0] == 0 {
            Self::create_poll(input.drop_first())
        } else if input[0] == 1 {
            Self::vote_poll(input.drop_first())
        } else {
            Err(PollError::InvalidInstructionData)
        }
    }
}

/// An instruction of the poll program.
#[derive(Debug, Clone)]
pub enum PollInstruction {
    /// Creates the next poll. Tag 0.
    CreatePoll {
        /// Length in bytes of `title`.
        title_length: u8,
        title: String,
        /// The number of options.
        options_count: u8,
        /// Length in bytes of each option.
        options_size: Vec<u8>,
        options: Vec<String>,
    },
    /// Casts a vote for option `option_id`, counted from 1, of poll `id`.
    /// Tag 1.
    VotePoll { id: u8, option_id: u8 },
}

impl View for PollInstruction {
    type V = PollInstructionView;

    open spec fn view(&self) -> PollInstructionView {
        match self {
            PollInstruction::CreatePoll {
                title_length,
                title,
                options_count,
                options_size,
                options,
            } => PollInstructionView::CreatePoll {
                title_length: *title_length,
                title: title@,
                options_count: *options_count,
                options_size: options_size@,
                options: Seq::new(options@.len(), |i: int| options@[i]@),
            },
            PollInstruction::VotePoll { id, option_id } => PollInstructionView::VotePoll {
                id: *id,
                option_id: *option_id,
            },
        }
    }
}

/// The lengths up to and with the `i`th add up to those before it and the
/// `i`th.
proof fn lemma_total_step(sizes: Seq<u8>, i: int)
    requires
        0 <= i < sizes.len(),
    ensures
        total(sizes.take(i + 1)) == total(sizes.take(i)) + sizes[i],
        total(sizes.take(0)) == 0,
{
    assert(sizes.take(i + 1).drop_last() =~= sizes.take(i));
}

/// Lengths never add up to less than a part of them does.
proof fn lemma_total_grows(sizes: Seq<u8>, i: int)
    requires
        0 <= i <= sizes.len(),
    ensures
        0 <= total(sizes.take(i)) <= total(sizes),
    decreases sizes.len() - i,
{
    if i == sizes.len() {
        assert(sizes.take(i) =~= sizes);
        lemma_total_nonnegative(sizes);
    } else {
        lemma_total_step(sizes, i);
        lemma_total_grows(sizes, i + 1);
        lemma_total_nonnegative(sizes.take(i));
    }
}

proof fn lemma_total_nonnegative(sizes: Seq<u8>)
    ensures
        0 <= total(sizes),
    decreases sizes.len(),
{
    if sizes.len() > 0 {
        lemma_total_nonnegative(sizes.drop_last());
    }
}

impl PollInstruction {
    /// Reads an instruction from its bytes.
    pub fn unpack(input: &[u8]) -> (instruction: Result<PollInstruction, PollError>)
        ensures
            match instruction {
                Ok(i) => PollInstructionView::unpacked(input@) == Ok::<
                    PollInstructionView,
                    PollError,
                >(i@),
                Err(e) => PollInstructionView::unpacked(input@) == Err::<
                    PollInstructionView,
                    PollError,
                >(e),
            },
    {
        if input.len() == 0 {
            return Err(PollError::InvalidInstruction);
        }
        let tag = input[0];
        let rest = slice_subrange(input, 1, input.len());
        assert(rest@ =~= input@.drop_first());
        if tag == 0 {
            PollInstruction::create_poll(rest)
        } else if tag == 1 {
            PollInstruction::vote_poll(rest)
        } else {
            Err(PollError::InvalidInstructionData)
        }
    }

    /// Reads a create-poll instruction from the bytes after its tag.
    pub fn create_poll(input: &[u8]) -> (instruction: Result<PollInstruction, PollError>)
        ensures
            match instruction {
                Ok(i) => PollInstructionView::create_poll(input@) == Ok::<
                    PollInstructionView,
                    PollError,
                >(i@),
                Err(e) => PollInstructionView::create_poll(input@) == Err::<
                    PollInstructionView,
                    PollError,
                >(e),
            },
    {
        let ghost layout = CreatePollLayout { input: input@ };
        if input.len() < 1 {
            return Err(PollError::InvalidInstructionData);
        }
        let title_length = input[0];
        let title_end: usize = 1 + title_length as usize;
        if input.len() < title_end + 1 {
            return Err(PollError::InvalidInstructionData);
        }
        let title = match text_of(slice_subrange(input, 1, title_end)) {
            Some(title) => title,
            None => {
                return Err(PollError::InvalidInstructionData);
            },
        };
        let options_count = input[title_end];
        let texts: usize = title_end + 1 + options_count as usize;
        if input.len() < texts {
            proof {
                lemma_total_nonnegative(layout.options_size());
            }
            return Err(PollError::InvalidInstructionData);
        }
        let sizes = slice_subrange(input, title_end + 1, texts);
        let mut options_size: Vec<u8> = Vec::new();
        let mut k: usize = 0;
        while k < options_count as usize
            invariant
                k <= options_count,
                sizes@.len() == options_count,
                options_size@ == sizes@.take(k as int),
            decreases options_count - k,
        {
            options_size.push(sizes[k]);
            assert(options_size@ =~= sizes@.take(k + 1));
            k = k + 1;
        }
        assert(options_size@ =~= layout.options_size());
        let mut options: Vec<String> = Vec::new();
        let mut start: usize = texts;
        let mut i: usize = 0;
        while i < options_count as usize
            invariant
                i <= options_count,
                layout.input == input@,
                texts == layout.texts(),
                texts <= input@.len(),
                options_size@ == layout.options_size(),
                options_size@.len() == options_count == layout.options_count(),
                start == texts + total(options_size@.take(i as int)),
                start <= texts + 255 * i,
                start <= input@.len(),
                options@.len() == i,
                forall|j: int| 0 <= j < i ==> valid_utf8(#[trigger] layout.option(j)),
                forall|j: int|
                    0 <= j < i ==> (#[trigger] options@[j])@ == decode_utf8(layout.option(j)),
            decreases options_count - i,
        {
            let size = options_size[i] as usize;
            proof {
                lemma_total_step(options_size@, i as int);
                lemma_total_grows(options_size@, i + 1);
            }
            if input.len() < start + size {
                return Err(PollError::InvalidInstructionData);
            }
            match text_of(slice_subrange(input, start, start + size)) {
                Some(option) => {
                    options.push(option);
                },
                None => {
                    assert(!valid_utf8(layout.option(i as int)));
                    return Err(PollError::InvalidInstructionData);
                },
            }
            start = start + size;
            i = i + 1;
        }
        proof {
            assert(options_size@.take(options_count as int) =~= options_size@);
        }
        let instruction = PollInstruction::CreatePoll {
            title_length,
            title,
            options_count,
            options_size,
            options,
        };
        proof {
            let spelled = layout.instruction();
            assert(instruction@->options =~= spelled->options);
        }
        Ok(instruction)
    }

    /// Reads a cast-vote instruction from the bytes after its tag.
    pub fn vote_poll(input: &[u8]) -> (instruction: Result<PollInstruction, PollError>)
        ensures
            match instruction {
                Ok(i) => PollInstructionView::vote_poll(input@) == Ok::<
                    PollInstructionView,
                    PollError,
                >(i@),
                Err(e) => PollInstructionView::vote_poll(input@) == Err::<
                    PollInstructionView,
                    PollError,
                >(e),
            },
    {
        if input.len() < 2 {
            return Err(PollError::InvalidInstructionData);
        }
        Ok(PollInstruction::VotePoll { id: input[0], option_id: input[1] })
    }
}

/// An instruction of the group vote.
#[derive(Debug, Clone, Copy, PartialEq, Eq, Structural)]
pub enum VoteInstruction {
    /// Sets up the tally of a group. Tag 0.
    Initialize { group: u8 },
    /// Casts a vote in a group. Tag 1.
    Vote { group: u8, value: u8 },
}

impl VoteInstruction {
    /// The group named by `input`, the bytes after the tag: its first byte.
    pub open spec fn group(input: Seq<u8>) -> Result<u8, VoterError> {
        if input.len() >= 1 {
            Ok(input[0])
        } else {
            Err(VoterError::InvalidInstruction)
        }
    }

    /// The vote named by `input`, the bytes after the tag: its second byte.
    pub open spec fn increment(input: Seq<u8>) -> Result<u8, VoterError> {
        if input.len() >= 2 {
            Ok(input[1])
        } else {
            Err(VoterError::InvalidInstruction)
        }
    }

    /// The instruction spelled by `input`.
    pub open spec fn unpacked(input: Seq<u8>) -> Result<VoteInstruction, VoterError> {
        if input.len() >= 2 && input[0] == 0 {
            Ok(VoteInstruction::Initialize { group: input[1] })
        } else if input.len() >= 3 && input[0] == 1 {
            Ok(VoteInstruction::Vote { group: input[1], value: input[2] })
        } else {
            Err(VoterError::InvalidInstruction)
        }
    }

    /// Reads an instruction from its bytes.
    pub fn unpack(input: &[u8]) -> (instruction: Result<VoteInstruction, VoterError>)
        ensures
            instruction == VoteInstruction::unpacked(input@),
    {
        if input.len() == 0 {
            return Err(VoterError::InvalidInstruction);
        }
        let tag = input[0];
        let rest = slice_subrange(input, 1, input.len());
        if tag == 0 {
            match VoteInstruction::unpack_group(rest) {
                Ok(group) => Ok(VoteInstruction::Initialize { group }),
                Err(e) => Err(e),
            }
        } else if tag == 1 {
            let group = match VoteInstruction::unpack_group(rest) {
                Ok(group) => group,
                Err(e) => {
                    return Err(e);
                },
            };
            match VoteInstruction::unpack_increment(rest) {
                Ok(value) => Ok(VoteInstruction::Vote { group, value }),
                Err(e) => Err(e),
            }
        } else {
            Err(VoterError::InvalidInstruction)
        }
    }

    /// Reads the group from the bytes after the tag.
    pub fn unpack_group(input: &[u8]) -> (group: Result<u8, VoterError>)
        ensures
            group == VoteInstruction::group(input@),
    {
        if input.len() < 1 {
            return Err(VoterError::InvalidInstruction);
        }
        Ok(input[0])
    }

    /// Reads the vote from the bytes after the tag.
    pub fn unpack_increment(input: &[u8]) -> (value: Result<u8, VoterError>)
        ensures
            value == VoteInstruction::increment(input@),
    {
        if input.len() < 2 {
            return Err(VoterError::InvalidInstruction);
        }
        Ok(input[1])
    }
}

} // verus!
