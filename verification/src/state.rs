//! The records of the program and their byte layouts.
//!
//! Each record has one fixed length and each field one fixed offset. A flag
//! byte is 0 or 1. Integers wider than a byte are little-endian. Text fills
//! its field: the bytes of the text, then spaces.
use crate::bytes::{copy_into, zeroed, zeros};
use crate::error::PollError;
use crate::text::{
    byte_len, lemma_padded_full, lemma_padded_len, lemma_zeros_text, padded, text_of, write_text,
};
use vstd::bytes::*;
use vstd::prelude::*;
use vstd::slice::slice_subrange;
use vstd::utf8::*;

verus! {

/// Width in bytes of a poll's title field.
pub const POLL_TITLE_SIZE: usize = 100;

/// Width in bytes of an option's title field.
pub const POLL_OPTION_SIZE: usize = 50;

/// The byte that stands for a flag.
pub open spec fn flag_byte(flag: bool) -> u8 {
    if flag {
        1
    } else {
        0
    }
}

fn flag_to_byte(flag: bool) -> (byte: u8)
    ensures
        byte == flag_byte(flag),
{
    if flag {
        1
    } else {
        0
    }
}

/// The one counter of the program: how many polls were created.
#[derive(Debug, Clone, Copy, PartialEq, Eq, Structural)]
pub struct PollCount {
    pub is_initialized: bool,
    /// The id of the poll created last; 0 before the first.
    pub count: u8,
    /// The bump seed found when the counter's address was derived.
    pub bump: u8,
}

impl PollCount {
    /// Length in bytes of a stored counter.
    pub const SIZE: usize = 1 + 1 + 1;

    /// The bytes that store the counter.
    pub open spec fn packed(self) -> Seq<u8> {
        seq![flag_byte(self.is_initialized), self.count, self.bump]
    }

    /// The counter that `bytes` store, if they store one.
    pub open spec fn unpacked(bytes: Seq<u8>) -> Result<PollCount, PollError> {
        if bytes.len() != 3 || bytes[0] > 1 {
            Err(PollError::CorruptRecord)
        } else {
            Ok(PollCount { is_initialized: bytes[0] == 1, count: bytes[1], bump: bytes[2] })
        }
    }

    pub fn is_initialized(&self) -> (flag: bool)
        ensures
            flag == self.is_initialized,
    {
        self.is_initialized
    }

    /// Reads a counter from its stored bytes.
    pub fn unpack_from_slice(src: &[u8]) -> (record: Result<PollCount, PollError>)
        ensures
            record == PollCount::unpacked(src@),
    {
        if src.len() != PollCount::SIZE || src[0] > 1 {
            return Err(PollError::CorruptRecord);
        }
        Ok(PollCount { is_initialized: src[0] == 1, count: src[1], bump: src[2] })
    }

    /// Reads a counter that has to be initialized from its stored bytes.
    pub fn unpack(input: &[u8]) -> (record: Result<PollCount, PollError>)
        ensures
            record == match PollCount::unpacked(input@) {
                Ok(stored) => if stored.is_initialized {
                    Ok(stored)
                } else {
                    Err(PollError::NotInitialized)
                },
                Err(e) => Err(e),
            },
    {
        let record = PollCount::unpack_from_slice(input)?;
        if record.is_initialized {
            Ok(record)
        } else {
            Err(PollError::NotInitialized)
        }
    }

    /// Writes the counter's bytes over `dst`.
    pub fn pack_into_slice(&self, dst: &mut [u8])
        requires
            old(dst)@.len() == PollCount::SIZE,
        ensures
            final(dst)@ == self.packed(),
    {
        dst[0] = flag_to_byte(self.is_initialized);
        dst[1] = self.count;
        dst[2] = self.bump;
        assert(dst@ =~= self.packed());
    }
}

/// What a [`PollOption`] holds.
pub struct PollOptionView {
    pub id: u8,
    pub title: Seq<char>,
    pub title_length: u8,
    pub votes: u64,
}

impl PollOptionView {
    /// The title is no wider than its field.
    pub open spec fn fits(self) -> bool {
        byte_len(self.title) <= POLL_OPTION_SIZE
    }

    /// The title fills its field.
    pub open spec fn filled(self) -> bool {
        byte_len(self.title) == POLL_OPTION_SIZE
    }

    /// The option with its title padded to its field.
    pub open spec fn padded(self) -> PollOptionView {
        PollOptionView { title: padded(self.title, POLL_OPTION_SIZE as nat), ..self }
    }

    /// The bytes that store the option. The title is stored padded.
    pub open spec fn packed(self) -> Seq<u8> {
        seq![self.id] + encode_utf8(padded(self.title, POLL_OPTION_SIZE as nat))
            + seq![self.title_length] + spec_u64_to_le_bytes(self.votes)
    }

    /// Whether `bytes` store an option.
    pub open spec fn readable(bytes: Seq<u8>) -> bool {
        bytes.len() == 60 && valid_utf8(bytes.subrange(1, 51))
    }

    /// The option that `bytes` store, where they store one.
    pub open spec fn read(bytes: Seq<u8>) -> PollOptionView {
        PollOptionView {
            id: bytes[0],
            title: decode_utf8(bytes.subrange(1, 51)),
            title_length: bytes[51],
            votes: spec_u64_from_le_bytes(bytes.subrange(52, 60)),
        }
    }

    /// The option that `bytes` store, if they store one.
    pub open spec fn unpacked(bytes: Seq<u8>) -> Result<PollOptionView, PollError> {
        if Self::readable(bytes) {
            Ok(Self::read(bytes))
        } else {
            Err(PollError::CorruptRecord)
        }
    }

    /// The option with `count` more votes.
    pub open spec fn voted(self, count: u64) -> PollOptionView {
        PollOptionView { votes: (self.votes + count) as u64, ..self }
    }

    /// The option that all-zero bytes store.
    pub open spec fn blank() -> PollOptionView {
        PollOptionView {
            id: 0,
            title: Seq::new(POLL_OPTION_SIZE as nat, |i: int| '\0'),
            title_length: 0,
            votes: 0,
        }
    }
}

/// One option of a poll. It is stored inside the poll's record.
#[derive(Debug, Clone)]
pub struct PollOption {
    /// The option's slot in the poll, counted from 0.
    pub id: u8,
    /// The option's text, padded to its field.
    pub title: String,
    /// Length in bytes of the text before the padding.
    pub title_length: u8,
    pub votes: u64,
}

impl View for PollOption {
    type V = PollOptionView;

    open spec fn view(&self) -> PollOptionView {
        PollOptionView {
            id: self.id,
            title: self.title@,
            title_length: self.title_length,
            votes: self.votes,
        }
    }
}

impl PollOption {
    /// Length in bytes of a stored option.
    pub const SIZE: usize = 1 + POLL_OPTION_SIZE + 1 + 8;

    /// An option that nobody has voted for yet.
    pub fn new(id: u8, title: String, title_length: u8) -> (option: PollOption)
        ensures
            option@ == (PollOptionView { id, title: title@, title_length, votes: 0 }),
    {
        PollOption { id, title, title_length, votes: 0 }
    }

    /// Adds `count` votes to the option's tally.
    pub fn add_vote(&mut self, count: u64)
        requires
            old(self).votes + count <= u64::MAX,
        ensures
            final(self)@ == old(self)@.voted(count),
            final(self)@.filled() == old(self)@.filled(),
    {
        self.votes = self.votes + count;
    }

    /// Reads an option from its stored bytes. Its title fills its field.
    pub fn unpack_from_slice(src: &[u8]) -> (record: Result<PollOption, PollError>)
        ensures
            match record {
                Ok(option) => option@.filled() && PollOptionView::unpacked(src@) == Ok::<
                    PollOptionView,
                    PollError,
                >(option@),
                Err(e) => PollOptionView::unpacked(src@) == Err::<PollOptionView, PollError>(e),
            },
    {
        if src.len() != PollOption::SIZE {
            return Err(PollError::CorruptRecord);
        }
        let title = match text_of(slice_subrange(src, 1, 1 + POLL_OPTION_SIZE)) {
            Some(title) => title,
            None => {
                return Err(PollError::CorruptRecord);
            },
        };
        Ok(
            PollOption {
                id: src[0],
                title,
                title_length: src[51],
                votes: u64_from_le_bytes(slice_subrange(src, 52, 60)),
            },
        )
    }

    /// Writes the option's bytes over `dst`, the title padded to its field.
    pub fn pack_into_slice(&self, dst: &mut [u8])
        requires
            self@.fits(),
            old(dst)@.len() == PollOption::SIZE,
        ensures
            final(dst)@ == self@.packed(),
    {
        proof {
            lemma_padded_len(self.title@, 50);
        }
        dst[0] = self.id;
        write_text(dst, 1, self.title.as_str(), POLL_OPTION_SIZE);
        dst[51] = self.title_length;
        let votes = u64_to_le_bytes(self.votes);
        copy_into(dst, 52, votes.as_slice());
        assert(dst@ =~= self@.packed());
    }
}

/// What a [`Poll`] holds.
pub struct PollView {
    pub is_initialized: bool,
    pub id: u8,
    pub title: Seq<char>,
    pub title_length: u8,
    pub options: Seq<PollOptionView>,
    pub options_count: u8,
    pub bump: u8,
}

impl PollView {
    /// The title is no wider than its field, and there are four options whose
    /// titles are no wider than theirs.
    pub open spec fn fits(self) -> bool {
        &&& byte_len(self.title) <= POLL_TITLE_SIZE
        &&& self.options.len() == Poll::OPTIONS_COUNT
        &&& forall|i: int| 0 <= i < self.options.len() ==> (#[trigger] self.options[i]).fits()
    }

    /// The title fills its field, and there are four options whose titles fill
    /// theirs.
    pub open spec fn filled(self) -> bool {
        &&& byte_len(self.title) == POLL_TITLE_SIZE
        &&& self.options.len() == Poll::OPTIONS_COUNT
        &&& forall|i: int| 0 <= i < self.options.len() ==> (#[trigger] self.options[i]).filled()
    }

    /// The poll with its title and those of its options padded to their
    /// fields.
    pub open spec fn padded(self) -> PollView {
        PollView {
            title: padded(self.title, POLL_TITLE_SIZE as nat),
            options: Seq::new(self.options.len(), |slot: int| self.options[slot].padded()),
            ..self
        }
    }

    /// The bytes that store the poll. The titles are stored padded.
    pub open spec fn packed(self) -> Seq<u8> {
        seq![flag_byte(self.is_initialized), self.id] + encode_utf8(
            padded(self.title, POLL_TITLE_SIZE as nat),
        ) + seq![self.title_length] + self.options[0].packed() + self.options[1].packed()
            + self.options[2].packed() + self.options[3].packed() + seq![
            self.options_count,
            self.bump,
        ]
    }

    /// The part of a stored poll that stores the option in slot `slot`.
    pub open spec fn option_bytes(bytes: Seq<u8>, slot: int) -> Seq<u8> {
        bytes.subrange(103 + 60 * slot, 163 + 60 * slot)
    }

    /// Whether `bytes` store a poll.
    pub open spec fn readable(bytes: Seq<u8>) -> bool {
        &&& bytes.len() == 345
        &&& bytes[0] <= 1
        &&& valid_utf8(bytes.subrange(2, 102))
        &&& forall|slot: int|
            0 <= slot < 4 ==> PollOptionView::readable(#[trigger] Self::option_bytes(bytes, slot))
    }

    /// The poll that `bytes` store, where they store one.
    pub open spec fn read(bytes: Seq<u8>) -> PollView {
        PollView {
            is_initialized: bytes[0] == 1,
            id: bytes[1],
            title: decode_utf8(bytes.subrange(2, 102)),
            title_length: bytes[102],
            options: Seq::new(
                4,
                |slot: int| PollOptionView::read(Self::option_bytes(bytes, slot)),
            ),
            options_count: bytes[343],
            bump: bytes[344],
        }
    }

    /// The poll that `bytes` store, if they store one.
    pub open spec fn unpacked(bytes: Seq<u8>) -> Result<PollView, PollError> {
        if Self::readable(bytes) {
            Ok(Self::read(bytes))
        } else {
            Err(PollError::CorruptRecord)
        }
    }

    /// The poll with `count` more votes for the option in slot `slot`.
    pub open spec fn voted(self, slot: int, count: u64) -> PollView {
        PollView { options: self.options.update(slot, self.options[slot].voted(count)), ..self }
    }

    /// The poll that all-zero bytes store.
    pub open spec fn blank() -> PollView {
        PollView {
            is_initialized: false,
            id: 0,
            title: Seq::new(POLL_TITLE_SIZE as nat, |i: int| '\0'),
            title_length: 0,
            options: Seq::new(4, |slot: int| PollOptionView::blank()),
            options_count: 0,
            bump: 0,
        }
    }
}

/// A poll: a question, its four option slots and their tallies.
#[derive(Debug, Clone)]
pub struct Poll {
    pub is_initialized: bool,
    /// The value of the poll counter when the poll was created.
    pub id: u8,
    /// The poll's text, padded to its field.
    pub title: String,
    /// Length in bytes of the text before the padding.
    pub title_length: u8,
    /// The four option slots. The first `options_count` hold the poll's
    /// options, the others an empty text.
    pub options: Vec<PollOption>,
    pub options_count: u8,
    /// The bump seed found when the poll's address was derived.
    pub bump: u8,
}

impl View for Poll {
    type V = PollView;

    open spec fn view(&self) -> PollView {
        PollView {
            is_initialized: self.is_initialized,
            id: self.id,
            title: self.title@,
            title_length: self.title_length,
            options: Seq::new(self.options@.len(), |slot: int| self.options@[slot]@),
            options_count: self.options_count,
            bump: self.bump,
        }
    }
}

impl Poll {
    /// The number of option slots of a poll.
    pub const OPTIONS_COUNT: usize = 4;

    /// Length in bytes of a stored poll.
    pub const SIZE: usize = 1 + 1 + POLL_TITLE_SIZE + 1 + PollOption::SIZE * Poll::OPTIONS_COUNT
        + 1 + 1;

    pub fn is_initialized(&self) -> (flag: bool)
        ensures
            flag == self.is_initialized,
    {
        self.is_initialized
    }

    /// Reads the option in slot `idx` from the part of a stored poll that
    /// stores the options. Gives `None` where `data` ends before the slot
    /// does, or the slot stores no option.
    pub fn option_at(data: &[u8], idx: u8) -> (option: Option<PollOption>)
        ensures
            match option {
                Some(o) => 60 * idx + 60 <= data@.len() && o@.filled() && PollOptionView::unpacked(
                    data@.subrange(60 * idx, 60 * idx + 60),
                ) == Ok::<PollOptionView, PollError>(o@),
                None => 60 * idx + 60 > data@.len() || PollOptionView::unpacked(
                    data@.subrange(60 * idx, 60 * idx + 60),
                ) is Err,
            },
    {
        let from: usize = PollOption::SIZE * (idx as usize);
        let to: usize = from + PollOption::SIZE;
        if to > data.len() {
            return None;
        }
        match PollOption::unpack_from_slice(slice_subrange(data, from, to)) {
            Ok(option) => Some(option),
            Err(_) => None,
        }
    }

    /// Adds `count` votes to the tally of the option in slot `option_id`.
    pub fn add_vote(&mut self, option_id: u8, count: u64)
        requires
            option_id < old(self).options@.len(),
            old(self).options@[option_id as int].votes + count <= u64::MAX,
        ensures
            final(self)@ == old(self)@.voted(option_id as int, count),
            old(self)@.filled() ==> final(self)@.filled(),
    {
        self.options[option_id as usize].add_vote(count);
        assert(self@.options =~= old(self)@.voted(option_id as int, count).options);
        proof {
            if old(self)@.filled() {
                voted_poll_filled(old(self)@, option_id as int, count);
            }
        }
    }

    /// Reads a poll from its stored bytes. Its titles fill their fields.
    pub fn unpack_from_slice(src: &[u8]) -> (record: Result<Poll, PollError>)
        ensures
            match record {
                Ok(poll) => poll@.filled() && PollView::unpacked(src@) == Ok::<
                    PollView,
                    PollError,
                >(poll@),
                Err(e) => PollView::unpacked(src@) == Err::<PollView, PollError>(e),
            },
    {
        if src.len() != Poll::SIZE || src[0] > 1 {
            return Err(PollError::CorruptRecord);
        }
        let title = match text_of(slice_subrange(src, 2, 2 + POLL_TITLE_SIZE)) {
            Some(title) => title,
            None => {
                return Err(PollError::CorruptRecord);
            },
        };
        let area = slice_subrange(src, 103, 343);
        let mut options: Vec<PollOption> = Vec::new();
        let mut slot: u8 = 0;
        while slot < 4
            invariant
                slot <= 4,
                src@.len() == 345,
                area@ == src@.subrange(103, 343),
                options@.len() == slot,
                forall|k: int|
                    0 <= k < slot ==> PollOptionView::readable(
                        #[trigger] PollView::option_bytes(src@, k),
                    ),
                forall|k: int|
                    0 <= k < slot ==> (#[trigger] options@[k])@ == PollOptionView::read(
                        PollView::option_bytes(src@, k),
                    ),
            decreases 4 - slot,
        {
            assert(area@.subrange(60 * slot, 60 * slot + 60) =~= PollView::option_bytes(
                src@,
                slot as int,
            ));
            match Poll::option_at(area, slot) {
                Some(option) => {
                    options.push(option);
                },
                None => {
                    return Err(PollError::CorruptRecord);
                },
            }
            slot = slot + 1;
        }
        let poll = Poll {
            is_initialized: src[0] == 1,
            id: src[1],
            title,
            title_length: src[102],
            options,
            options_count: src[343],
            bump: src[344],
        };
        proof {
            assert(poll@.options =~= PollView::read(src@).options);
            poll_read_back(src@);
        }
        Ok(poll)
    }

    /// Reads a poll that has to be initialized from its stored bytes.
    pub fn unpack(input: &[u8]) -> (record: Result<Poll, PollError>)
        ensures
            match record {
                Ok(poll) => poll.is_initialized && poll@.filled() && PollView::unpacked(input@)
                    == Ok::<PollView, PollError>(poll@),
                Err(e) => match PollView::unpacked(input@) {
                    Ok(stored) => !stored.is_initialized && e == PollError::NotInitialized,
                    Err(corrupt) => e == corrupt,
                },
            },
    {
        let record = Poll::unpack_from_slice(input)?;
        if record.is_initialized {
            Ok(record)
        } else {
            Err(PollError::NotInitialized)
        }
    }

    /// Writes the poll's bytes over `dst`, the titles padded to their fields.
    pub fn pack_into_slice(&self, dst: &mut [u8])
        requires
            self@.fits(),
            old(dst)@.len() == Poll::SIZE,
        ensures
            final(dst)@ == self@.packed(),
    {
        proof {
            lemma_padded_len(self.title@, 100);
        }
        dst[0] = flag_to_byte(self.is_initialized);
        dst[1] = self.id;
        write_text(dst, 2, self.title.as_str(), POLL_TITLE_SIZE);
        dst[102] = self.title_length;
        let mut slot: usize = 0;
        while slot < 4
            invariant
                slot <= 4,
                self@.fits(),
                PollOption::SIZE == 60,
                dst@.len() == 345,
                dst@[0] == flag_byte(self.is_initialized),
                dst@[1] == self.id,
                dst@.subrange(2, 102) == encode_utf8(padded(self.title@, 100)),
                dst@[102] == self.title_length,
                forall|k: int|
                    0 <= k < slot ==> #[trigger] PollView::option_bytes(dst@, k)
                        == self@.options[k].packed(),
            decreases 4 - slot,
        {
            let ghost before = dst@;
            let at: usize = 103 + PollOption::SIZE * slot;
            let mut part = zeroed(PollOption::SIZE);
            proof {
                assert(self@.options[slot as int].fits());
                lemma_padded_len(self@.options[slot as int].title, 50);
                lemma_auto_spec_u64_to_from_le_bytes();
            }
            self.options[slot].pack_into_slice(part.as_mut_slice());
            copy_into(dst, at, part.as_slice());
            proof {
                assert(dst@.subrange(2, 102) =~= before.subrange(2, 102));
                assert(PollView::option_bytes(dst@, slot as int) =~= part@);
                assert forall|k: int| 0 <= k < slot implies #[trigger] PollView::option_bytes(
                    dst@,
                    k,
                ) == self@.options[k].packed() by {
                    assert(PollView::option_bytes(dst@, k) =~= PollView::option_bytes(before, k));
                }
            }
            slot = slot + 1;
        }
        let ghost filled = dst@;
        dst[343] = self.options_count;
        dst[344] = self.bump;
        proof {
            assert(dst@.subrange(2, 102) =~= filled.subrange(2, 102));
            assert forall|k: int| 0 <= k < 4 implies #[trigger] PollView::option_bytes(dst@, k)
                == self@.options[k].packed() by {
                assert(PollView::option_bytes(dst@, k) =~= PollView::option_bytes(filled, k));
            }
            lemma_poll_layout(self@, dst@);
        }
    }
}

/// Bytes that hold each field of a poll at its offset are the poll's bytes.
proof fn lemma_poll_layout(poll: PollView, bytes: Seq<u8>)
    requires
        poll.fits(),
        bytes.len() == 345,
        bytes[0] == flag_byte(poll.is_initialized),
        bytes[1] == poll.id,
        bytes.subrange(2, 102) == encode_utf8(padded(poll.title, 100)),
        bytes[102] == poll.title_length,
        forall|k: int|
            0 <= k < 4 ==> #[trigger] PollView::option_bytes(bytes, k) == poll.options[k].packed(),
        bytes[343] == poll.options_count,
        bytes[344] == poll.bump,
    ensures
        bytes == poll.packed(),
{
    lemma_auto_spec_u64_to_from_le_bytes();
    lemma_padded_len(poll.title, 100);
    assert forall|k: int| 0 <= k < 4 implies (#[trigger] poll.options[k]).packed().len() == 60 by {
        assert(poll.options[k].fits());
        lemma_padded_len(poll.options[k].title, 50);
    }
    assert forall|j: int| 0 <= j < 345 implies bytes[j] == poll.packed()[j] by {
        if 2 <= j < 102 {
            assert(bytes[j] == bytes.subrange(2, 102)[j - 2]);
        } else if 103 <= j < 343 {
            let k = (j - 103) / 60;
            assert(bytes[j] == PollView::option_bytes(bytes, k)[j - 103 - 60 * k]);
        }
    }
    assert(bytes =~= poll.packed());
}

/// The guard of one voter on one poll. That it exists and is initialized is
/// all that keeps the voter from voting on the poll again.
#[derive(Debug, Clone, Copy, PartialEq, Eq, Structural)]
pub struct PollVoter {
    pub is_initialized: bool,
    pub poll_id: u8,
    /// The option voted for, counted from 1.
    pub option_selected: u8,
    /// The bump seed found when the guard's address was derived.
    pub bump: u8,
}

impl PollVoter {
    /// Length in bytes of a stored guard.
    pub const SIZE: usize = 1 + 1 + 1 + 1;

    /// The bytes that store the guard.
    pub open spec fn packed(self) -> Seq<u8> {
        seq![flag_byte(self.is_initialized), self.poll_id, self.option_selected, self.bump]
    }

    /// The guard that `bytes` store, if they store one.
    pub open spec fn unpacked(bytes: Seq<u8>) -> Result<PollVoter, PollError> {
        if bytes.len() != 4 || bytes[0] > 1 {
            Err(PollError::CorruptRecord)
        } else {
            Ok(
                PollVoter {
                    is_initialized: bytes[0] == 1,
                    poll_id: bytes[1],
                    option_selected: bytes[2],
                    bump: bytes[3],
                },
            )
        }
    }

    pub fn is_initialized(&self) -> (flag: bool)
        ensures
            flag == self.is_initialized,
    {
        self.is_initialized
    }

    /// Reads a guard from its stored bytes.
    pub fn unpack_from_slice(src: &[u8]) -> (record: Result<PollVoter, PollError>)
        ensures
            record == PollVoter::unpacked(src@),
    {
        if src.len() != PollVoter::SIZE || src[0] > 1 {
            return Err(PollError::CorruptRecord);
        }
        Ok(
            PollVoter {
                is_initialized: src[0] == 1,
                poll_id: src[1],
                option_selected: src[2],
                bump: src[3],
            },
        )
    }

    /// Reads a guard that has to be initialized from its stored bytes.
    pub fn unpack(input: &[u8]) -> (record: Result<PollVoter, PollError>)
        ensures
            record == match PollVoter::unpacked(input@) {
                Ok(stored) => if stored.is_initialized {
                    Ok(stored)
                } else {
                    Err(PollError::NotInitialized)
                },
                Err(e) => Err(e),
            },
    {
        let record = PollVoter::unpack_from_slice(input)?;
        if record.is_initialized {
            Ok(record)
        } else {
            Err(PollError::NotInitialized)
        }
    }

    /// Writes the guard's bytes over `dst`.
    pub fn pack_into_slice(&self, dst: &mut [u8])
        requires
            old(dst)@.len() == PollVoter::SIZE,
        ensures
            final(dst)@ == self.packed(),
    {
        dst[0] = flag_to_byte(self.is_initialized);
        dst[1] = self.poll_id;
        dst[2] = self.option_selected;
        dst[3] = self.bump;
        assert(dst@ =~= self.packed());
    }
}

/// The tally of a vote between two sides within a group.
#[derive(Debug, Clone, Copy, PartialEq, Eq, Structural)]
pub struct VoteCount {
    pub is_initialized: bool,
    pub vote_group: u8,
    pub vote1: u64,
    pub vote2: u64,
    pub bump: u8,
}

impl VoteCount {
    /// Length in bytes of a stored tally.
    pub const SIZE: usize = 1 + 1 + 8 + 8 + 1;

    /// The bytes that store the tally.
    pub open spec fn packed(self) -> Seq<u8> {
        seq![flag_byte(self.is_initialized), self.vote_group] + spec_u64_to_le_bytes(self.vote1)
            + spec_u64_to_le_bytes(self.vote2) + seq![self.bump]
    }

    /// The tally that `bytes` store, if they store one.
    pub open spec fn unpacked(bytes: Seq<u8>) -> Result<VoteCount, PollError> {
        if bytes.len() != 19 || bytes[0] > 1 {
            Err(PollError::CorruptRecord)
        } else {
            Ok(
                VoteCount {
                    is_initialized: bytes[0] == 1,
                    vote_group: bytes[1],
                    vote1: spec_u64_from_le_bytes(bytes.subrange(2, 10)),
                    vote2: spec_u64_from_le_bytes(bytes.subrange(10, 18)),
                    bump: bytes[18],
                },
            )
        }
    }

    pub fn is_initialized(&self) -> (flag: bool)
        ensures
            flag == self.is_initialized,
    {
        self.is_initialized
    }

    /// Reads a tally from its stored bytes.
    pub fn unpack_from_slice(src: &[u8]) -> (record: Result<VoteCount, PollError>)
        ensures
            record == VoteCount::unpacked(src@),
    {
        if src.len() != VoteCount::SIZE || src[0] > 1 {
            return Err(PollError::CorruptRecord);
        }
        Ok(
            VoteCount {
                is_initialized: src[0] == 1,
                vote_group: src[1],
                vote1: u64_from_le_bytes(slice_subrange(src, 2, 10)),
                vote2: u64_from_le_bytes(slice_subrange(src, 10, 18)),
                bump: src[18],
            },
        )
    }

    /// Reads a tally that has to be initialized from its stored bytes.
    pub fn unpack(input: &[u8]) -> (record: Result<VoteCount, PollError>)
        ensures
            record == match VoteCount::unpacked(input@) {
                Ok(stored) => if stored.is_initialized {
                    Ok(stored)
                } else {
                    Err(PollError::NotInitialized)
                },
                Err(e) => Err(e),
            },
    {
        let record = VoteCount::unpack_from_slice(input)?;
        if record.is_initialized {
            Ok(record)
        } else {
            Err(PollError::NotInitialized)
        }
    }

    /// Writes the tally's bytes over `dst`.
    pub fn pack_into_slice(&self, dst: &mut [u8])
        requires
            old(dst)@.len() == VoteCount::SIZE,
        ensures
            final(dst)@ == self.packed(),
    {
        dst[0] = flag_to_byte(self.is_initialized);
        dst[1] = self.vote_group;
        let vote1 = u64_to_le_bytes(self.vote1);
        copy_into(dst, 2, vote1.as_slice());
        let vote2 = u64_to_le_bytes(self.vote2);
        copy_into(dst, 10, vote2.as_slice());
        dst[18] = self.bump;
        assert(dst@ =~= self.packed());
    }
}

/// What one voter did in the group vote.
#[derive(Debug, Clone, Copy, PartialEq, Eq, Structural)]
pub struct Voter {
    pub vote_group: u8,
    pub vote_count: u8,
}

impl Voter {
    /// Length in bytes of a stored voter.
    pub const SIZE: usize = 1 + 1;

    /// The bytes that store the voter.
    pub open spec fn packed(self) -> Seq<u8> {
        seq![self.vote_group, self.vote_count]
    }

    /// The voter that `bytes` store, if they store one.
    pub open spec fn unpacked(bytes: Seq<u8>) -> Result<Voter, PollError> {
        if bytes.len() != 2 {
            Err(PollError::CorruptRecord)
        } else {
            Ok(Voter { vote_group: bytes[0], vote_count: bytes[1] })
        }
    }

    /// Reads a voter from its stored bytes.
    pub fn unpack_from_slice(src: &[u8]) -> (record: Result<Voter, PollError>)
        ensures
            record == Voter::unpacked(src@),
    {
        if src.len() != Voter::SIZE {
            return Err(PollError::CorruptRecord);
        }
        Ok(Voter { vote_group: src[0], vote_count: src[1] })
    }

    /// Writes the voter's bytes over `dst`.
    pub fn pack_into_slice(&self, dst: &mut [u8])
        requires
            old(dst)@.len() == Voter::SIZE,
        ensures
            final(dst)@ == self.packed(),
    {
        dst[0] = self.vote_group;
        dst[1] = self.vote_count;
        assert(dst@ =~= self.packed());
    }
}

/// Eight zero bytes are the number 0.
proof fn lemma_zero_u64()
    ensures
        spec_u64_from_le_bytes(zeros(8)) == 0,
{
    lemma_auto_spec_u64_to_from_le_bytes();
    spec_u64_to_le_bytes_to_open(0);
    assert(0u64 & 0xff == 0 && (0u64 >> 8) & 0xff == 0 && (0u64 >> 16) & 0xff == 0 && (0u64 >> 24)
        & 0xff == 0 && (0u64 >> 32) & 0xff == 0 && (0u64 >> 40) & 0xff == 0 && (0u64 >> 48) & 0xff
        == 0 && (0u64 >> 56) & 0xff == 0) by (bit_vector);
    assert(spec_u64_to_le_bytes(0) =~= zeros(8));
}

/// A counter read back from its own bytes is the counter.
pub proof fn poll_count_round_trip(record: PollCount)
    ensures
        PollCount::unpacked(record.packed()) == Ok::<PollCount, PollError>(record),
{
}

/// A guard read back from its own bytes is the guard.
pub proof fn poll_voter_round_trip(record: PollVoter)
    ensures
        PollVoter::unpacked(record.packed()) == Ok::<PollVoter, PollError>(record),
{
}

/// A tally read back from its own bytes is the tally.
pub proof fn vote_count_round_trip(record: VoteCount)
    ensures
        VoteCount::unpacked(record.packed()) == Ok::<VoteCount, PollError>(record),
{
    lemma_auto_spec_u64_to_from_le_bytes();
    let bytes = record.packed();
    assert(bytes.subrange(2, 10) =~= spec_u64_to_le_bytes(record.vote1));
    assert(bytes.subrange(10, 18) =~= spec_u64_to_le_bytes(record.vote2));
}

/// A voter read back from its own bytes is the voter.
pub proof fn voter_round_trip(record: Voter)
    ensures
        Voter::unpacked(record.packed()) == Ok::<Voter, PollError>(record),
{
}

/// An option read back from its own bytes is the option, its title padded to
/// its field; it is the option itself where the title filled the field.
pub proof fn poll_option_round_trip(record: PollOptionView)
    requires
        record.fits(),
    ensures
        record.packed().len() == PollOption::SIZE,
        PollOptionView::unpacked(record.packed()) == Ok::<PollOptionView, PollError>(
            record.padded(),
        ),
        record.padded().filled(),
        record.filled() ==> record.padded() == record,
{
    lemma_auto_spec_u64_to_from_le_bytes();
    lemma_padded_len(record.title, 50);
    let title = padded(record.title, 50);
    let bytes = record.packed();
    assert(bytes.subrange(1, 51) =~= encode_utf8(title));
    assert(bytes.subrange(52, 60) =~= spec_u64_to_le_bytes(record.votes));
    encode_utf8_valid_utf8(title);
    encode_utf8_decode_utf8(title);
    if record.filled() {
        lemma_padded_full(record.title, 50);
    }
}

/// A poll read back from its own bytes is the poll, every slot and tally of
/// it, its titles padded to their fields; it is the poll itself where the
/// titles filled their fields.
pub proof fn poll_round_trip(record: PollView)
    requires
        record.fits(),
    ensures
        record.packed().len() == Poll::SIZE,
        PollView::unpacked(record.packed()) == Ok::<PollView, PollError>(record.padded()),
        record.padded().filled(),
        record.filled() ==> record.padded() == record,
{
    let bytes = record.packed();
    let title = padded(record.title, 100);
    lemma_padded_len(record.title, 100);
    assert forall|k: int| 0 <= k < 4 implies (#[trigger] record.options[k]).packed().len() == 60
        && PollOptionView::unpacked(record.options[k].packed()) == Ok::<
        PollOptionView,
        PollError,
    >(record.options[k].padded()) && record.options[k].padded().filled() && (
    record.options[k].filled() ==> record.options[k].padded() == record.options[k]) by {
        assert(record.options[k].fits());
        poll_option_round_trip(record.options[k]);
    }
    assert(bytes.subrange(2, 102) =~= encode_utf8(title));
    encode_utf8_valid_utf8(title);
    encode_utf8_decode_utf8(title);
    assert forall|k: int| 0 <= k < 4 implies #[trigger] PollView::option_bytes(bytes, k)
        == record.options[k].packed() by {
        assert(PollView::option_bytes(bytes, k) =~= record.options[k].packed());
    }
    assert(PollView::read(bytes).options =~= record.padded().options);
    if record.filled() {
        lemma_padded_full(record.title, 100);
        assert forall|k: int| 0 <= k < 4 implies (#[trigger] record.options[k]).padded()
            == record.options[k] by {
            assert(record.options[k].filled());
        }
        assert(record.padded().options =~= record.options);
    }
}

/// Bytes that store an option are the bytes of the option they store, whose
/// title fills its field.
pub proof fn poll_option_read_back(bytes: Seq<u8>)
    requires
        PollOptionView::readable(bytes),
    ensures
        PollOptionView::read(bytes).filled(),
        PollOptionView::read(bytes).packed() == bytes,
{
    lemma_auto_spec_u64_to_from_le_bytes();
    decode_utf8_encode_utf8(bytes.subrange(1, 51));
    lemma_padded_full(PollOptionView::read(bytes).title, 50);
    assert(spec_u64_to_le_bytes(spec_u64_from_le_bytes(bytes.subrange(52, 60))) == bytes.subrange(
        52,
        60,
    ));
    assert(PollOptionView::read(bytes).packed() =~= bytes);
}

/// Bytes that store a poll are the bytes of the poll they store, whose titles
/// fill their fields.
pub proof fn poll_read_back(bytes: Seq<u8>)
    requires
        PollView::readable(bytes),
    ensures
        PollView::read(bytes).filled(),
        PollView::read(bytes).packed() == bytes,
{
    let poll = PollView::read(bytes);
    decode_utf8_encode_utf8(bytes.subrange(2, 102));
    lemma_padded_full(poll.title, 100);
    assert forall|k: int| 0 <= k < 4 implies (#[trigger] poll.options[k]).filled()
        && PollView::option_bytes(bytes, k) == poll.options[k].packed() by {
        poll_option_read_back(PollView::option_bytes(bytes, k));
    }
    lemma_poll_layout(poll, bytes);
}

/// A poll whose titles fill their fields stays so when votes are added to it.
pub proof fn voted_poll_filled(poll: PollView, slot: int, count: u64)
    requires
        poll.filled(),
        0 <= slot < 4,
    ensures
        poll.voted(slot, count).filled(),
{
    let voted = poll.voted(slot, count);
    assert forall|k: int| 0 <= k < voted.options.len() implies (#[trigger] voted.options[k])
        .filled() by {
        assert(poll.options[k].filled());
    }
}

/// Storage that was never written to, all zero bytes, reads as a record that
/// is not initialized and whose every field is zero.
pub proof fn blank_records()
    ensures
        PollCount::unpacked(zeros(3)) == Ok::<PollCount, PollError>(
            PollCount { is_initialized: false, count: 0, bump: 0 },
        ),
        PollVoter::unpacked(zeros(4)) == Ok::<PollVoter, PollError>(
            PollVoter { is_initialized: false, poll_id: 0, option_selected: 0, bump: 0 },
        ),
        PollOptionView::unpacked(zeros(60)) == Ok::<PollOptionView, PollError>(
            PollOptionView::blank(),
        ),
        PollView::unpacked(zeros(345)) == Ok::<PollView, PollError>(PollView::blank()),
{
    lemma_zero_u64();
    lemma_zeros_text(50);
    lemma_zeros_text(100);
    assert(zeros(60).subrange(1, 51) =~= zeros(50));
    assert(zeros(60).subrange(52, 60) =~= zeros(8));
    assert(zeros(345).subrange(2, 102) =~= zeros(100));
    assert forall|k: int| 0 <= k < 4 implies #[trigger] PollView::option_bytes(zeros(345), k)
        == zeros(60) by {
        assert(PollView::option_bytes(zeros(345), k) =~= zeros(60));
    }
    assert(PollView::read(zeros(345)).options =~= PollView::blank().options);
}

} // verus!
