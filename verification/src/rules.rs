//! The rules of the two transactions, on plain values.
//!
//! Each rule takes what was read and what was derived, and gives the record
//! to write or the error that ends the transaction. The transactions in
//! [`crate::processor`] read, derive and write around them.
use crate::address::{address_view, found_view, Address};
use crate::error::PollError;
use crate::state::{
    Poll, PollCount, PollOption, PollOptionView, PollView, PollVoter, POLL_OPTION_SIZE,
    POLL_TITLE_SIZE,
};
use crate::text::{byte_len, filler, pad, padded};
use vstd::prelude::*;

verus! {

/// `Ok` where `cond` holds, the error `err` where it does not.
pub fn assert_true(cond: bool, err: PollError) -> (checked: Result<(), PollError>)
    ensures
        checked == if cond {
            Ok::<(), PollError>(())
        } else {
            Err::<(), PollError>(err)
        },
{
    if !cond {
        Err(err)
    } else {
        Ok(())
    }
}

/// The counter to work on: `record` itself where it is initialized, else a
/// new counter at 0 that stores the bump found for its address.
pub open spec fn opened_count(record: PollCount, found: Option<(Seq<u8>, u8)>) -> Result<
    PollCount,
    PollError,
> {
    if record.is_initialized {
        Ok(record)
    } else {
        match found {
            Some((_, bump)) => Ok(PollCount { is_initialized: true, count: 0, bump }),
            None => Err(PollError::AddressMismatch),
        }
    }
}

/// The counter after one more poll: `derived`, the address that the stored
/// bump gives, has to be `key`, the address handed in, and the count has to
/// be below 255.
pub open spec fn advanced_count(
    record: PollCount,
    key: Seq<u8>,
    derived: Option<Seq<u8>>,
) -> Result<PollCount, PollError> {
    if derived != Some(key) {
        Err(PollError::AddressMismatch)
    } else if record.count == 255 {
        Err(PollError::PollsOverflow)
    } else {
        Ok(PollCount { count: (record.count + 1) as u8, ..record })
    }
}

/// What a poll may be made of: a title of 1 to 100 bytes and 1 to 4 options
/// of 1 to 50 bytes each, every length given being that of its text.
pub open spec fn valid_poll_input(
    title_length: u8,
    title: Seq<char>,
    options_count: u8,
    options_size: Seq<u8>,
    options: Seq<Seq<char>>,
) -> bool {
    &&& 1 <= byte_len(title) <= POLL_TITLE_SIZE
    &&& title_length == byte_len(title)
    &&& 1 <= options_count <= Poll::OPTIONS_COUNT
    &&& options_size.len() == options_count
    &&& options.len() == options_count
    &&& forall|i: int|
        0 <= i < options_count ==> 1 <= byte_len(#[trigger] options[i]) <= POLL_OPTION_SIZE
    &&& forall|i: int| 0 <= i < options_count ==> #[trigger] options_size[i] == byte_len(options[i])
}

/// What slot `slot` of a new poll holds: the option given for it, padded and
/// without votes, or an empty text where none was given.
pub open spec fn drafted_option(
    slot: int,
    options_count: u8,
    options_size: Seq<u8>,
    options: Seq<Seq<char>>,
) -> PollOptionView {
    if slot < options_count {
        PollOptionView {
            id: slot as u8,
            title: padded(options[slot], POLL_OPTION_SIZE as nat),
            title_length: options_size[slot],
            votes: 0,
        }
    } else {
        PollOptionView {
            id: slot as u8,
            title: filler(POLL_OPTION_SIZE as nat),
            title_length: 0,
            votes: 0,
        }
    }
}

/// The poll to write where `existing` was read at `key`: the input has to be
/// valid, `existing` must not be initialized, and the address found for the
/// poll's id has to be `key`. The poll stores the bump found.
pub open spec fn drafted_poll(
    existing: PollView,
    key: Seq<u8>,
    found: Option<(Seq<u8>, u8)>,
    id: u8,
    title_length: u8,
    title: Seq<char>,
    options_count: u8,
    options_size: Seq<u8>,
    options: Seq<Seq<char>>,
) -> Result<PollView, PollError> {
    if !valid_poll_input(title_length, title, options_count, options_size, options) {
        Err(PollError::InvalidInstructionData)
    } else if existing.is_initialized {
        Err(PollError::PollAlreadyCreated)
    } else {
        match found {
            Some((address, bump)) if address == key => Ok(
                PollView {
                    is_initialized: true,
                    id,
                    title: padded(title, POLL_TITLE_SIZE as nat),
                    title_length,
                    options: Seq::new(
                        4,
                        |slot: int| drafted_option(slot, options_count, options_size, options),
                    ),
                    options_count,
                    bump,
                },
            ),
            _ => Err(PollError::AddressMismatch),
        }
    }
}

/// Whether a vote for option `option_id` of the poll named `poll_id` may go
/// on with `poll`, read at `key`: `derived`, the address that the id named
/// and the stored bump give, has to be `key`; the poll has to be the one
/// named; and the option has to be one of its options, counted from 1.
pub open spec fn admitted_ballot(
    poll: PollView,
    key: Seq<u8>,
    derived: Option<Seq<u8>>,
    poll_id: u8,
    option_id: u8,
) -> Result<(), PollError> {
    if derived != Some(key) {
        Err(PollError::AddressMismatch)
    } else if poll.id != poll_id {
        Err(PollError::PollMismatch)
    } else if option_id == 0 || option_id > poll.options_count || option_id > poll.options.len() {
        Err(PollError::PollMismatch)
    } else {
        Ok(())
    }
}

/// The guard to write where `existing` was read at `key`: `existing` must not
/// be initialized, and the address found for the voter on the poll has to be
/// `key`. The guard stores the bump found.
pub open spec fn issued_guard(
    existing: PollVoter,
    key: Seq<u8>,
    found: Option<(Seq<u8>, u8)>,
    poll_id: u8,
    option_id: u8,
) -> Result<PollVoter, PollError> {
    if existing.is_initialized {
        Err(PollError::AlreadyVoted)
    } else {
        match found {
            Some((address, bump)) if address == key => Ok(
                PollVoter { is_initialized: true, poll_id, option_selected: option_id, bump },
            ),
            _ => Err(PollError::AddressMismatch),
        }
    }
}

/// The poll with one more vote for option `option_id`, counted from 1.
pub open spec fn tallied(poll: PollView, option_id: u8) -> Result<PollView, PollError> {
    if poll.options[option_id - 1].votes == u64::MAX {
        Err(PollError::TallyOverflow)
    } else {
        Ok(poll.voted(option_id - 1, 1))
    }
}

/// Gives the counter to work on: see [`opened_count`].
pub fn open_count(record: PollCount, found: Option<(Address, u8)>) -> (opened: Result<
    PollCount,
    PollError,
>)
    ensures
        opened == opened_count(record, found_view(found)),
{
    if record.is_initialized {
        return Ok(record);
    }
    match found {
        Some((_, bump)) => Ok(PollCount { is_initialized: true, count: 0, bump }),
        None => Err(PollError::AddressMismatch),
    }
}

/// Checks the counter's address and counts one more poll: see
/// [`advanced_count`].
pub fn advance_count(record: PollCount, key: &Address, derived: Option<Address>) -> (advanced:
    Result<PollCount, PollError>)
    ensures
        advanced == advanced_count(record, key@, address_view(derived)),
{
    let matches = match derived {
        Some(address) => address == *key,
        None => false,
    };
    assert_true(matches, PollError::AddressMismatch)?;
    match record.count.checked_add(1) {
        Some(count) => Ok(PollCount { count, ..record }),
        None => Err(PollError::PollsOverflow),
    }
}

/// The texts of `options`.
pub open spec fn texts(options: Seq<String>) -> Seq<Seq<char>> {
    Seq::new(options.len(), |i: int| options[i]@)
}

/// Checks what a poll is to be made of: see [`valid_poll_input`].
pub fn check_poll_input(
    title_length: u8,
    title: &String,
    options_count: u8,
    options_size: &Vec<u8>,
    options: &Vec<String>,
) -> (checked: Result<(), PollError>)
    ensures
        checked == if valid_poll_input(
            title_length,
            title@,
            options_count,
            options_size@,
            texts(options@),
        ) {
            Ok::<(), PollError>(())
        } else {
            Err::<(), PollError>(PollError::InvalidInstructionData)
        },
{
    let title_bytes = title.as_str().as_bytes().len();
    if title_bytes < 1 || title_bytes > POLL_TITLE_SIZE || title_length as usize != title_bytes {
        return Err(PollError::InvalidInstructionData);
    }
    if options_count < 1 || options_count as usize > Poll::OPTIONS_COUNT || options_size.len()
        != options_count as usize || options.len() != options_count as usize {
        return Err(PollError::InvalidInstructionData);
    }
    let mut i: usize = 0;
    while i < options_count as usize
        invariant
            i <= options_count,
            options_size@.len() == options_count,
            options@.len() == options_count,
            POLL_OPTION_SIZE == 50,
            forall|j: int|
                0 <= j < i ==> 1 <= byte_len(#[trigger] texts(options@)[j]) <= POLL_OPTION_SIZE,
            forall|j: int|
                0 <= j < i ==> #[trigger] options_size@[j] == byte_len(texts(options@)[j]),
        decreases options_count - i,
    {
        let option_bytes = options[i].as_str().as_bytes().len();
        if option_bytes < 1 || option_bytes > POLL_OPTION_SIZE || options_size[i] as usize
            != option_bytes {
            assert(byte_len(texts(options@)[i as int]) == option_bytes);
            return Err(PollError::InvalidInstructionData);
        }
        i = i + 1;
    }
    Ok(())
}

/// Gives the poll to write: see [`drafted_poll`].
pub fn draft_poll(
    existing: &Poll,
    key: &Address,
    found: Option<(Address, u8)>,
    id: u8,
    title_length: u8,
    title: &String,
    options_count: u8,
    options_size: &Vec<u8>,
    options: &Vec<String>,
) -> (drafted: Result<Poll, PollError>)
    ensures
        match drafted {
            Ok(poll) => poll@.filled() && drafted_poll(
                existing@,
                key@,
                found_view(found),
                id,
                title_length,
                title@,
                options_count,
                options_size@,
                texts(options@),
            ) == Ok::<PollView, PollError>(poll@),
            Err(e) => drafted_poll(
                existing@,
                key@,
                found_view(found),
                id,
                title_length,
                title@,
                options_count,
                options_size@,
                texts(options@),
            ) == Err::<PollView, PollError>(e),
        },
{
    check_poll_input(title_length, title, options_count, options_size, options)?;
    assert_true(!existing.is_initialized, PollError::PollAlreadyCreated)?;
    let bump = match found {
        Some((address, bump)) => {
            assert_true(address == *key, PollError::AddressMismatch)?;
            bump
        },
        None => {
            return Err(PollError::AddressMismatch);
        },
    };
    let padded_title = match pad(title.as_str(), POLL_TITLE_SIZE) {
        Some(text) => text,
        None => {
            return Err(PollError::InvalidInstructionData);
        },
    };
    let ghost given = texts(options@);
    let mut slots: Vec<PollOption> = Vec::new();
    let mut slot: usize = 0;
    while slot < 4
        invariant
            slot <= 4,
            POLL_OPTION_SIZE == 50,
            given == texts(options@),
            valid_poll_input(title_length, title@, options_count, options_size@, given),
            slots@.len() == slot,
            forall|k: int|
                0 <= k < slot ==> (#[trigger] slots@[k])@ == drafted_option(
                    k,
                    options_count,
                    options_size@,
                    given,
                ),
            forall|k: int| 0 <= k < slot ==> (#[trigger] slots@[k])@.filled(),
        decreases 4 - slot,
    {
        if slot < options_count as usize {
            assert(given[slot as int] == options@[slot as int]@);
            assert(1 <= byte_len(given[slot as int]) <= POLL_OPTION_SIZE);
            match pad(options[slot].as_str(), POLL_OPTION_SIZE) {
                Some(text) => {
                    slots.push(PollOption::new(slot as u8, text, options_size[slot]));
                },
                None => {
                    return Err(PollError::InvalidInstructionData);
                },
            }
        } else {
            proof {
                reveal_strlit("");
                assert(""@ =~= Seq::<char>::empty());
                assert(padded(""@, 50) =~= filler(50));
            }
            match pad("", POLL_OPTION_SIZE) {
                Some(text) => {
                    slots.push(PollOption::new(slot as u8, text, 0));
                },
                None => {
                    return Err(PollError::InvalidInstructionData);
                },
            }
        }
        slot = slot + 1;
    }
    let poll = Poll {
        is_initialized: true,
        id,
        title: padded_title,
        title_length,
        options: slots,
        options_count,
        bump,
    };
    proof {
        let spelled = drafted_poll(
            existing@,
            key@,
            found_view(found),
            id,
            title_length,
            title@,
            options_count,
            options_size@,
            given,
        );
        assert(poll@.options =~= spelled->Ok_0.options);
    }
    Ok(poll)
}

/// Checks that a vote may go on: see [`admitted_ballot`].
pub fn admit_ballot(
    poll: &Poll,
    key: &Address,
    derived: Option<Address>,
    poll_id: u8,
    option_id: u8,
) -> (admitted: Result<(), PollError>)
    ensures
        admitted == admitted_ballot(poll@, key@, address_view(derived), poll_id, option_id),
{
    let matches = match derived {
        Some(address) => address == *key,
        None => false,
    };
    assert_true(matches, PollError::AddressMismatch)?;
    assert_true(poll.id == poll_id, PollError::PollMismatch)?;
    assert_true(
        option_id > 0 && option_id <= poll.options_count && option_id as usize
            <= poll.options.len(),
        PollError::PollMismatch,
    )
}

/// Gives the guard to write: see [`issued_guard`].
pub fn issue_guard(
    existing: PollVoter,
    key: &Address,
    found: Option<(Address, u8)>,
    poll_id: u8,
    option_id: u8,
) -> (issued: Result<PollVoter, PollError>)
    ensures
        issued == issued_guard(existing, key@, found_view(found), poll_id, option_id),
{
    assert_true(!existing.is_initialized, PollError::AlreadyVoted)?;
    match found {
        Some((address, bump)) => {
            assert_true(address == *key, PollError::AddressMismatch)?;
            Ok(PollVoter { is_initialized: true, poll_id, option_selected: option_id, bump })
        },
        None => Err(PollError::AddressMismatch),
    }
}

/// Counts one vote for option `option_id`, counted from 1, or leaves the poll
/// as it is where the tally is full: see [`tallied`].
pub fn tally(poll: &mut Poll, option_id: u8) -> (counted: Result<(), PollError>)
    requires
        1 <= option_id <= old(poll).options@.len(),
    ensures
        match counted {
            Ok(()) => tallied(old(poll)@, option_id) == Ok::<PollView, PollError>(final(poll)@)
                && (old(poll)@.filled() ==> final(poll)@.filled()),
            Err(e) => *final(poll) == *old(poll) && tallied(old(poll)@, option_id) == Err::<
                PollView,
                PollError,
            >(e),
        },
{
    let slot = option_id - 1;
    if poll.options[slot as usize].votes == u64::MAX {
        return Err(PollError::TallyOverflow);
    }
    poll.add_vote(slot, 1);
    Ok(())
}

} // verus!
