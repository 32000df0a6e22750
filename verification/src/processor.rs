//! The two transactions of the program: create-poll and cast-vote.
//!
//! A transaction is handed the accounts it works on, in a fixed order. It
//! reads the records in them, checks them, and on success leaves in each
//! account the bytes to store there. Storage that is not there yet, an
//! account without data, reads as zero bytes; for each such account that the
//! transaction writes to, it returns a request to create the storage. Where
//! it fails, it leaves every account as it was.
use crate::address::{
    find_poll_address, find_poll_count_address, find_voter_address, poll_address,
    poll_count_address, poll_count_seeds, poll_seeds, program_address, program_address_search,
    seeds_of_poll, seeds_of_poll_count, seeds_of_voter, seeds_with_bump, voter_seeds, with_bump,
    Address,
};
use crate::bytes::{zeroed, zeros};
use crate::error::PollError;
use crate::instruction::{PollInstruction, PollInstructionView};
use crate::rules::{
    admit_ballot, admitted_ballot, advance_count, advanced_count, check_poll_input, draft_poll,
    drafted_poll, issue_guard, issued_guard, open_count, opened_count, tallied, tally, texts,
    valid_poll_input,
};
use crate::state::{Poll, PollCount, PollView, PollVoter};
use vstd::prelude::*;

verus! {

/// What an [`Account`] holds.
pub struct AccountView {
    pub key: Seq<u8>,
    pub data: Seq<u8>,
}

/// An account handed to a transaction: its address and the bytes stored at
/// it, none where nothing is stored there yet.
#[derive(Debug, Clone)]
pub struct Account {
    pub key: Address,
    pub data: Vec<u8>,
}

impl View for Account {
    type V = AccountView;

    open spec fn view(&self) -> AccountView {
        AccountView { key: self.key@, data: self.data@ }
    }
}

/// What an [`Allocation`] holds.
pub struct AllocationView {
    pub account: int,
    pub funder: int,
    pub size: int,
    pub seeds: Seq<Seq<u8>>,
}

/// A request to create the storage of a record.
#[derive(Debug, Clone)]
pub struct Allocation {
    /// The place, among the transaction's accounts, of the account to create
    /// the storage for.
    pub account: usize,
    /// The place of the account that pays for it.
    pub funder: usize,
    /// The number of bytes to create.
    pub size: usize,
    /// The seeds of the record's address, the bump last: the program signs
    /// for the address with them.
    pub seeds: Vec<Vec<u8>>,
}

impl View for Allocation {
    type V = AllocationView;

    open spec fn view(&self) -> AllocationView {
        AllocationView {
            account: self.account as int,
            funder: self.funder as int,
            size: self.size as int,
            seeds: self.seeds.deep_view(),
        }
    }
}

/// What a transaction that succeeds leaves behind: the accounts as they are
/// to be stored, and the storage to create for them.
pub struct Outcome {
    pub accounts: Seq<AccountView>,
    pub allocations: Seq<AllocationView>,
}

/// What the accounts hold.
pub open spec fn account_views(accounts: Seq<Account>) -> Seq<AccountView> {
    Seq::new(accounts.len(), |i: int| accounts[i]@)
}

/// What the requests hold.
pub open spec fn allocation_views(allocations: Seq<Allocation>) -> Seq<AllocationView> {
    Seq::new(allocations.len(), |i: int| allocations[i]@)
}

/// The bytes to read a record of `size` bytes from: `data`, or zero bytes
/// where no storage is there yet.
pub open spec fn stored(data: Seq<u8>, size: nat) -> Seq<u8> {
    if data.len() == 0 {
        zeros(size)
    } else {
        data
    }
}

/// The accounts with `data` stored in the account at `index`.
pub open spec fn written(accounts: Seq<AccountView>, index: int, data: Seq<u8>) -> Seq<
    AccountView,
> {
    accounts.update(index, AccountView { key: accounts[index].key, data })
}

/// The request to create the storage of the account at `index`, where it has
/// none yet.
pub open spec fn allocation_for(
    accounts: Seq<AccountView>,
    index: int,
    funder: int,
    size: int,
    seeds: Seq<Seq<u8>>,
) -> Seq<AllocationView> {
    if accounts[index].data.len() == 0 {
        seq![AllocationView { account: index, funder, size, seeds }]
    } else {
        Seq::empty()
    }
}

/// The counter as create-poll is to store it in `account`: read from there,
/// started at 0 where it is not initialized, checked against the address
/// that its bump gives, and one poll further.
pub open spec fn next_poll_count(account: AccountView, program_id: Seq<u8>) -> Result<
    PollCount,
    PollError,
> {
    match PollCount::unpacked(stored(account.data, 3)) {
        Err(e) => Err(e),
        Ok(record) => match opened_count(
            record,
            program_address_search(poll_count_seeds(), program_id),
        ) {
            Err(e) => Err(e),
            Ok(opened) => advanced_count(
                opened,
                account.key,
                program_address(with_bump(poll_count_seeds(), opened.bump), program_id),
            ),
        },
    }
}

/// The poll as create-poll is to store it in `account` under the id `id`.
pub open spec fn next_poll(
    account: AccountView,
    id: u8,
    title_length: u8,
    title: Seq<char>,
    options_count: u8,
    options_size: Seq<u8>,
    options: Seq<Seq<char>>,
    program_id: Seq<u8>,
) -> Result<PollView, PollError> {
    match PollView::unpacked(stored(account.data, 345)) {
        Err(e) => Err(e),
        Ok(existing) => drafted_poll(
            existing,
            account.key,
            program_address_search(poll_seeds(id), program_id),
            id,
            title_length,
            title,
            options_count,
            options_size,
            options,
        ),
    }
}

/// What create-poll does to `accounts`: the counter, the poll, the system
/// program and the payer, in this order.
pub open spec fn create_poll_outcome(
    accounts: Seq<AccountView>,
    title_length: u8,
    title: Seq<char>,
    options_count: u8,
    options_size: Seq<u8>,
    options: Seq<Seq<char>>,
    program_id: Seq<u8>,
) -> Result<Outcome, PollError> {
    if accounts.len() < 4 {
        Err(PollError::NotEnoughAccounts)
    } else if !valid_poll_input(title_length, title, options_count, options_size, options) {
        Err(PollError::InvalidInstructionData)
    } else {
        match next_poll_count(accounts[0], program_id) {
            Err(e) => Err(e),
            Ok(count) => match next_poll(
                accounts[1],
                count.count,
                title_length,
                title,
                options_count,
                options_size,
                options,
                program_id,
            ) {
                Err(e) => Err(e),
                Ok(poll) => Ok(
                    Outcome {
                        accounts: written(written(accounts, 0, count.packed()), 1, poll.packed()),
                        allocations: allocation_for(
                            accounts,
                            0,
                            3,
                            3,
                            with_bump(poll_count_seeds(), count.bump),
                        ) + allocation_for(
                            accounts,
                            1,
                            3,
                            345,
                            with_bump(poll_seeds(count.count), poll.bump),
                        ),
                    },
                ),
            },
        }
    }
}

/// The poll that cast-vote reads from `account`, once it has admitted the
/// vote.
pub open spec fn polled(
    account: AccountView,
    poll_id: u8,
    option_id: u8,
    program_id: Seq<u8>,
) -> Result<PollView, PollError> {
    match PollView::unpacked(account.data) {
        Err(e) => Err(e),
        Ok(poll) => match admitted_ballot(
            poll,
            account.key,
            program_address(with_bump(poll_seeds(poll_id), poll.bump), program_id),
            poll_id,
            option_id,
        ) {
            Err(e) => Err(e),
            Ok(_) => Ok(poll),
        },
    }
}

/// The guard as cast-vote is to store it in `account` for `voter`.
pub open spec fn next_guard(
    account: AccountView,
    voter: Seq<u8>,
    poll_id: u8,
    poll_bump: u8,
    option_id: u8,
    program_id: Seq<u8>,
) -> Result<PollVoter, PollError> {
    match PollVoter::unpacked(stored(account.data, 4)) {
        Err(e) => Err(e),
        Ok(existing) => issued_guard(
            existing,
            account.key,
            program_address_search(voter_seeds(poll_id, poll_bump, voter), program_id),
            poll_id,
            option_id,
        ),
    }
}

/// What cast-vote does to `accounts`: the poll, the voter's guard, the voter
/// and the system program, in this order.
pub open spec fn vote_poll_outcome(
    accounts: Seq<AccountView>,
    poll_id: u8,
    option_id: u8,
    program_id: Seq<u8>,
) -> Result<Outcome, PollError> {
    if accounts.len() < 4 {
        Err(PollError::NotEnoughAccounts)
    } else {
        match polled(accounts[0], poll_id, option_id, program_id) {
            Err(e) => Err(e),
            Ok(poll) => match next_guard(
                accounts[1],
                accounts[2].key,
                poll_id,
                poll.bump,
                option_id,
                program_id,
            ) {
                Err(e) => Err(e),
                Ok(guard) => match tallied(poll, option_id) {
                    Err(e) => Err(e),
                    Ok(voted) => Ok(
                        Outcome {
                            accounts: written(
                                written(accounts, 1, guard.packed()),
                                0,
                                voted.packed(),
                            ),
                            allocations: allocation_for(
                                accounts,
                                1,
                                2,
                                4,
                                with_bump(
                                    voter_seeds(poll_id, poll.bump, accounts[2].key),
                                    guard.bump,
                                ),
                            ),
                        },
                    ),
                },
            },
        }
    }
}

/// What the instruction spelled by `instruction_data` does to `accounts`.
pub open spec fn process_outcome(
    program_id: Seq<u8>,
    accounts: Seq<AccountView>,
    instruction_data: Seq<u8>,
) -> Result<Outcome, PollError> {
    match PollInstructionView::unpacked(instruction_data) {
        Err(e) => Err(e),
        Ok(
            PollInstructionView::CreatePoll {
                title_length,
                title,
                options_count,
                options_size,
                options,
            },
        ) => create_poll_outcome(
            accounts,
            title_length,
            title,
            options_count,
            options_size,
            options,
            program_id,
        ),
        Ok(PollInstructionView::VotePoll { id, option_id }) => vote_poll_outcome(
            accounts,
            id,
            option_id,
            program_id,
        ),
    }
}

/// Whether `result` and what `accounts` have become are what `outcome` says,
/// `before` being what the accounts were.
pub open spec fn carried_out(
    outcome: Result<Outcome, PollError>,
    before: Vec<Account>,
    after: Vec<Account>,
    result: Result<Vec<Allocation>, PollError>,
) -> bool {
    match result {
        Ok(allocations) => outcome == Ok::<Outcome, PollError>(
            Outcome {
                accounts: account_views(after@),
                allocations: allocation_views(allocations@),
            },
        ),
        Err(e) => after == before && outcome == Err::<Outcome, PollError>(e),
    }
}

/// Reads the counter from `data`, or from zero bytes where `data` is empty.
pub fn read_poll_count(data: &[u8]) -> (record: Result<PollCount, PollError>)
    ensures
        record == PollCount::unpacked(stored(data@, 3)),
{
    if data.len() == 0 {
        PollCount::unpack_from_slice(zeroed(PollCount::SIZE).as_slice())
    } else {
        PollCount::unpack_from_slice(data)
    }
}

/// Reads the poll from `data`, or from zero bytes where `data` is empty.
pub fn read_poll(data: &[u8]) -> (record: Result<Poll, PollError>)
    ensures
        match record {
            Ok(poll) => poll@.filled() && PollView::unpacked(stored(data@, 345)) == Ok::<
                PollView,
                PollError,
            >(poll@),
            Err(e) => PollView::unpacked(stored(data@, 345)) == Err::<PollView, PollError>(e),
        },
{
    if data.len() == 0 {
        Poll::unpack_from_slice(zeroed(Poll::SIZE).as_slice())
    } else {
        Poll::unpack_from_slice(data)
    }
}

/// Reads the guard from `data`, or from zero bytes where `data` is empty.
pub fn read_poll_voter(data: &[u8]) -> (record: Result<PollVoter, PollError>)
    ensures
        record == PollVoter::unpacked(stored(data@, 4)),
{
    if data.len() == 0 {
        PollVoter::unpack_from_slice(zeroed(PollVoter::SIZE).as_slice())
    } else {
        PollVoter::unpack_from_slice(data)
    }
}

/// The transactions.
pub struct Processor {}

impl Processor {
    /// Carries out the instruction spelled by `instruction_data` on
    /// `accounts`.
    pub fn process_instruction(
        program_id: &Address,
        accounts: &mut Vec<Account>,
        instruction_data: &[u8],
    ) -> (result: Result<Vec<Allocation>, PollError>)
        ensures
            carried_out(
                process_outcome(program_id@, account_views(old(accounts)@), instruction_data@),
                *old(accounts),
                *final(accounts),
                result,
            ),
    {
        match PollInstruction::unpack(instruction_data)? {
            PollInstruction::CreatePoll {
                title_length,
                title,
                options_count,
                options_size,
                options,
            } => Processor::create_poll(
                accounts,
                title_length,
                title,
                options_count,
                options_size,
                options,
                program_id,
            ),
            PollInstruction::VotePoll { id, option_id } => Processor::vote_poll(
                accounts,
                id,
                option_id,
                program_id,
            ),
        }
    }

    /// Counts one more poll on the counter in `account`: what is to be stored
    /// there, once the poll is created.
    pub fn count_poll(account: &Account, program_id: &Address) -> (count: Result<
        PollCount,
        PollError,
    >)
        ensures
            count == next_poll_count(account@, program_id@),
    {
        let record = read_poll_count(account.data.as_slice())?;
        let found = if record.is_initialized {
            None
        } else {
            find_poll_count_address(program_id)
        };
        let opened = open_count(record, found)?;
        advance_count(opened, &account.key, poll_count_address(opened.bump, program_id))
    }

    /// Creates the next poll. The accounts are the counter, the poll, the
    /// system program and the payer, in this order.
    pub fn create_poll(
        accounts: &mut Vec<Account>,
        title_length: u8,
        title: String,
        options_count: u8,
        options_size: Vec<u8>,
        options: Vec<String>,
        program_id: &Address,
    ) -> (result: Result<Vec<Allocation>, PollError>)
        ensures
            carried_out(
                create_poll_outcome(
                    account_views(old(accounts)@),
                    title_length,
                    title@,
                    options_count,
                    options_size@,
                    texts(options@),
                    program_id@,
                ),
                *old(accounts),
                *final(accounts),
                result,
            ),
    {
        if accounts.len() < 4 {
            return Err(PollError::NotEnoughAccounts);
        }
        check_poll_input(title_length, &title, options_count, &options_size, &options)?;
        let count = Processor::count_poll(&accounts[0], program_id)?;
        let existing = read_poll(accounts[1].data.as_slice())?;
        let poll = draft_poll(
            &existing,
            &accounts[1].key,
            find_poll_address(count.count, program_id),
            count.count,
            title_length,
            &title,
            options_count,
            &options_size,
            &options,
        )?;
        let mut allocations: Vec<Allocation> = Vec::new();
        if accounts[0].data.len() == 0 {
            allocations.push(
                Allocation {
                    account: 0,
                    funder: 3,
                    size: PollCount::SIZE,
                    seeds: seeds_with_bump(seeds_of_poll_count(), count.bump),
                },
            );
        }
        if accounts[1].data.len() == 0 {
            allocations.push(
                Allocation {
                    account: 1,
                    funder: 3,
                    size: Poll::SIZE,
                    seeds: seeds_with_bump(seeds_of_poll(count.count), poll.bump),
                },
            );
        }
        let mut count_data = zeroed(PollCount::SIZE);
        count.pack_into_slice(count_data.as_mut_slice());
        let mut poll_data = zeroed(Poll::SIZE);
        poll.pack_into_slice(poll_data.as_mut_slice());
        accounts[0].data = count_data;
        accounts[1].data = poll_data;
        proof {
            let outcome = create_poll_outcome(
                account_views(old(accounts)@),
                title_length,
                title@,
                options_count,
                options_size@,
                texts(options@),
                program_id@,
            );
            assert(account_views(accounts@) =~= outcome->Ok_0.accounts);
            assert(allocation_views(allocations@) =~= outcome->Ok_0.allocations);
        }
        Ok(allocations)
    }

    /// Casts a vote for option `option_id`, counted from 1, of the poll with
    /// id `poll_id`. The accounts are the poll, the voter's guard, the voter
    /// and the system program, in this order.
    pub fn vote_poll(
        accounts: &mut Vec<Account>,
        poll_id: u8,
        option_id: u8,
        program_id: &Address,
    ) -> (result: Result<Vec<Allocation>, PollError>)
        ensures
            carried_out(
                vote_poll_outcome(account_views(old(accounts)@), poll_id, option_id, program_id@),
                *old(accounts),
                *final(accounts),
                result,
            ),
    {
        if accounts.len() < 4 {
            return Err(PollError::NotEnoughAccounts);
        }
        let mut poll = Poll::unpack_from_slice(accounts[0].data.as_slice())?;
        admit_ballot(
            &poll,
            &accounts[0].key,
            poll_address(poll_id, poll.bump, program_id),
            poll_id,
            option_id,
        )?;
        let existing = read_poll_voter(accounts[1].data.as_slice())?;
        let guard = issue_guard(
            existing,
            &accounts[1].key,
            find_voter_address(poll_id, poll.bump, &accounts[2].key, program_id),
            poll_id,
            option_id,
        )?;
        let poll_bump = poll.bump;
        tally(&mut poll, option_id)?;
        let mut allocations: Vec<Allocation> = Vec::new();
        if accounts[1].data.len() == 0 {
            allocations.push(
                Allocation {
                    account: 1,
                    funder: 2,
                    size: PollVoter::SIZE,
                    seeds: seeds_with_bump(
                        seeds_of_voter(poll_id, poll_bump, &accounts[2].key),
                        guard.bump,
                    ),
                },
            );
        }
        let mut guard_data = zeroed(PollVoter::SIZE);
        guard.pack_into_slice(guard_data.as_mut_slice());
        let mut poll_data = zeroed(Poll::SIZE);
        poll.pack_into_slice(poll_data.as_mut_slice());
        accounts[1].data = guard_data;
        accounts[0].data = poll_data;
        proof {
            let outcome = vote_poll_outcome(
                account_views(old(accounts)@),
                poll_id,
                option_id,
                program_id@,
            );
            assert(account_views(accounts@) =~= outcome->Ok_0.accounts);
            assert(allocation_views(allocations@) =~= outcome->Ok_0.allocations);
        }
        Ok(allocations)
    }
}

} // verus!
