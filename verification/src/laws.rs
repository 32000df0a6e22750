//! What holds of the transactions, whatever they are handed.
use crate::address::{
    poll_count_seeds, poll_seeds, program_address, program_address_search, voter_seeds, with_bump,
};
use crate::error::PollError;
use crate::processor::{
    create_poll_outcome, next_poll, next_poll_count, stored, vote_poll_outcome, AccountView,
    Outcome,
};
use crate::rules::valid_poll_input;
use crate::state::{
    poll_count_round_trip, poll_read_back, poll_round_trip, voted_poll_filled, PollCount,
    PollView, PollVoter,
};
use crate::text::{lemma_filler_len, lemma_padded_len};
use vstd::prelude::*;

verus! {

/// A search from the seeds finds `key`.
pub open spec fn searched_at(key: Seq<u8>, seeds: Seq<Seq<u8>>, program_id: Seq<u8>) -> bool {
    program_address_search(seeds, program_id) matches Some((address, _)) && address == key
}

/// A search from the seeds finds `key`, and the seeds with the bump found
/// give `key` again.
pub open spec fn found_at(key: Seq<u8>, seeds: Seq<Seq<u8>>, program_id: Seq<u8>) -> bool {
    program_address_search(seeds, program_id) matches Some((address, bump)) && address == key
        && program_address(with_bump(seeds, bump), program_id) == Some(key)
}

/// `account` is the account of the poll counter, and `count` polls were
/// created: either the counter stored there is initialized, stands at `count`
/// and stores the bump of the account's address, or no poll was created yet,
/// nothing initialized is stored there and the account's address is the one
/// found for the counter.
pub open spec fn counter_at(account: AccountView, count: u8, program_id: Seq<u8>) -> bool {
    PollCount::unpacked(stored(account.data, 3)) matches Ok(record) && if record.is_initialized {
        record.count == count && program_address(
            with_bump(poll_count_seeds(), record.bump),
            program_id,
        ) == Some(account.key)
    } else {
        count == 0 && found_at(account.key, poll_count_seeds(), program_id)
    }
}

/// `account` is the account of the poll with id `id`, and no poll is stored
/// there yet.
pub open spec fn poll_awaited_at(account: AccountView, id: u8, program_id: Seq<u8>) -> bool {
    PollView::unpacked(stored(account.data, 345)) matches Ok(poll) && !poll.is_initialized
        && found_at(account.key, poll_seeds(id), program_id)
}

/// `account` stores the poll `poll`, whose address it has.
pub open spec fn poll_at(account: AccountView, poll: PollView, program_id: Seq<u8>) -> bool {
    PollView::unpacked(account.data) == Ok::<PollView, PollError>(poll) && program_address(
        with_bump(poll_seeds(poll.id), poll.bump),
        program_id,
    ) == Some(account.key)
}

/// `account` is the account of the guard of `voter` on `poll`, and no guard
/// is stored there yet.
pub open spec fn guard_awaited_at(
    account: AccountView,
    voter: Seq<u8>,
    poll: PollView,
    program_id: Seq<u8>,
) -> bool {
    PollVoter::unpacked(stored(account.data, 4)) matches Ok(guard) && !guard.is_initialized
        && searched_at(account.key, voter_seeds(poll.id, poll.bump, voter), program_id)
}

/// Create-poll gives the poll the id that follows the counter, and leaves
/// the counter at that id: where `count` polls were created, fewer than 255,
/// and the accounts handed in are the counter's and that of the poll with
/// id `count + 1`, the poll stored has the id `count + 1` and no votes, and
/// the counter stands at `count + 1`.
pub proof fn create_poll_takes_next_id(
    accounts: Seq<AccountView>,
    title_length: u8,
    title: Seq<char>,
    options_count: u8,
    options_size: Seq<u8>,
    options: Seq<Seq<char>>,
    program_id: Seq<u8>,
    count: u8,
)
    requires
        accounts.len() >= 4,
        valid_poll_input(title_length, title, options_count, options_size, options),
        count < 255,
        counter_at(accounts[0], count, program_id),
        poll_awaited_at(accounts[1], (count + 1) as u8, program_id),
    ensures
        ({
            &&& create_poll_outcome(
                accounts,
                title_length,
                title,
                options_count,
                options_size,
                options,
                program_id,
            ) matches Ok(outcome)
            &&& outcome.accounts.len() == accounts.len()
            &&& counter_at(outcome.accounts[0], (count + 1) as u8, program_id)
            &&& PollView::unpacked(outcome.accounts[1].data) matches Ok(poll)
            &&& poll_at(outcome.accounts[1], poll, program_id)
            &&& poll.is_initialized
            &&& poll.id == count + 1
            &&& poll.options_count == options_count
            &&& poll.options.len() == 4
            &&& forall|slot: int| 0 <= slot < 4 ==> (#[trigger] poll.options[slot]).votes == 0
        }),
{
    let next = next_poll_count(accounts[0], program_id)->Ok_0;
    poll_count_round_trip(next);
    let poll = next_poll(
        accounts[1],
        next.count,
        title_length,
        title,
        options_count,
        options_size,
        options,
        program_id,
    )->Ok_0;
    lemma_padded_len(title, 100);
    assert forall|slot: int| 0 <= slot < 4 implies (#[trigger] poll.options[slot]).filled() by {
        if slot < options_count {
            lemma_padded_len(options[slot], 50);
        } else {
            lemma_filler_len(50);
        }
    }
    poll_round_trip(poll);
}

/// The 256th poll is refused: where the counter stands at 255, create-poll
/// fails with `PollsOverflow`.
pub proof fn create_poll_stops_at_255(
    accounts: Seq<AccountView>,
    title_length: u8,
    title: Seq<char>,
    options_count: u8,
    options_size: Seq<u8>,
    options: Seq<Seq<char>>,
    program_id: Seq<u8>,
)
    requires
        accounts.len() >= 4,
        valid_poll_input(title_length, title, options_count, options_size, options),
        counter_at(accounts[0], 255, program_id),
    ensures
        create_poll_outcome(
            accounts,
            title_length,
            title,
            options_count,
            options_size,
            options,
            program_id,
        ) == Err::<Outcome, PollError>(PollError::PollsOverflow),
{
}

/// Whenever create-poll succeeds, the counter goes up by one (to 1 from a
/// counter that was not initialized), no poll was stored where the new one
/// is, the new poll has the counter's new value as its id, and no other
/// account changes.
pub proof fn create_poll_counts_up(
    accounts: Seq<AccountView>,
    title_length: u8,
    title: Seq<char>,
    options_count: u8,
    options_size: Seq<u8>,
    options: Seq<Seq<char>>,
    program_id: Seq<u8>,
)
    requires
        create_poll_outcome(
            accounts,
            title_length,
            title,
            options_count,
            options_size,
            options,
            program_id,
        ) is Ok,
    ensures
        ({
            let outcome = create_poll_outcome(
                accounts,
                title_length,
                title,
                options_count,
                options_size,
                options,
                program_id,
            )->Ok_0;
            &&& outcome.accounts.len() == accounts.len()
            &&& forall|i: int|
                0 <= i < accounts.len() ==> (#[trigger] outcome.accounts[i]).key
                    == accounts[i].key
            &&& forall|i: int|
                2 <= i < accounts.len() ==> #[trigger] outcome.accounts[i] == accounts[i]
            &&& PollCount::unpacked(stored(accounts[0].data, 3)) matches Ok(before)
            &&& PollCount::unpacked(outcome.accounts[0].data) matches Ok(after)
            &&& after.is_initialized
            &&& after.count == if before.is_initialized {
                before.count + 1
            } else {
                1
            }
            &&& PollView::unpacked(stored(accounts[1].data, 345)) matches Ok(existing)
            &&& !existing.is_initialized
            &&& PollView::unpacked(outcome.accounts[1].data) matches Ok(poll)
            &&& poll.is_initialized
            &&& poll.id == after.count
            &&& 1 <= poll.options_count <= 4
        }),
{
    let next = next_poll_count(accounts[0], program_id)->Ok_0;
    poll_count_round_trip(next);
    let poll = next_poll(
        accounts[1],
        next.count,
        title_length,
        title,
        options_count,
        options_size,
        options,
        program_id,
    )->Ok_0;
    lemma_padded_len(title, 100);
    assert forall|slot: int| 0 <= slot < 4 implies (#[trigger] poll.options[slot]).filled() by {
        if slot < options_count {
            lemma_padded_len(options[slot], 50);
        } else {
            lemma_filler_len(50);
        }
    }
    poll_round_trip(poll);
}

/// Whenever cast-vote succeeds, the option chosen has exactly one vote more
/// and nothing else of the poll changes, no guard was initialized where the
/// new one is, the new guard is initialized and names the poll and the
/// option, and no other account changes.
pub proof fn vote_poll_counts_once(
    accounts: Seq<AccountView>,
    poll_id: u8,
    option_id: u8,
    program_id: Seq<u8>,
)
    requires
        vote_poll_outcome(accounts, poll_id, option_id, program_id) is Ok,
    ensures
        ({
            let outcome = vote_poll_outcome(accounts, poll_id, option_id, program_id)->Ok_0;
            &&& outcome.accounts.len() == accounts.len()
            &&& forall|i: int|
                0 <= i < accounts.len() ==> (#[trigger] outcome.accounts[i]).key
                    == accounts[i].key
            &&& forall|i: int|
                2 <= i < accounts.len() ==> #[trigger] outcome.accounts[i] == accounts[i]
            &&& PollView::unpacked(accounts[0].data) matches Ok(before)
            &&& before.id == poll_id
            &&& 1 <= option_id <= before.options_count
            &&& PollView::unpacked(outcome.accounts[0].data) == Ok::<PollView, PollError>(
                before.voted(option_id - 1, 1),
            )
            &&& before.voted(option_id - 1, 1).options[option_id - 1].votes
                == before.options[option_id - 1].votes + 1
            &&& forall|slot: int|
                0 <= slot < 4 && slot != option_id - 1 ==> before.voted(
                    option_id - 1,
                    1,
                ).options[slot] == before.options[slot]
            &&& PollVoter::unpacked(stored(accounts[1].data, 4)) matches Ok(existing)
            &&& !existing.is_initialized
            &&& PollVoter::unpacked(outcome.accounts[1].data) matches Ok(guard)
            &&& guard.is_initialized
            &&& guard.poll_id == poll_id
            &&& guard.option_selected == option_id
        }),
{
    let before = PollView::unpacked(accounts[0].data)->Ok_0;
    poll_read_back(accounts[0].data);
    voted_poll_filled(before, option_id - 1, 1);
    poll_round_trip(before.voted(option_id - 1, 1));
}

/// One creation of a poll: the account handed in for the poll, and what the
/// poll is to be made of.
pub struct Creation {
    pub account: AccountView,
    pub title_length: u8,
    pub title: Seq<char>,
    pub options_count: u8,
    pub options_size: Seq<u8>,
    pub options: Seq<Seq<char>>,
}

/// What create-poll does when it is handed the counter's account `counter`
/// and `creation`.
#[verifier::opaque]
pub open spec fn created(
    counter: AccountView,
    creation: Creation,
    system: AccountView,
    payer: AccountView,
    program_id: Seq<u8>,
) -> Result<Outcome, PollError> {
    create_poll_outcome(
        seq![counter, creation.account, system, payer],
        creation.title_length,
        creation.title,
        creation.options_count,
        creation.options_size,
        creation.options,
        program_id,
    )
}

/// The counter's account after the first `n` of `creations` were carried out
/// one after another, or the error of the first that failed.
pub open spec fn counter_after(
    counter: AccountView,
    creations: Seq<Creation>,
    n: nat,
    system: AccountView,
    payer: AccountView,
    program_id: Seq<u8>,
) -> Result<AccountView, PollError>
    decreases n,
{
    if n == 0 {
        Ok(counter)
    } else {
        match counter_after(counter, creations, (n - 1) as nat, system, payer, program_id) {
            Err(e) => Err(e),
            Ok(before) => match created(before, creations[n - 1], system, payer, program_id) {
                Err(e) => Err(e),
                Ok(outcome) => Ok(outcome.accounts[0]),
            },
        }
    }
}

/// A creation that is handed the counter at `count` and the account of the
/// poll with the next id stores that poll and leaves the counter at its id.
proof fn lemma_created_next(
    before: AccountView,
    creation: Creation,
    system: AccountView,
    payer: AccountView,
    program_id: Seq<u8>,
    count: u8,
)
    requires
        count < 255,
        counter_at(before, count, program_id),
        valid_poll_input(
            creation.title_length,
            creation.title,
            creation.options_count,
            creation.options_size,
            creation.options,
        ),
        poll_awaited_at(creation.account, (count + 1) as u8, program_id),
    ensures
        ({
            &&& created(before, creation, system, payer, program_id) matches Ok(outcome)
            &&& counter_at(outcome.accounts[0], (count + 1) as u8, program_id)
            &&& PollView::unpacked(outcome.accounts[1].data) matches Ok(poll)
            &&& poll.id == count + 1
        }),
{
    reveal(created);
    create_poll_takes_next_id(
        seq![before, creation.account, system, payer],
        creation.title_length,
        creation.title,
        creation.options_count,
        creation.options_size,
        creation.options,
        program_id,
        count,
    );
}

/// A creation that is handed the counter at 255 is refused.
proof fn lemma_created_refused(
    before: AccountView,
    creation: Creation,
    system: AccountView,
    payer: AccountView,
    program_id: Seq<u8>,
)
    requires
        counter_at(before, 255, program_id),
        valid_poll_input(
            creation.title_length,
            creation.title,
            creation.options_count,
            creation.options_size,
            creation.options,
        ),
    ensures
        created(before, creation, system, payer, program_id) == Err::<Outcome, PollError>(
            PollError::PollsOverflow,
        ),
{
    reveal(created);
    create_poll_stops_at_255(
        seq![before, creation.account, system, payer],
        creation.title_length,
        creation.title,
        creation.options_count,
        creation.options_size,
        creation.options,
        program_id,
    );
}

/// Polls created one after another get the ids 1, 2, 3 and so on, without a
/// gap and none twice: where no poll was created yet and each creation is
/// handed the account of the poll with the next id, the `n`th creation, for
/// every `n` up to 255, stores a poll with the id `n` and leaves the counter
/// at `n`.
pub proof fn poll_ids_count_up(
    counter: AccountView,
    creations: Seq<Creation>,
    n: nat,
    system: AccountView,
    payer: AccountView,
    program_id: Seq<u8>,
)
    requires
        n <= creations.len(),
        n <= 255,
        counter_at(counter, 0, program_id),
        forall|i: int|
            0 <= i < n ==> valid_poll_input(
                (#[trigger] creations[i]).title_length,
                creations[i].title,
                creations[i].options_count,
                creations[i].options_size,
                creations[i].options,
            ) && poll_awaited_at(creations[i].account, (i + 1) as u8, program_id),
    ensures
        counter_after(counter, creations, n, system, payer, program_id) matches Ok(after)
            && counter_at(after, n as u8, program_id),
        n >= 1 ==> ({
            &&& counter_after(counter, creations, (n - 1) as nat, system, payer, program_id)
                matches Ok(before)
            &&& created(before, creations[n - 1], system, payer, program_id) matches Ok(outcome)
            &&& PollView::unpacked(outcome.accounts[1].data) matches Ok(poll)
            &&& poll.id == n
        }),
    decreases n,
{
    if n >= 1 {
        poll_ids_count_up(counter, creations, (n - 1) as nat, system, payer, program_id);
        let before = counter_after(
            counter,
            creations,
            (n - 1) as nat,
            system,
            payer,
            program_id,
        )->Ok_0;
        lemma_created_next(before, creations[n - 1], system, payer, program_id, (n - 1) as u8);
    }
}

/// After 255 polls the next creation fails with `PollsOverflow`, whatever
/// account it is handed for the poll.
pub proof fn poll_256_is_refused(
    counter: AccountView,
    creations: Seq<Creation>,
    system: AccountView,
    payer: AccountView,
    program_id: Seq<u8>,
)
    requires
        creations.len() >= 256,
        counter_at(counter, 0, program_id),
        forall|i: int|
            0 <= i < 256 ==> valid_poll_input(
                (#[trigger] creations[i]).title_length,
                creations[i].title,
                creations[i].options_count,
                creations[i].options_size,
                creations[i].options,
            ),
        forall|i: int|
            0 <= i < 255 ==> poll_awaited_at(
                (#[trigger] creations[i]).account,
                (i + 1) as u8,
                program_id,
            ),
    ensures
        counter_after(counter, creations, 255, system, payer, program_id) matches Ok(after)
            && counter_at(after, 255, program_id) && created(
            after,
            creations[255],
            system,
            payer,
            program_id,
        ) == Err::<Outcome, PollError>(PollError::PollsOverflow),
        counter_after(counter, creations, 256, system, payer, program_id) == Err::<
            AccountView,
            PollError,
        >(PollError::PollsOverflow),
{
    poll_ids_count_up(counter, creations, 255, system, payer, program_id);
    let after = counter_after(counter, creations, 255, system, payer, program_id)->Ok_0;
    lemma_created_refused(after, creations[255], system, payer, program_id);
}

/// Option `option_id` is none of the options, counted from 1, of the poll
/// handed in as the first of `accounts`.
pub open spec fn out_of_range(accounts: Seq<AccountView>, option_id: u8) -> bool {
    option_id == 0 || (accounts.len() >= 1 && match PollView::unpacked(accounts[0].data) {
        Ok(poll) => option_id > poll.options_count,
        Err(_) => false,
    })
}

/// A vote for option 0, or for an option past the poll's last, fails, so that
/// no tally changes; where the poll handed in is the one named, at its
/// address, it fails with `PollMismatch`.
pub proof fn vote_out_of_range_fails(
    accounts: Seq<AccountView>,
    poll: PollView,
    option_id: u8,
    program_id: Seq<u8>,
)
    requires
        out_of_range(accounts, option_id),
    ensures
        forall|poll_id: u8| vote_poll_outcome(accounts, poll_id, option_id, program_id) is Err,
        accounts.len() >= 4 && poll_at(accounts[0], poll, program_id) ==> vote_poll_outcome(
            accounts,
            poll.id,
            option_id,
            program_id,
        ) == Err::<Outcome, PollError>(PollError::PollMismatch),
{
}

/// A first vote counts once: where the accounts handed in are the poll's and
/// that of the voter's guard, no guard is stored yet, the option is one of
/// the poll's and its tally is not full, cast-vote succeeds, the poll stored
/// is the poll read with one more vote for the option chosen and all else as
/// it was, and the guard stored is initialized and names the poll and the
/// option.
pub proof fn first_vote_counts_once(
    accounts: Seq<AccountView>,
    poll: PollView,
    option_id: u8,
    program_id: Seq<u8>,
)
    requires
        accounts.len() >= 4,
        poll_at(accounts[0], poll, program_id),
        1 <= option_id <= poll.options_count,
        option_id <= 4,
        poll.options[option_id - 1].votes < u64::MAX,
        guard_awaited_at(accounts[1], accounts[2].key, poll, program_id),
    ensures
        ({
            &&& vote_poll_outcome(accounts, poll.id, option_id, program_id) matches Ok(outcome)
            &&& outcome.accounts.len() == accounts.len()
            &&& poll_at(outcome.accounts[0], poll.voted(option_id - 1, 1), program_id)
            &&& poll.voted(option_id - 1, 1).options[option_id - 1].votes == poll.options[option_id
                - 1].votes + 1
            &&& forall|slot: int|
                0 <= slot < 4 && slot != option_id - 1 ==> poll.voted(
                    option_id - 1,
                    1,
                ).options[slot] == poll.options[slot]
            &&& PollVoter::unpacked(outcome.accounts[1].data) matches Ok(guard)
            &&& guard.is_initialized
            &&& guard.poll_id == poll.id
            &&& guard.option_selected == option_id
            &&& outcome.accounts[2] == accounts[2]
        }),
{
    poll_read_back(accounts[0].data);
    vote_poll_counts_once(accounts, poll.id, option_id, program_id);
}

/// A second vote is refused: where a guard that is initialized is stored in
/// the guard's account, a vote that is in order otherwise fails with
/// `AlreadyVoted`.
pub proof fn vote_with_guard_is_refused(
    accounts: Seq<AccountView>,
    poll: PollView,
    option_id: u8,
    program_id: Seq<u8>,
)
    requires
        accounts.len() >= 4,
        poll_at(accounts[0], poll, program_id),
        1 <= option_id <= poll.options_count,
        option_id <= 4,
        PollVoter::unpacked(accounts[1].data) matches Ok(guard) && guard.is_initialized,
    ensures
        vote_poll_outcome(accounts, poll.id, option_id, program_id) == Err::<Outcome, PollError>(
            PollError::AlreadyVoted,
        ),
{
    poll_read_back(accounts[0].data);
}

/// Nobody votes twice: after a first vote, a vote of the same voter on the
/// same poll, for whichever of its options, fails with `AlreadyVoted`, so
/// that no tally changes.
pub proof fn second_vote_is_refused(
    accounts: Seq<AccountView>,
    poll: PollView,
    option_id: u8,
    again: u8,
    program_id: Seq<u8>,
)
    requires
        accounts.len() >= 4,
        poll_at(accounts[0], poll, program_id),
        1 <= option_id <= poll.options_count,
        1 <= again <= poll.options_count,
        poll.options_count <= 4,
        poll.options[option_id - 1].votes < u64::MAX,
        guard_awaited_at(accounts[1], accounts[2].key, poll, program_id),
    ensures
        vote_poll_outcome(accounts, poll.id, option_id, program_id) matches Ok(outcome)
            && vote_poll_outcome(outcome.accounts, poll.id, again, program_id) == Err::<
            Outcome,
            PollError,
        >(PollError::AlreadyVoted),
{
    first_vote_counts_once(accounts, poll, option_id, program_id);
    let outcome = vote_poll_outcome(accounts, poll.id, option_id, program_id)->Ok_0;
    vote_with_guard_is_refused(
        outcome.accounts,
        poll.voted(option_id - 1, 1),
        again,
        program_id,
    );
}

/// Create-poll refuses a counter handed in at another address than the one
/// that its bump gives, the bump being the one stored or, for a counter that
/// is not initialized, the one found: with `AddressMismatch`, where the input
/// is valid and what is stored in the account reads as a counter.
pub proof fn create_poll_checks_counter_address(
    accounts: Seq<AccountView>,
    title_length: u8,
    title: Seq<char>,
    options_count: u8,
    options_size: Seq<u8>,
    options: Seq<Seq<char>>,
    program_id: Seq<u8>,
)
    requires
        accounts.len() >= 4,
        valid_poll_input(title_length, title, options_count, options_size, options),
        PollCount::unpacked(stored(accounts[0].data, 3)) matches Ok(record)
            && if record.is_initialized {
            program_address(with_bump(poll_count_seeds(), record.bump), program_id) != Some(
                accounts[0].key,
            )
        } else {
            match program_address_search(poll_count_seeds(), program_id) {
                Some((_, bump)) => program_address(
                    with_bump(poll_count_seeds(), bump),
                    program_id,
                ) != Some(accounts[0].key),
                None => true,
            }
        },
    ensures
        create_poll_outcome(
            accounts,
            title_length,
            title,
            options_count,
            options_size,
            options,
            program_id,
        ) == Err::<Outcome, PollError>(PollError::AddressMismatch),
{
}

/// Create-poll refuses a poll's account handed in at another address than
/// the one found for the poll's id: with `AddressMismatch`, where the
/// counter is in order and nothing initialized is stored in the account.
pub proof fn create_poll_checks_poll_address(
    accounts: Seq<AccountView>,
    title_length: u8,
    title: Seq<char>,
    options_count: u8,
    options_size: Seq<u8>,
    options: Seq<Seq<char>>,
    program_id: Seq<u8>,
    count: u8,
)
    requires
        accounts.len() >= 4,
        valid_poll_input(title_length, title, options_count, options_size, options),
        count < 255,
        counter_at(accounts[0], count, program_id),
        PollView::unpacked(stored(accounts[1].data, 345)) matches Ok(poll) && !poll.is_initialized,
        !searched_at(accounts[1].key, poll_seeds((count + 1) as u8), program_id),
    ensures
        create_poll_outcome(
            accounts,
            title_length,
            title,
            options_count,
            options_size,
            options,
            program_id,
        ) == Err::<Outcome, PollError>(PollError::AddressMismatch),
{
}

/// Cast-vote refuses a poll handed in at another address than the one that
/// the id named and the poll's bump give: with `AddressMismatch`, where what
/// is stored in the account reads as a poll.
pub proof fn vote_poll_checks_poll_address(
    accounts: Seq<AccountView>,
    poll_id: u8,
    option_id: u8,
    program_id: Seq<u8>,
)
    requires
        accounts.len() >= 4,
        PollView::unpacked(accounts[0].data) matches Ok(poll) && program_address(
            with_bump(poll_seeds(poll_id), poll.bump),
            program_id,
        ) != Some(accounts[0].key),
    ensures
        vote_poll_outcome(accounts, poll_id, option_id, program_id) == Err::<Outcome, PollError>(
            PollError::AddressMismatch,
        ),
{
}

/// Cast-vote refuses a guard's account handed in at another address than the
/// one found for the voter on the poll: with `AddressMismatch`, where the
/// vote is in order otherwise and nothing initialized is stored in the
/// account.
pub proof fn vote_poll_checks_guard_address(
    accounts: Seq<AccountView>,
    poll: PollView,
    option_id: u8,
    program_id: Seq<u8>,
)
    requires
        accounts.len() >= 4,
        poll_at(accounts[0], poll, program_id),
        1 <= option_id <= poll.options_count,
        option_id <= 4,
        PollVoter::unpacked(stored(accounts[1].data, 4)) matches Ok(guard) && !guard.is_initialized,
        !searched_at(
            accounts[1].key,
            voter_seeds(poll.id, poll.bump, accounts[2].key),
            program_id,
        ),
    ensures
        vote_poll_outcome(accounts, poll.id, option_id, program_id) == Err::<Outcome, PollError>(
            PollError::AddressMismatch,
        ),
{
    poll_read_back(accounts[0].data);
}

} // verus!
