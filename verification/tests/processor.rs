use poll_program::address::{
    find_poll_address, find_poll_count_address, find_voter_address, Address,
};
use poll_program::error::PollError;
use poll_program::processor::{
    read_poll, read_poll_count, read_poll_voter, Account, Allocation, Processor,
};
use poll_program::state::{Poll, PollCount, PollVoter};

fn program() -> Address {
    Address::new([7u8; 32])
}

fn system() -> Account {
    Account { key: Address::new([0u8; 32]), data: Vec::new() }
}

fn payer() -> Account {
    Account { key: Address::new([9u8; 32]), data: Vec::new() }
}

fn empty(key: Address) -> Account {
    Account { key, data: Vec::new() }
}

fn counter_account() -> Account {
    empty(find_poll_count_address(&program()).unwrap().0)
}

fn poll_account(id: u8) -> Account {
    empty(find_poll_address(id, &program()).unwrap().0)
}

fn guard_account(poll: &Account, voter: &Address) -> Account {
    let record = Poll::unpack_from_slice(&poll.data).unwrap();
    empty(find_voter_address(record.id, record.bump, voter, &program()).unwrap().0)
}

fn strings(texts: &[&str]) -> Vec<String> {
    texts.iter().map(|t| t.to_string()).collect()
}

fn create(accounts: &mut Vec<Account>, title: &str, options: &[&str]) -> Result<Vec<Allocation>, PollError> {
    Processor::create_poll(
        accounts,
        title.len() as u8,
        title.to_string(),
        options.len() as u8,
        options.iter().map(|o| o.len() as u8).collect(),
        strings(options),
        &program(),
    )
}

/// Creates a poll in fresh accounts and gives back the counter and the poll.
fn created(title: &str, options: &[&str]) -> (Account, Account) {
    let mut accounts = vec![counter_account(), poll_account(1), system(), payer()];
    create(&mut accounts, title, options).unwrap();
    (accounts[0].clone(), accounts[1].clone())
}

fn vote(poll: &mut Account, guard: &mut Account, voter: &Address, poll_id: u8, option_id: u8) -> Result<Vec<Allocation>, PollError> {
    let mut accounts = vec![poll.clone(), guard.clone(), empty(*voter), system()];
    let result = Processor::vote_poll(&mut accounts, poll_id, option_id, &program());
    *poll = accounts[0].clone();
    *guard = accounts[1].clone();
    result
}

fn votes(poll: &Account) -> Vec<u64> {
    Poll::unpack_from_slice(&poll.data).unwrap().options.iter().map(|o| o.votes).collect()
}

fn datas(accounts: &[Account]) -> Vec<Vec<u8>> {
    accounts.iter().map(|a| a.data.clone()).collect()
}

#[test]
fn end_to_end() {
    let mut accounts = vec![counter_account(), poll_account(1), system(), payer()];
    create(&mut accounts, "Favorite color", &["Red", "Blue"]).unwrap();
    let mut poll_account = accounts[1].clone();
    let poll = Poll::unpack_from_slice(&poll_account.data).unwrap();
    assert_eq!(poll.id, 1);
    assert_eq!(poll.options_count, 2);
    assert_eq!(poll.options[0].votes, 0);
    assert_eq!(poll.options[1].votes, 0);

    let voter_a = Address::new([0xa; 32]);
    let voter_b = Address::new([0xb; 32]);
    let mut guard_a = guard_account(&poll_account, &voter_a);
    let mut guard_b = guard_account(&poll_account, &voter_b);

    vote(&mut poll_account, &mut guard_a, &voter_a, 1, 1).unwrap();
    assert_eq!(votes(&poll_account), vec![1, 0, 0, 0]);

    let before = poll_account.data.clone();
    assert_eq!(
        vote(&mut poll_account, &mut guard_a, &voter_a, 1, 2).unwrap_err(),
        PollError::AlreadyVoted
    );
    assert_eq!(poll_account.data, before);
    assert_eq!(votes(&poll_account), vec![1, 0, 0, 0]);

    vote(&mut poll_account, &mut guard_b, &voter_b, 1, 2).unwrap();
    assert_eq!(votes(&poll_account), vec![1, 1, 0, 0]);
}

#[test]
fn create_poll_stores_the_counter_and_the_poll() {
    let mut accounts = vec![counter_account(), poll_account(1), system(), payer()];
    let allocations = create(&mut accounts, "Favorite color", &["Red", "Blue"]).unwrap();
    let (_, counter_bump) = find_poll_count_address(&program()).unwrap();
    let (_, poll_bump) = find_poll_address(1, &program()).unwrap();
    assert_eq!(accounts[0].data, vec![1, 1, counter_bump]);
    let poll = Poll::unpack_from_slice(&accounts[1].data).unwrap();
    assert!(poll.is_initialized);
    assert_eq!(poll.id, 1);
    assert_eq!(poll.title, format!("{:<100}", "Favorite color"));
    assert_eq!(poll.title_length, 14);
    assert_eq!(poll.options_count, 2);
    assert_eq!(poll.bump, poll_bump);
    assert_eq!(poll.options[0].title, format!("{:<50}", "Red"));
    assert_eq!(poll.options[1].title, format!("{:<50}", "Blue"));
    assert_eq!(poll.options[2].title, " ".repeat(50));
    assert_eq!(poll.options[3].title, " ".repeat(50));
    assert!(accounts[2].data.is_empty());
    assert!(accounts[3].data.is_empty());

    assert_eq!(allocations.len(), 2);
    assert_eq!(allocations[0].account, 0);
    assert_eq!(allocations[0].funder, 3);
    assert_eq!(allocations[0].size, 3);
    assert_eq!(allocations[0].seeds, vec![b"PollCount".to_vec(), vec![counter_bump]]);
    assert_eq!(allocations[1].account, 1);
    assert_eq!(allocations[1].funder, 3);
    assert_eq!(allocations[1].size, 345);
    assert_eq!(allocations[1].seeds, vec![b"Poll".to_vec(), vec![1], vec![poll_bump]]);
}

#[test]
fn create_poll_asks_for_no_storage_that_is_there() {
    let mut accounts = vec![counter_account(), poll_account(1), system(), payer()];
    accounts[0].data = vec![0u8; 3];
    accounts[1].data = vec![0u8; 345];
    let allocations = create(&mut accounts, "T", &["a"]).unwrap();
    assert!(allocations.is_empty());
    assert_eq!(PollCount::unpack_from_slice(&accounts[0].data).unwrap().count, 1);
    assert_eq!(Poll::unpack_from_slice(&accounts[1].data).unwrap().id, 1);

    let mut accounts = vec![accounts[0].clone(), poll_account(2), system(), payer()];
    let allocations = create(&mut accounts, "T", &["a"]).unwrap();
    assert_eq!(allocations.len(), 1);
    assert_eq!(allocations[0].account, 1);
}

#[test]
fn poll_ids_count_up_to_255_and_stop() {
    let mut counter = counter_account();
    for id in 1..=255u8 {
        let mut accounts = vec![counter.clone(), poll_account(id), system(), payer()];
        create(&mut accounts, "T", &["a", "b"]).unwrap();
        assert_eq!(Poll::unpack_from_slice(&accounts[1].data).unwrap().id, id);
        let record = PollCount::unpack_from_slice(&accounts[0].data).unwrap();
        assert!(record.is_initialized);
        assert_eq!(record.count, id);
        counter = accounts[0].clone();
    }
    let mut accounts = vec![counter.clone(), poll_account(0), system(), payer()];
    let before = datas(&accounts);
    assert_eq!(create(&mut accounts, "T", &["a", "b"]).unwrap_err(), PollError::PollsOverflow);
    assert_eq!(datas(&accounts), before);
    assert_eq!(PollCount::unpack_from_slice(&accounts[0].data).unwrap().count, 255);
}

#[test]
fn create_poll_needs_four_accounts() {
    let mut accounts = vec![counter_account(), poll_account(1), system()];
    assert_eq!(create(&mut accounts, "T", &["a"]).unwrap_err(), PollError::NotEnoughAccounts);
    assert_eq!(datas(&accounts), vec![Vec::<u8>::new(); 3]);
    let mut accounts = Vec::new();
    assert_eq!(create(&mut accounts, "T", &["a"]).unwrap_err(), PollError::NotEnoughAccounts);
}

#[test]
fn create_poll_refuses_invalid_input() {
    let long_title = "t".repeat(101);
    let long_option = "o".repeat(51);
    let cases: Vec<(&str, Vec<&str>)> = vec![
        ("", vec!["a"]),
        (&long_title, vec!["a"]),
        ("T", vec![]),
        ("T", vec!["a", "b", "c", "d", "e"]),
        ("T", vec!["a", ""]),
        ("T", vec![&long_option]),
    ];
    for (title, options) in cases {
        let mut accounts = vec![counter_account(), poll_account(1), system(), payer()];
        assert_eq!(
            create(&mut accounts, title, &options).unwrap_err(),
            PollError::InvalidInstructionData
        );
        assert_eq!(datas(&accounts), vec![Vec::<u8>::new(); 4]);
    }
}

#[test]
fn create_poll_checks_the_counter_address() {
    // nothing stored yet
    let mut accounts = vec![empty(Address::new([1u8; 32])), poll_account(1), system(), payer()];
    assert_eq!(create(&mut accounts, "T", &["a"]).unwrap_err(), PollError::AddressMismatch);
    assert_eq!(datas(&accounts), vec![Vec::<u8>::new(); 4]);

    // a counter stored at another address
    let (counter, _) = created("T", &["a"]);
    let mut moved = counter.clone();
    moved.key = Address::new([1u8; 32]);
    let mut accounts = vec![moved, poll_account(2), system(), payer()];
    let before = datas(&accounts);
    assert_eq!(create(&mut accounts, "T", &["a"]).unwrap_err(), PollError::AddressMismatch);
    assert_eq!(datas(&accounts), before);

    // a counter that stores another bump
    let mut forged = counter.clone();
    forged.data[2] = forged.data[2].wrapping_sub(1);
    let mut accounts = vec![forged, poll_account(2), system(), payer()];
    assert_eq!(create(&mut accounts, "T", &["a"]).unwrap_err(), PollError::AddressMismatch);
}

#[test]
fn create_poll_checks_the_poll_address() {
    let mut accounts = vec![counter_account(), empty(Address::new([1u8; 32])), system(), payer()];
    assert_eq!(create(&mut accounts, "T", &["a"]).unwrap_err(), PollError::AddressMismatch);
    assert_eq!(datas(&accounts), vec![Vec::<u8>::new(); 4]);
    // the account of another poll
    let mut accounts = vec![counter_account(), poll_account(2), system(), payer()];
    assert_eq!(create(&mut accounts, "T", &["a"]).unwrap_err(), PollError::AddressMismatch);
    assert_eq!(datas(&accounts), vec![Vec::<u8>::new(); 4]);
}

#[test]
fn create_poll_refuses_a_poll_that_is_there() {
    let (_, poll) = created("T", &["a"]);
    let mut accounts = vec![counter_account(), poll.clone(), system(), payer()];
    let before = datas(&accounts);
    assert_eq!(create(&mut accounts, "U", &["b"]).unwrap_err(), PollError::PollAlreadyCreated);
    assert_eq!(datas(&accounts), before);
}

#[test]
fn create_poll_refuses_corrupt_records() {
    let mut accounts = vec![counter_account(), poll_account(1), system(), payer()];
    accounts[0].data = vec![2, 0, 0];
    assert_eq!(create(&mut accounts, "T", &["a"]).unwrap_err(), PollError::CorruptRecord);
    accounts[0].data = vec![0, 0];
    assert_eq!(create(&mut accounts, "T", &["a"]).unwrap_err(), PollError::CorruptRecord);
    let mut accounts = vec![counter_account(), poll_account(1), system(), payer()];
    accounts[1].data = vec![0u8; 344];
    assert_eq!(create(&mut accounts, "T", &["a"]).unwrap_err(), PollError::CorruptRecord);
    accounts[1].data = vec![0u8; 345];
    accounts[1].data[20] = 0xff;
    assert_eq!(create(&mut accounts, "T", &["a"]).unwrap_err(), PollError::CorruptRecord);
    assert!(accounts[0].data.is_empty());
}

#[test]
fn first_vote_counts_once_and_stores_the_guard() {
    let (_, mut poll) = created("Favorite color", &["Red", "Blue", "Green"]);
    let voter = Address::new([0xa; 32]);
    let mut guard = guard_account(&poll, &voter);
    let record = Poll::unpack_from_slice(&poll.data).unwrap();
    let (_, guard_bump) = find_voter_address(1, record.bump, &voter, &program()).unwrap();
    let before = poll.data.clone();

    let allocations = vote(&mut poll, &mut guard, &voter, 1, 3).unwrap();

    assert_eq!(votes(&poll), vec![0, 0, 1, 0]);
    // Only the tally's bytes changed.
    let at = 103 + 60 * 2 + 52;
    assert_eq!(&poll.data[..at], &before[..at]);
    assert_eq!(&poll.data[at..at + 8], &[1, 0, 0, 0, 0, 0, 0, 0]);
    assert_eq!(&poll.data[at + 8..], &before[at + 8..]);
    assert_eq!(guard.data, vec![1, 1, 3, guard_bump]);
    assert_eq!(
        PollVoter::unpack_from_slice(&guard.data),
        Ok(PollVoter { is_initialized: true, poll_id: 1, option_selected: 3, bump: guard_bump })
    );
    assert_eq!(allocations.len(), 1);
    assert_eq!(allocations[0].account, 1);
    assert_eq!(allocations[0].funder, 2);
    assert_eq!(allocations[0].size, 4);
    assert_eq!(
        allocations[0].seeds,
        vec![b"Poll".to_vec(), vec![1], vec![record.bump], vec![0xa; 32], vec![guard_bump]]
    );
}

#[test]
fn second_vote_is_refused_and_changes_nothing() {
    let (_, mut poll) = created("Favorite color", &["Red", "Blue"]);
    let voter = Address::new([0xa; 32]);
    let mut guard = guard_account(&poll, &voter);
    vote(&mut poll, &mut guard, &voter, 1, 1).unwrap();
    for option_id in [1u8, 2] {
        let mut accounts = vec![poll.clone(), guard.clone(), empty(voter), system()];
        let before = datas(&accounts);
        assert_eq!(
            Processor::vote_poll(&mut accounts, 1, option_id, &program()).unwrap_err(),
            PollError::AlreadyVoted
        );
        assert_eq!(datas(&accounts), before);
    }
    assert_eq!(votes(&poll), vec![1, 0, 0, 0]);
}

#[test]
fn votes_out_of_range_are_refused_and_change_nothing() {
    let (_, poll) = created("Favorite color", &["Red", "Blue"]);
    let voter = Address::new([0xa; 32]);
    let guard = guard_account(&poll, &voter);
    for option_id in [0u8, 3, 4, 5, 255] {
        let mut accounts = vec![poll.clone(), guard.clone(), empty(voter), system()];
        let before = datas(&accounts);
        assert_eq!(
            Processor::vote_poll(&mut accounts, 1, option_id, &program()).unwrap_err(),
            PollError::PollMismatch
        );
        assert_eq!(datas(&accounts), before);
        assert!(accounts[1].data.is_empty());
    }
}

#[test]
fn vote_poll_checks_the_poll_address() {
    let (_, poll) = created("Favorite color", &["Red", "Blue"]);
    let voter = Address::new([0xa; 32]);
    let guard = guard_account(&poll, &voter);
    let mut moved = poll.clone();
    moved.key = Address::new([1u8; 32]);
    let mut accounts = vec![moved, guard.clone(), empty(voter), system()];
    let before = datas(&accounts);
    assert_eq!(
        Processor::vote_poll(&mut accounts, 1, 1, &program()).unwrap_err(),
        PollError::AddressMismatch
    );
    assert_eq!(datas(&accounts), before);
    // the poll's own address, another id named
    let mut accounts = vec![poll.clone(), guard.clone(), empty(voter), system()];
    assert_eq!(
        Processor::vote_poll(&mut accounts, 2, 1, &program()).unwrap_err(),
        PollError::AddressMismatch
    );
}

#[test]
fn vote_poll_refuses_a_poll_that_stores_another_id() {
    let (_, poll) = created("Favorite color", &["Red", "Blue"]);
    let voter = Address::new([0xa; 32]);
    let mut forged = poll.clone();
    forged.data[1] = 2;
    let guard = empty(Address::new([2u8; 32]));
    let mut accounts = vec![forged, guard, empty(voter), system()];
    assert_eq!(
        Processor::vote_poll(&mut accounts, 1, 1, &program()).unwrap_err(),
        PollError::PollMismatch
    );
}

#[test]
fn vote_poll_checks_the_guard_address() {
    let (_, poll) = created("Favorite color", &["Red", "Blue"]);
    let voter = Address::new([0xa; 32]);
    let other = Address::new([0xb; 32]);
    // the guard of another voter
    let mut accounts = vec![poll.clone(), guard_account(&poll, &other), empty(voter), system()];
    let before = datas(&accounts);
    assert_eq!(
        Processor::vote_poll(&mut accounts, 1, 1, &program()).unwrap_err(),
        PollError::AddressMismatch
    );
    assert_eq!(datas(&accounts), before);
    // storage that is there, at another address
    let mut guard = empty(Address::new([1u8; 32]));
    guard.data = vec![0u8; 4];
    let mut accounts = vec![poll.clone(), guard, empty(voter), system()];
    assert_eq!(
        Processor::vote_poll(&mut accounts, 1, 1, &program()).unwrap_err(),
        PollError::AddressMismatch
    );
}

#[test]
fn vote_poll_needs_four_accounts() {
    let (_, poll) = created("Favorite color", &["Red", "Blue"]);
    let voter = Address::new([0xa; 32]);
    let mut accounts = vec![poll.clone(), guard_account(&poll, &voter), empty(voter)];
    assert_eq!(
        Processor::vote_poll(&mut accounts, 1, 1, &program()).unwrap_err(),
        PollError::NotEnoughAccounts
    );
}

#[test]
fn vote_poll_refuses_corrupt_records() {
    let (_, poll) = created("Favorite color", &["Red", "Blue"]);
    let voter = Address::new([0xa; 32]);
    let guard = guard_account(&poll, &voter);
    // no poll stored
    let mut accounts = vec![empty(poll.key), guard.clone(), empty(voter), system()];
    assert_eq!(
        Processor::vote_poll(&mut accounts, 1, 1, &program()).unwrap_err(),
        PollError::CorruptRecord
    );
    let mut broken = poll.clone();
    broken.data[0] = 7;
    let mut accounts = vec![broken, guard.clone(), empty(voter), system()];
    assert_eq!(
        Processor::vote_poll(&mut accounts, 1, 1, &program()).unwrap_err(),
        PollError::CorruptRecord
    );
    let mut bad_guard = guard.clone();
    bad_guard.data = vec![2, 0, 0, 0];
    let mut accounts = vec![poll.clone(), bad_guard, empty(voter), system()];
    assert_eq!(
        Processor::vote_poll(&mut accounts, 1, 1, &program()).unwrap_err(),
        PollError::CorruptRecord
    );
}

#[test]
fn vote_poll_refuses_a_full_tally() {
    let (_, mut poll) = created("Favorite color", &["Red", "Blue"]);
    let at = 103 + 52;
    for byte in poll.data[at..at + 8].iter_mut() {
        *byte = 0xff;
    }
    let voter = Address::new([0xa; 32]);
    let guard = guard_account(&poll, &voter);
    let mut accounts = vec![poll.clone(), guard.clone(), empty(voter), system()];
    let before = datas(&accounts);
    assert_eq!(
        Processor::vote_poll(&mut accounts, 1, 1, &program()).unwrap_err(),
        PollError::TallyOverflow
    );
    assert_eq!(datas(&accounts), before);
    let mut accounts = vec![poll.clone(), guard, empty(voter), system()];
    Processor::vote_poll(&mut accounts, 1, 2, &program()).unwrap();
    assert_eq!(votes(&accounts[0]), vec![u64::MAX, 1, 0, 0]);
}

#[test]
fn process_instruction_creates_and_votes() {
    let mut accounts = vec![counter_account(), poll_account(1), system(), payer()];
    let data = [&[0u8, 14][..], b"Favorite color", &[2, 3, 4], b"RedBlue"].concat();
    let allocations = Processor::process_instruction(&program(), &mut accounts, &data).unwrap();
    assert_eq!(allocations.len(), 2);
    let poll = Poll::unpack_from_slice(&accounts[1].data).unwrap();
    assert_eq!(poll.id, 1);
    assert_eq!(poll.title_length, 14);
    assert_eq!(poll.options_count, 2);
    assert_eq!(poll.options[1].title, format!("{:<50}", "Blue"));

    let voter = Address::new([0xa; 32]);
    let guard = guard_account(&accounts[1], &voter);
    let mut accounts = vec![accounts[1].clone(), guard, empty(voter), system()];
    let allocations = Processor::process_instruction(&program(), &mut accounts, &[1, 1, 2]).unwrap();
    assert_eq!(allocations.len(), 1);
    assert_eq!(votes(&accounts[0]), vec![0, 1, 0, 0]);
    assert_eq!(accounts[1].data[..3], [1, 1, 2]);
}

#[test]
fn process_instruction_refuses_bad_instructions() {
    let mut accounts = vec![counter_account(), poll_account(1), system(), payer()];
    assert_eq!(
        Processor::process_instruction(&program(), &mut accounts, &[]).unwrap_err(),
        PollError::InvalidInstruction
    );
    assert_eq!(
        Processor::process_instruction(&program(), &mut accounts, &[9]).unwrap_err(),
        PollError::InvalidInstructionData
    );
    assert_eq!(
        Processor::process_instruction(&program(), &mut accounts, &[1, 1]).unwrap_err(),
        PollError::InvalidInstructionData
    );
    // well-formed, but no poll may have five options
    let data = [&[0u8, 1, b'T', 5, 1, 1, 1, 1, 1][..], b"abcde"].concat();
    assert_eq!(
        Processor::process_instruction(&program(), &mut accounts, &data).unwrap_err(),
        PollError::InvalidInstructionData
    );
    assert_eq!(datas(&accounts), vec![Vec::<u8>::new(); 4]);
}

#[test]
fn count_poll_gives_the_counter_to_store() {
    let (_, bump) = find_poll_count_address(&program()).unwrap();
    let fresh = counter_account();
    assert_eq!(
        Processor::count_poll(&fresh, &program()),
        Ok(PollCount { is_initialized: true, count: 1, bump })
    );
    assert!(fresh.data.is_empty());
    let mut stored = counter_account();
    stored.data = vec![1, 41, bump];
    assert_eq!(
        Processor::count_poll(&stored, &program()),
        Ok(PollCount { is_initialized: true, count: 42, bump })
    );
    stored.data = vec![1, 255, bump];
    assert_eq!(Processor::count_poll(&stored, &program()), Err(PollError::PollsOverflow));
}

#[test]
fn records_read_from_no_storage_are_blank() {
    assert_eq!(
        read_poll_count(&[]),
        Ok(PollCount { is_initialized: false, count: 0, bump: 0 })
    );
    assert_eq!(
        read_poll_voter(&[]),
        Ok(PollVoter { is_initialized: false, poll_id: 0, option_selected: 0, bump: 0 })
    );
    let poll = read_poll(&[]).unwrap();
    assert!(!poll.is_initialized);
    assert_eq!(poll.options.len(), 4);
    assert_eq!(read_poll_count(&[1, 2, 3]), Ok(PollCount { is_initialized: true, count: 2, bump: 3 }));
    assert_eq!(read_poll_count(&[1, 2]), Err(PollError::CorruptRecord));
    assert_eq!(read_poll(&[0u8; 3]).unwrap_err(), PollError::CorruptRecord);
    assert_eq!(read_poll_voter(&[0u8; 3]), Err(PollError::CorruptRecord));
}
