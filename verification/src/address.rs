//! Addresses of records, derived from what a record stands for.
//!
//! A record's address is computed from seeds (a tag for the kind of record,
//! then what tells this record from others of its kind) and the program's
//! id. Not every computed value may serve as an address, so one more seed of
//! a single byte, the bump, is searched for until the value may. The bump
//! found is stored in the record, and the address is computed again from it,
//! without a search, whenever the record is used.
use solana_program::pubkey::Pubkey;
use vstd::prelude::*;
use vstd::std_specs::cmp::PartialEqSpecImpl;

verus! {

/// The address of a record, a voter or a program: 32 bytes.
#[derive(Debug, Clone, Copy, Eq, Hash)]
pub struct Address {
    pub bytes: [u8; 32],
}

impl View for Address {
    type V = Seq<u8>;

    open spec fn view(&self) -> Seq<u8> {
        self.bytes@
    }
}

impl PartialEq for Address {
    fn eq(&self, other: &Address) -> (same: bool) {
        let mut i: usize = 0;
        while i < 32
            invariant
                i <= 32,
                forall|j: int| 0 <= j < i ==> self.bytes@[j] == other.bytes@[j],
            decreases 32 - i,
        {
            if self.bytes[i] != other.bytes[i] {
                return false;
            }
            i = i + 1;
        }
        assert(self@ =~= other@);
        true
    }
}

impl PartialEqSpecImpl for Address {
    open spec fn obeys_eq_spec() -> bool {
        true
    }

    open spec fn eq_spec(&self, other: &Address) -> bool {
        self@ == other@
    }
}

impl Address {
    /// The address with these bytes.
    pub fn new(bytes: [u8; 32]) -> (address: Address)
        ensures
            address@ == bytes@,
    {
        Address { bytes }
    }

    /// The bytes of the address.
    pub fn to_bytes(&self) -> (bytes: [u8; 32])
        ensures
            bytes@ == self@,
    {
        self.bytes
    }
}

/// The tag of the poll counter's address.
pub open spec fn poll_count_seed() -> Seq<u8> {
    seq![80u8, 111u8, 108u8, 108u8, 67u8, 111u8, 117u8, 110u8, 116u8]
}

/// The tag of the address of a poll, and of a voter's guard.
pub open spec fn poll_seed() -> Seq<u8> {
    seq![80u8, 111u8, 108u8, 108u8]
}

/// The seeds of the poll counter.
pub open spec fn poll_count_seeds() -> Seq<Seq<u8>> {
    seq![poll_count_seed()]
}

/// The seeds of the poll with id `poll_id`.
pub open spec fn poll_seeds(poll_id: u8) -> Seq<Seq<u8>> {
    seq![poll_seed(), seq![poll_id]]
}

/// The seeds of the guard of `voter` on the poll with id `poll_id`, whose
/// stored bump is `poll_bump`.
pub open spec fn voter_seeds(poll_id: u8, poll_bump: u8, voter: Seq<u8>) -> Seq<Seq<u8>> {
    seq![poll_seed(), seq![poll_id], seq![poll_bump], voter]
}

/// `seeds`, then the bump as one more seed.
pub open spec fn with_bump(seeds: Seq<Seq<u8>>, bump: u8) -> Seq<Seq<u8>> {
    seeds.push(seq![bump])
}

/// The address that the seeds give under the program, without a search:
/// what `Pubkey::create_program_address` returns for them. `None` where the
/// seeds give no address.
pub uninterp spec fn program_address(seeds: Seq<Seq<u8>>, program_id: Seq<u8>) -> Option<Seq<u8>>;

/// The address and the bump that a search from the seeds finds under the
/// program: what `Pubkey::try_find_program_address` returns for them. `None`
/// where no bump gives an address.
pub uninterp spec fn program_address_search(
    seeds: Seq<Seq<u8>>,
    program_id: Seq<u8>,
) -> Option<(Seq<u8>, u8)>;

/// Calls `Pubkey::create_program_address`. It hashes the seeds, the program
/// id and a marker, and refuses seeds that are too many or too long and
/// hashes that lie on the curve; that takes pages to state, so the result
/// only has a name. An error comes back as `None`.
#[verifier::external_body]
fn create_program_address(seeds: &Vec<Vec<u8>>, program_id: &Address) -> (address: Option<Address>)
    ensures
        match address {
            Some(a) => program_address(seeds.deep_view(), program_id@) == Some(a@),
            None => program_address(seeds.deep_view(), program_id@) is None,
        },
{
    let parts: Vec<&[u8]> = seeds.iter().map(|seed| seed.as_slice()).collect();
    match Pubkey::create_program_address(&parts, &Pubkey::new_from_array(program_id.bytes)) {
        Ok(key) => Some(Address { bytes: key.to_bytes() }),
        Err(_) => None,
    }
}

/// Calls `Pubkey::try_find_program_address`. It tries bumps from 255 down
/// and returns the first for which `Pubkey::create_program_address`, given
/// the seeds and then the bump, returns an address, together with that
/// address: so what is found is again the address of the seeds with the bump.
#[verifier::external_body]
fn try_find_program_address(seeds: &Vec<Vec<u8>>, program_id: &Address) -> (found: Option<
    (Address, u8),
>)
    ensures
        match found {
            Some((a, bump)) => program_address_search(seeds.deep_view(), program_id@) == Some(
                (a@, bump),
            ) && program_address(with_bump(seeds.deep_view(), bump), program_id@) == Some(a@),
            None => program_address_search(seeds.deep_view(), program_id@) is None,
        },
{
    let parts: Vec<&[u8]> = seeds.iter().map(|seed| seed.as_slice()).collect();
    match Pubkey::try_find_program_address(&parts, &Pubkey::new_from_array(program_id.bytes)) {
        Some((key, bump)) => Some((Address { bytes: key.to_bytes() }, bump)),
        None => None,
    }
}

fn one_byte(byte: u8) -> (seed: Vec<u8>)
    ensures
        seed@ == seq![byte],
{
    let mut seed: Vec<u8> = Vec::new();
    seed.push(byte);
    seed
}

fn poll_count_tag() -> (seed: Vec<u8>)
    ensures
        seed@ == poll_count_seed(),
{
    let seed: Vec<u8> = vec![80u8, 111u8, 108u8, 108u8, 67u8, 111u8, 117u8, 110u8, 116u8];
    assert(seed@ =~= poll_count_seed());
    seed
}

fn poll_tag() -> (seed: Vec<u8>)
    ensures
        seed@ == poll_seed(),
{
    let seed: Vec<u8> = vec![80u8, 111u8, 108u8, 108u8];
    assert(seed@ =~= poll_seed());
    seed
}

/// The seeds of the three kinds of record, the bump with them, never spell
/// the same bytes in a row; nor do the seeds of two polls with different ids,
/// or of two guards that differ in the poll or in the voter. So no two
/// records are derived from the same input.
pub proof fn seeds_tell_records_apart(
    id: u8,
    poll_bump: u8,
    voter: Seq<u8>,
    bump: u8,
    other_id: u8,
    other_poll_bump: u8,
    other_voter: Seq<u8>,
    other_bump: u8,
)
    requires
        voter.len() == 32,
        other_voter.len() == 32,
    ensures
        with_bump(poll_count_seeds(), bump).flatten() != with_bump(
            poll_seeds(other_id),
            other_bump,
        ).flatten(),
        with_bump(poll_count_seeds(), bump).flatten() != with_bump(
            voter_seeds(other_id, other_poll_bump, other_voter),
            other_bump,
        ).flatten(),
        with_bump(poll_seeds(id), bump).flatten() != with_bump(
            voter_seeds(other_id, other_poll_bump, other_voter),
            other_bump,
        ).flatten(),
        id != other_id ==> with_bump(poll_seeds(id), bump).flatten() != with_bump(
            poll_seeds(other_id),
            other_bump,
        ).flatten(),
        id != other_id || poll_bump != other_poll_bump || voter != other_voter ==> with_bump(
            voter_seeds(id, poll_bump, voter),
            bump,
        ).flatten() != with_bump(
            voter_seeds(other_id, other_poll_bump, other_voter),
            other_bump,
        ).flatten(),
{
    reveal_with_fuel(Seq::flatten, 6);
    let count = with_bump(poll_count_seeds(), bump).flatten();
    let poll = with_bump(poll_seeds(id), bump).flatten();
    let other_poll = with_bump(poll_seeds(other_id), other_bump).flatten();
    let guard = with_bump(voter_seeds(id, poll_bump, voter), bump).flatten();
    let other_guard = with_bump(
        voter_seeds(other_id, other_poll_bump, other_voter),
        other_bump,
    ).flatten();
    assert(count =~= poll_count_seed() + seq![bump]);
    assert(poll =~= poll_seed() + seq![id] + seq![bump]);
    assert(other_poll =~= poll_seed() + seq![other_id] + seq![other_bump]);
    assert(guard =~= poll_seed() + seq![id] + seq![poll_bump] + voter + seq![bump]);
    assert(other_guard =~= poll_seed() + seq![other_id] + seq![other_poll_bump] + other_voter
        + seq![other_bump]);
    assert(count.len() == 10 && poll.len() == 6 && other_poll.len() == 6 && guard.len() == 39
        && other_guard.len() == 39);
    if id != other_id {
        assert(poll[4] == id && other_poll[4] == other_id);
        assert(guard[4] == id && other_guard[4] == other_id);
    }
    if poll_bump != other_poll_bump {
        assert(guard[5] == poll_bump && other_guard[5] == other_poll_bump);
    }
    if voter != other_voter {
        assert(guard.subrange(6, 38) =~= voter);
        assert(other_guard.subrange(6, 38) =~= other_voter);
    }
}

/// What a search found, as plain values.
pub open spec fn found_view(found: Option<(Address, u8)>) -> Option<(Seq<u8>, u8)> {
    match found {
        Some((address, bump)) => Some((address@, bump)),
        None => None,
    }
}

/// What a derivation gave, as plain values.
pub open spec fn address_view(address: Option<Address>) -> Option<Seq<u8>> {
    match address {
        Some(address) => Some(address@),
        None => None,
    }
}

/// Where a search from the seeds finds an address, the seeds with the bump
/// found give that address without a search.
pub open spec fn search_agrees(seeds: Seq<Seq<u8>>, program_id: Seq<u8>) -> bool {
    program_address_search(seeds, program_id) matches Some((address, bump)) ==> program_address(
        with_bump(seeds, bump),
        program_id,
    ) == Some(address)
}

/// The seeds of the poll counter.
pub fn seeds_of_poll_count() -> (seeds: Vec<Vec<u8>>)
    ensures
        seeds.deep_view() == poll_count_seeds(),
{
    let mut seeds: Vec<Vec<u8>> = Vec::new();
    seeds.push(poll_count_tag());
    assert(seeds.deep_view() =~~= poll_count_seeds());
    seeds
}

/// The seeds of the poll with id `poll_id`.
pub fn seeds_of_poll(poll_id: u8) -> (seeds: Vec<Vec<u8>>)
    ensures
        seeds.deep_view() == poll_seeds(poll_id),
{
    let mut seeds: Vec<Vec<u8>> = Vec::new();
    seeds.push(poll_tag());
    seeds.push(one_byte(poll_id));
    assert(seeds.deep_view() =~~= poll_seeds(poll_id));
    seeds
}

/// The seeds of the guard of `voter` on the poll with id `poll_id`, whose
/// stored bump is `poll_bump`.
pub fn seeds_of_voter(poll_id: u8, poll_bump: u8, voter: &Address) -> (seeds: Vec<Vec<u8>>)
    ensures
        seeds.deep_view() == voter_seeds(poll_id, poll_bump, voter@),
{
    let mut key: Vec<u8> = Vec::new();
    let mut i: usize = 0;
    while i < 32
        invariant
            i <= 32,
            key@ == voter@.take(i as int),
        decreases 32 - i,
    {
        key.push(voter.bytes[i]);
        assert(key@ =~= voter@.take(i + 1));
        i = i + 1;
    }
    assert(key@ =~= voter@);
    let mut seeds: Vec<Vec<u8>> = Vec::new();
    seeds.push(poll_tag());
    seeds.push(one_byte(poll_id));
    seeds.push(one_byte(poll_bump));
    seeds.push(key);
    assert(seeds.deep_view() =~~= voter_seeds(poll_id, poll_bump, voter@));
    seeds
}

/// `seeds`, then `bump` as one more seed: the seeds under which the program
/// signs for the address that the bump gives.
pub fn seeds_with_bump(seeds: Vec<Vec<u8>>, bump: u8) -> (signed: Vec<Vec<u8>>)
    ensures
        signed.deep_view() == with_bump(seeds.deep_view(), bump),
{
    let mut signed = seeds;
    signed.push(one_byte(bump));
    assert(signed.deep_view() =~~= with_bump(seeds.deep_view(), bump));
    signed
}

/// Searches for the address of the poll counter.
pub fn find_poll_count_address(program_id: &Address) -> (found: Option<(Address, u8)>)
    ensures
        found_view(found) == program_address_search(poll_count_seeds(), program_id@),
        search_agrees(poll_count_seeds(), program_id@),
{
    try_find_program_address(&seeds_of_poll_count(), program_id)
}

/// Searches for the address of the poll with id `poll_id`.
pub fn find_poll_address(poll_id: u8, program_id: &Address) -> (found: Option<(Address, u8)>)
    ensures
        found_view(found) == program_address_search(poll_seeds(poll_id), program_id@),
        search_agrees(poll_seeds(poll_id), program_id@),
{
    try_find_program_address(&seeds_of_poll(poll_id), program_id)
}

/// Searches for the address of the guard of `voter` on the poll with id
/// `poll_id`, whose stored bump is `poll_bump`.
pub fn find_voter_address(
    poll_id: u8,
    poll_bump: u8,
    voter: &Address,
    program_id: &Address,
) -> (found: Option<(Address, u8)>)
    ensures
        found_view(found) == program_address_search(
            voter_seeds(poll_id, poll_bump, voter@),
            program_id@,
        ),
        search_agrees(voter_seeds(poll_id, poll_bump, voter@), program_id@),
{
    try_find_program_address(&seeds_of_voter(poll_id, poll_bump, voter), program_id)
}

/// The address of the poll counter under its stored bump.
pub fn poll_count_address(bump: u8, program_id: &Address) -> (address: Option<Address>)
    ensures
        address_view(address) == program_address(
            with_bump(poll_count_seeds(), bump),
            program_id@,
        ),
{
    create_program_address(&seeds_with_bump(seeds_of_poll_count(), bump), program_id)
}

/// The address of the poll with id `poll_id` under its stored bump.
pub fn poll_address(poll_id: u8, bump: u8, program_id: &Address) -> (address: Option<Address>)
    ensures
        address_view(address) == program_address(
            with_bump(poll_seeds(poll_id), bump),
            program_id@,
        ),
{
    create_program_address(&seeds_with_bump(seeds_of_poll(poll_id), bump), program_id)
}

} // verus!
