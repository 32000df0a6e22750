use poll_program::error::{PollError, VoterError};
use poll_program::instruction::{PollInstruction, VoteInstruction};

fn create_poll_bytes(title: &str, options: &[&str]) -> Vec<u8> {
    let mut bytes = vec![0u8, title.len() as u8];
    bytes.extend_from_slice(title.as_bytes());
    bytes.push(options.len() as u8);
    for option in options {
        bytes.push(option.len() as u8);
    }
    for option in options {
        bytes.extend_from_slice(option.as_bytes());
    }
    bytes
}

fn assert_create_poll(instruction: PollInstruction, want_title: &str, want_options: &[&str]) {
    match instruction {
        PollInstruction::CreatePoll { title_length, title, options_count, options_size, options } => {
            assert_eq!(title_length as usize, want_title.len());
            assert_eq!(title, want_title);
            assert_eq!(options_count as usize, want_options.len());
            let sizes: Vec<u8> = want_options.iter().map(|o| o.len() as u8).collect();
            assert_eq!(options_size, sizes);
            let texts: Vec<String> = want_options.iter().map(|o| o.to_string()).collect();
            assert_eq!(options, texts);
        }
        other => panic!("not a create-poll instruction: {:?}", other),
    }
}

#[test]
fn unpack_create_poll() {
    let bytes = create_poll_bytes("Favorite color", &["Red", "Blue"]);
    assert_eq!(
        bytes,
        [
            &[0u8, 14][..],
            b"Favorite color",
            &[2, 3, 4],
            b"RedBlue"
        ]
        .concat()
    );
    assert_create_poll(PollInstruction::unpack(&bytes).unwrap(), "Favorite color", &["Red", "Blue"]);
}

#[test]
fn unpack_create_poll_ignores_what_follows() {
    let mut bytes = create_poll_bytes("T", &["a", "bc", "def"]);
    bytes.extend_from_slice(&[1, 2, 3]);
    assert_create_poll(PollInstruction::unpack(&bytes).unwrap(), "T", &["a", "bc", "def"]);
}

#[test]
fn unpack_create_poll_without_title_or_options() {
    assert_create_poll(PollInstruction::unpack(&[0, 0, 0]).unwrap(), "", &[]);
    assert_create_poll(PollInstruction::unpack(&[0, 0, 2, 0, 0]).unwrap(), "", &["", ""]);
}

#[test]
fn unpack_create_poll_does_not_bound_the_texts() {
    let title = "t".repeat(255);
    let long = "o".repeat(200);
    let options = [long.as_str(), "x", "y", "z", "w", "v"];
    let bytes = create_poll_bytes(&title, &options);
    assert_create_poll(PollInstruction::unpack(&bytes).unwrap(), &title, &options);
}

#[test]
fn unpack_create_poll_with_text_beyond_ascii() {
    let bytes = create_poll_bytes("été", &["Zürich", "東京"]);
    assert_create_poll(PollInstruction::unpack(&bytes).unwrap(), "été", &["Zürich", "東京"]);
}

#[test]
fn unpack_create_poll_cut_short() {
    let bytes = create_poll_bytes("Favorite color", &["Red", "Blue"]);
    for len in 1..bytes.len() {
        assert_eq!(
            PollInstruction::unpack(&bytes[..len]).unwrap_err(),
            PollError::InvalidInstructionData,
            "cut to {} bytes",
            len
        );
    }
    assert!(PollInstruction::unpack(&bytes).is_ok());
}

#[test]
fn unpack_create_poll_refuses_what_is_not_utf8() {
    let mut bytes = create_poll_bytes("Favorite color", &["Red", "Blue"]);
    bytes[3] = 0xff;
    assert_eq!(PollInstruction::unpack(&bytes).unwrap_err(), PollError::InvalidInstructionData);
    let mut bytes = create_poll_bytes("Favorite color", &["Red", "Blue"]);
    let last = bytes.len() - 1;
    bytes[last] = 0xc3;
    assert_eq!(PollInstruction::unpack(&bytes).unwrap_err(), PollError::InvalidInstructionData);
    // A character cut in two by the lengths is no text either.
    let bytes = [&[0u8, 1, b'T', 2, 1, 1][..], "é".as_bytes()].concat();
    assert_eq!(PollInstruction::unpack(&bytes).unwrap_err(), PollError::InvalidInstructionData);
}

#[test]
fn create_poll_reads_the_bytes_after_the_tag() {
    let bytes = create_poll_bytes("Q", &["yes", "no"]);
    assert_create_poll(PollInstruction::create_poll(&bytes[1..]).unwrap(), "Q", &["yes", "no"]);
    assert_eq!(
        PollInstruction::create_poll(&[]).unwrap_err(),
        PollError::InvalidInstructionData
    );
    assert_eq!(
        PollInstruction::create_poll(&[1]).unwrap_err(),
        PollError::InvalidInstructionData
    );
    assert_eq!(
        PollInstruction::create_poll(&[1, b'Q']).unwrap_err(),
        PollError::InvalidInstructionData
    );
    assert_eq!(
        PollInstruction::create_poll(&[1, b'Q', 1]).unwrap_err(),
        PollError::InvalidInstructionData
    );
    assert_eq!(
        PollInstruction::create_poll(&[1, b'Q', 1, 2, b'a']).unwrap_err(),
        PollError::InvalidInstructionData
    );
}

#[test]
fn unpack_vote_poll() {
    match PollInstruction::unpack(&[1, 7, 2]).unwrap() {
        PollInstruction::VotePoll { id, option_id } => {
            assert_eq!(id, 7);
            assert_eq!(option_id, 2);
        }
        other => panic!("not a cast-vote instruction: {:?}", other),
    }
    match PollInstruction::unpack(&[1, 255, 0, 9, 9]).unwrap() {
        PollInstruction::VotePoll { id, option_id } => {
            assert_eq!(id, 255);
            assert_eq!(option_id, 0);
        }
        other => panic!("not a cast-vote instruction: {:?}", other),
    }
}

#[test]
fn unpack_vote_poll_cut_short() {
    assert_eq!(PollInstruction::unpack(&[1]).unwrap_err(), PollError::InvalidInstructionData);
    assert_eq!(PollInstruction::unpack(&[1, 7]).unwrap_err(), PollError::InvalidInstructionData);
    assert_eq!(PollInstruction::vote_poll(&[7]).unwrap_err(), PollError::InvalidInstructionData);
    assert!(PollInstruction::vote_poll(&[7, 1]).is_ok());
}

#[test]
fn unpack_refuses_empty_input_and_unknown_tags() {
    assert_eq!(PollInstruction::unpack(&[]).unwrap_err(), PollError::InvalidInstruction);
    assert_eq!(PollInstruction::unpack(&[2]).unwrap_err(), PollError::InvalidInstructionData);
    assert_eq!(
        PollInstruction::unpack(&[2, 1, 1, 1]).unwrap_err(),
        PollError::InvalidInstructionData
    );
    assert_eq!(
        PollInstruction::unpack(&[255, 0, 0]).unwrap_err(),
        PollError::InvalidInstructionData
    );
}

#[test]
fn vote_instruction_unpack() {
    assert_eq!(VoteInstruction::unpack(&[0, 5]), Ok(VoteInstruction::Initialize { group: 5 }));
    assert_eq!(VoteInstruction::unpack(&[0, 5, 9]), Ok(VoteInstruction::Initialize { group: 5 }));
    assert_eq!(
        VoteInstruction::unpack(&[1, 5, 2]),
        Ok(VoteInstruction::Vote { group: 5, value: 2 })
    );
}

#[test]
fn vote_instruction_unpack_errors() {
    assert_eq!(VoteInstruction::unpack(&[]), Err(VoterError::InvalidInstruction));
    assert_eq!(VoteInstruction::unpack(&[0]), Err(VoterError::InvalidInstruction));
    assert_eq!(VoteInstruction::unpack(&[1]), Err(VoterError::InvalidInstruction));
    assert_eq!(VoteInstruction::unpack(&[1, 5]), Err(VoterError::InvalidInstruction));
    assert_eq!(VoteInstruction::unpack(&[2, 5, 2]), Err(VoterError::InvalidInstruction));
}

#[test]
fn vote_instruction_unpack_group_and_increment() {
    assert_eq!(VoteInstruction::unpack_group(&[5, 2]), Ok(5));
    assert_eq!(VoteInstruction::unpack_group(&[5]), Ok(5));
    assert_eq!(VoteInstruction::unpack_group(&[]), Err(VoterError::InvalidInstruction));
    assert_eq!(VoteInstruction::unpack_increment(&[5, 2]), Ok(2));
    assert_eq!(VoteInstruction::unpack_increment(&[5]), Err(VoterError::InvalidInstruction));
    assert_eq!(VoteInstruction::unpack_increment(&[]), Err(VoterError::InvalidInstruction));
}
