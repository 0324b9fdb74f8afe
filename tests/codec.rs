use guessing_game::{
    get_random_id, get_string_slice_length, ConnectionType, is_packable, merge_u8, pack, split_u16, unpack,
    unpack_without_headers, Evaluation, Message, MessageError, OpponentSelected, Packable,
    Password, PlayerId, PlayerList, Riddle, Role, HEADERS_LEN, ID_LENGTH,
};

#[test]
fn test_merge_split_u8_to_u16() {
    let (a, b) = split_u16(645);
    let value = merge_u8(a, b);
    assert_eq!(value, 645);
}

#[test]
fn test_pack_unpack_riddle() {
    let riddle = Riddle {
        sender: get_random_id(),
        asking_player: get_random_id(),
        guessing_player: get_random_id(),
        message: String::from(""),
        hint: None,
    };

    let bytes = pack(&Message::Riddle(riddle));
    let message = unpack(&bytes).unwrap();

    if let Message::Riddle(_) = message {
    } else {
        panic!("message should be riddle");
    }
}

#[test]
fn test_pack_unpack_evaluation() {
    let riddle = Evaluation::default();
    let bytes = pack(&Message::Evaluation(riddle));
    let message = unpack(&bytes).unwrap();

    if let Message::Evaluation(_) = message {
    } else {
        panic!("message should be evaluation");
    }
}

#[test]
fn test_pack_unpack_opponent_selected() {
    let opponent_selected = OpponentSelected {
        guessing_player: get_random_id(),
        asking_player: get_random_id(),
    };

    let bytes = pack(&Message::OpponentSelected(opponent_selected));
    let message = unpack(&bytes).unwrap();

    if let Message::OpponentSelected(_) = message {
    } else {
        panic!("message should be opponentSelected");
    }
}

#[test]
fn test_pack_unpack_player_list() {
    let player_list = PlayerList::default();
    let bytes = pack(&Message::PlayerList(player_list));
    let message = unpack(&bytes).unwrap();

    if let Message::PlayerList(_) = message {
    } else {
        panic!("message should be player list");
    }
}

#[test]
fn test_pack_unpack_disconnected_player() {
    let player = get_random_id();
    let bytes = pack(&Message::PlayerNotAvailable(player.clone()));
    let message = unpack(&bytes).unwrap();

    if let Message::PlayerNotAvailable(player_unwrapped) = message {
        assert_eq!(player, player_unwrapped);
    } else {
        panic!("message should be player list");
    }
}

#[test]
fn test_pack_unpack_register_player_guessing_role() {
    let bytes = pack(&Message::RegisterPlayerRole(Role::GuessingPlayer));
    let message = unpack(&bytes).unwrap();

    if let Message::RegisterPlayerRole(role) = message {
        match role {
            Role::AskingPlayer => panic!("Role should be GuessingPlayer"),
            Role::GuessingPlayer => {}
        }
    } else {
        panic!("message should be register asking_player");
    }
}

#[test]
fn test_pack_unpack_register_player_asking_role() {
    let bytes = pack(&Message::RegisterPlayerRole(Role::AskingPlayer));
    let message = unpack(&bytes).unwrap();

    if let Message::RegisterPlayerRole(role) = message {
        match role {
            Role::AskingPlayer => {}
            Role::GuessingPlayer => {
                panic!("Role should be AskinPlayer")
            }
        }
    } else {
        panic!("message should be register asking_player");
    }
}

#[test]
fn test_pack_unpack_player_id() {
    let random_id = get_random_id();
    let player = PlayerId {
        player_id: random_id.clone(),
    };
    let bytes = pack(&Message::PlayerId(player));
    let message = unpack(&bytes).unwrap();

    if let Message::PlayerId(player_id) = message {
        assert_eq!(random_id, player_id.player_id);
    } else {
        panic!("message should be PlayerId");
    }
}

#[test]
fn test_pack_unpack_request_ids() {
    let bytes = pack(&Message::RequestGuessingPlayers);
    let message = unpack(&bytes).unwrap();

    if let Message::RequestGuessingPlayers = message {
    } else {
        panic!("message should be request ids");
    }
}

#[test]
fn test_pack_unpack_game_start() {
    let bytes = pack(&Message::GameStart);
    let message = unpack(&bytes).unwrap();

    if let Message::GameStart = message {
    } else {
        panic!("message should be unknown");
    }
}

#[test]
fn test_pack_unpack_unknown() {
    let bytes = pack(&Message::Unknown);
    let message = unpack(&bytes).unwrap();

    if let Message::Unknown = message {
    } else {
        panic!("message should be unknown");
    }
}

#[test]
fn test_pack_unpack_unknown_different_sign() {
    let mut bytes = pack(&Message::Unknown);
    let last_idx = bytes.len() - 1;
    let num = bytes.get_mut(last_idx).unwrap();
    *num = 145;
    let message = unpack(&bytes).unwrap();

    if let Message::Unknown = message {
    } else {
        panic!("message should be Unknown for not recognized number");
    }
}

#[test]
fn pack_unpack_evaluation_with_hint() {
    let hint_value = Some(String::from("This is a hint."));
    let guessed_value = true;

    let evaluation_instance = Evaluation {
        hint: hint_value.clone(),
        guessed: guessed_value,
    };

    let bytes = evaluation_instance.pack();
    let mut check_instance = Evaluation::default();
    check_instance
        .unpack(&bytes)
        .expect("Unpacking should not fail");

    assert_eq!(check_instance.hint, hint_value);
    assert_eq!(check_instance.guessed, guessed_value);
}

#[test]
fn pack_unpack_evaluation_without_hint() {
    let hint_value = None;
    let guessed_value = false;

    let evaluation_instance = Evaluation {
        hint: hint_value,
        guessed: guessed_value,
    };

    let bytes = evaluation_instance.pack();
    let mut check_instance = Evaluation::default();
    check_instance
        .unpack(&bytes)
        .expect("Unpacking should not fail");

    assert_eq!(check_instance.hint, None);
    assert_eq!(check_instance.guessed, guessed_value);
}

#[test]
fn pack_unpack_opponent() {
    let player_id = get_random_id();
    let opponent_id = get_random_id();
    assert_eq!(player_id.len(), ID_LENGTH as usize);

    let id_instance = OpponentSelected {
        guessing_player: player_id.clone(),
        asking_player: opponent_id.clone(),
    };

    let bytes = id_instance.pack();
    let mut check_instance = OpponentSelected::default();
    check_instance
        .unpack(&bytes)
        .expect("Unpacking should not fail");

    assert_eq!(check_instance.guessing_player, player_id);
    assert_eq!(check_instance.asking_player, opponent_id);
}

#[test]
fn pack_unpack_pasword() {
    let id_instance = Password {
        password: "12345".into(),
    };

    let bytes = id_instance.pack();
    let mut check_instance = Password::default();
    check_instance
        .unpack(&bytes)
        .expect("Unpacking should not fail");

    assert_eq!(&check_instance.password, "12345");
}

#[test]
fn pack_unpack_player_id() {
    let player_id = get_random_id();
    let player_id_instance = PlayerId {
        player_id: player_id.clone(),
    };

    let bytes = player_id_instance.pack();
    let mut check_instance = PlayerId::default();
    check_instance
        .unpack(&bytes)
        .expect("Unpacking should not fail");

    assert_eq!(player_id, check_instance.player_id);
}

#[test]
fn pack_unpack_player_list() {
    let opponent_ids = vec![get_random_id(), get_random_id()];

    let oponents_instance = PlayerList {
        opponent_ids: opponent_ids.clone(),
    };

    let bytes = oponents_instance.pack();
    let mut check_instance = PlayerList::default();
    check_instance
        .unpack(&bytes)
        .expect("Unpacking should not fail");

    assert_eq!(check_instance.opponent_ids, opponent_ids);
}

#[test]
fn pack_unpack_player_list_none_id() {
    let opponent_ids = vec![get_random_id(), get_random_id()];

    let oponents_instance = PlayerList {
        opponent_ids: opponent_ids.clone(),
    };

    let bytes = oponents_instance.pack();
    let mut check_instance = PlayerList::default();
    check_instance
        .unpack(&bytes)
        .expect("Unpacking should not fail");

    assert_eq!(check_instance.opponent_ids, opponent_ids);
}

#[test]
fn pack_unpack_riddle() {
    let sender = get_random_id();
    let asking_player = get_random_id();
    let guessing_player = get_random_id();
    let message = String::from("What is meaning of life?");
    let hint = String::from("Galaxy");
    let riddle_instance = Riddle {
        sender,
        asking_player,
        guessing_player,
        message,
        hint: Some(hint.clone()),
    };

    let bytes = riddle_instance.pack();
    let mut check_instance = Riddle::default();
    check_instance
        .unpack(&bytes)
        .expect("Unpacking should not fail");

    assert_eq!(check_instance.sender, riddle_instance.sender);
    assert_eq!(check_instance.asking_player, riddle_instance.asking_player);
    assert_eq!(
        check_instance.guessing_player,
        riddle_instance.guessing_player
    );
    assert_eq!(check_instance.message, riddle_instance.message);
    assert_eq!(check_instance.hint, Some(hint));
}

#[test]
fn pack_unpack_riddle_with_no_hint() {
    let sender = get_random_id();
    let asking_player = get_random_id();
    let guessing_player = get_random_id();
    let message = String::from("What is meaning of life?");

    let riddle_instance = Riddle {
        sender,
        asking_player,
        guessing_player,
        message,
        hint: None,
    };

    let bytes = riddle_instance.pack();

    let mut check_instance = Riddle::default();

    check_instance
        .unpack(&bytes)
        .expect("Unpacking should not fail");

    assert_eq!(check_instance.sender, riddle_instance.sender);
    assert_eq!(check_instance.asking_player, riddle_instance.asking_player);
    assert_eq!(
        check_instance.guessing_player,
        riddle_instance.guessing_player
    );
    assert_eq!(check_instance.message, riddle_instance.message);
    assert_eq!(check_instance.hint, None);
}

// Frame layout, exact bytes.

#[test]
fn frame_bytes_of_role_registration() {
    let bytes = pack(&Message::RegisterPlayerRole(Role::AskingPlayer));
    assert_eq!(bytes, vec![0x47, 0x47, 0, 2, 6, 1]);
    let bytes = pack(&Message::RegisterPlayerRole(Role::GuessingPlayer));
    assert_eq!(bytes, vec![0x47, 0x47, 0, 2, 6, 0]);
}

#[test]
fn frame_bytes_of_password() {
    let bytes = pack(&Message::Password(Password { password: "ab".into() }));
    assert_eq!(bytes, vec![0x47, 0x47, 0, 3, 3, b'a', b'b']);
    assert_eq!(HEADERS_LEN, 4);
}

#[test]
fn frame_length_bytes_are_high_then_low() {
    let password = "x".repeat(300);
    let bytes = pack(&Message::Password(Password { password }));
    assert_eq!(bytes[2], 1);
    assert_eq!(bytes[3], 45);
    assert_eq!(bytes.len(), 4 + 301);
}

#[test]
fn split_and_merge_exact_values() {
    assert_eq!(split_u16(0x1234), (0x12, 0x34));
    assert_eq!(merge_u8(0xAB, 0xCD), 0xABCD);
    assert_eq!(split_u16(65535), (255, 255));
}

#[test]
fn string_slice_length_counts_bytes() {
    assert_eq!(get_string_slice_length("héllo"), 6);
    assert_eq!(get_string_slice_length(""), 0);
}

// Round trip on concrete values, including empty and 255-byte strings.

fn id(c: char) -> String {
    std::iter::repeat(c).take(ID_LENGTH).collect()
}

#[test]
fn round_trip_riddle_with_longest_fields() {
    let long = "q".repeat(255);
    let riddle = Riddle {
        sender: id('a'),
        asking_player: id('a'),
        guessing_player: id('b'),
        message: long.clone(),
        hint: Some("h".repeat(255)),
    };
    let bytes = pack(&Message::Riddle(riddle));
    match unpack(&bytes).unwrap() {
        Message::Riddle(r) => {
            assert_eq!(r.sender, id('a'));
            assert_eq!(r.asking_player, id('a'));
            assert_eq!(r.guessing_player, id('b'));
            assert_eq!(r.message, long);
            assert_eq!(r.hint, Some("h".repeat(255)));
        }
        _ => panic!("message should be riddle"),
    }
}

#[test]
fn round_trip_password_and_departure_with_empty_text() {
    let bytes = pack(&Message::Password(Password { password: String::new() }));
    match unpack(&bytes).unwrap() {
        Message::Password(p) => assert_eq!(p.password, ""),
        _ => panic!("message should be password"),
    }
    let bytes = pack(&Message::PlayerNotAvailable("ünïcode".into()));
    match unpack(&bytes).unwrap() {
        Message::PlayerNotAvailable(s) => assert_eq!(s, "ünïcode"),
        _ => panic!("message should be departure"),
    }
}

#[test]
fn round_trip_player_list_of_three() {
    let ids = vec![id('x'), id('y'), id('z')];
    let bytes = pack(&Message::PlayerList(PlayerList { opponent_ids: ids.clone() }));
    match unpack(&bytes).unwrap() {
        Message::PlayerList(l) => assert_eq!(l.opponent_ids, ids),
        _ => panic!("message should be player list"),
    }
}

// Truncation is rejected at every cut.

#[test]
fn truncated_frames_are_rejected() {
    let messages = vec![
        Message::Riddle(Riddle {
            sender: id('a'),
            asking_player: id('a'),
            guessing_player: id('b'),
            message: "2+2?".into(),
            hint: Some("math".into()),
        }),
        Message::Evaluation(Evaluation { hint: Some("warm".into()), guessed: false }),
        Message::OpponentSelected(OpponentSelected { guessing_player: id('g'), asking_player: id('a') }),
        Message::Password(Password { password: "secret123".into() }),
        Message::PlayerList(PlayerList { opponent_ids: vec![id('p')] }),
        Message::PlayerNotAvailable(id('n')),
        Message::RegisterPlayerRole(Role::AskingPlayer),
        Message::PlayerId(PlayerId { player_id: id('i') }),
        Message::RequestGuessingPlayers,
        Message::GameStart,
        Message::Unknown,
    ];
    for m in &messages {
        let bytes = pack(m);
        assert!(unpack(&bytes).is_ok());
        for k in 0..bytes.len() {
            assert!(unpack(&bytes[..k]).is_err(), "cut at {} must fail", k);
        }
    }
}

#[test]
fn unknown_tag_two_hundred_decodes_as_unknown() {
    match unpack_without_headers(&[200]).unwrap() {
        Message::Unknown => {}
        _ => panic!("tag 200 should be Unknown"),
    }
    match unpack(&[0x47, 0x47, 0, 3, 200, 1, 2]).unwrap() {
        Message::Unknown => {}
        _ => panic!("tag 200 should be Unknown"),
    }
}

// Each decode failure.

fn is_bad_unpack(r: Result<Message, MessageError>) -> bool {
    matches!(r, Err(MessageError::BadUnpack(_)))
}

#[test]
fn wrong_prefix_is_rejected() {
    assert!(is_bad_unpack(unpack(&[0x48, 0x47, 0, 1, 8])));
}

#[test]
fn declared_length_must_match() {
    assert!(is_bad_unpack(unpack(&[0x47, 0x47, 0, 2, 8])));
    assert!(is_bad_unpack(unpack(&[0x47, 0x47, 0, 1, 8, 0])));
}

#[test]
fn empty_payload_is_rejected() {
    assert!(is_bad_unpack(unpack_without_headers(&[])));
}

#[test]
fn invalid_utf8_is_rejected() {
    assert!(is_bad_unpack(unpack_without_headers(&[3, 0xFF, 0xFE])));
    assert!(is_bad_unpack(unpack_without_headers(&[5, 0xC0])));
    assert!(is_bad_unpack(unpack_without_headers(&[1, 1, 0xED, 0xA0, 0x80])));
}

#[test]
fn truncated_identifier_is_rejected() {
    assert!(is_bad_unpack(unpack_without_headers(&[7, b'a', b'b'])));
    assert!(is_bad_unpack(unpack_without_headers(&[2, b'a', b'b', b'c'])));
    assert!(is_bad_unpack(unpack_without_headers(&[4, 2, b'a'])));
}

#[test]
fn riddle_string_past_end_is_rejected() {
    let mut body = vec![0u8];
    body.extend_from_slice(id('a').as_bytes());
    body.extend_from_slice(id('a').as_bytes());
    body.extend_from_slice(id('b').as_bytes());
    body.push(5);
    body.extend_from_slice(b"abc");
    assert!(is_bad_unpack(unpack_without_headers(&body)));
}

#[test]
fn missing_role_byte_is_rejected() {
    assert!(is_bad_unpack(unpack_without_headers(&[6])));
}

#[test]
fn evaluation_without_verdict_is_rejected() {
    assert!(is_bad_unpack(unpack_without_headers(&[1])));
}

#[test]
fn decoded_utf8_text_is_kept_exactly() {
    match unpack_without_headers(&[3, 0xC3, 0xA9, b'x']).unwrap() {
        Message::Password(p) => assert_eq!(p.password, "éx"),
        _ => panic!("message should be password"),
    }
}

#[test]
fn packable_limits() {
    let too_long = Riddle {
        sender: id('a'),
        asking_player: id('a'),
        guessing_player: id('b'),
        message: "q".repeat(256),
        hint: None,
    };
    assert!(!is_packable(&Message::Riddle(too_long)));
    assert!(is_packable(&Message::Password(Password { password: "p".repeat(65534) })));
    assert!(!is_packable(&Message::Password(Password { password: "p".repeat(65535) })));
    let many = PlayerList { opponent_ids: vec![id('z'); 256] };
    assert!(!is_packable(&Message::PlayerList(many)));
    assert!(is_packable(&Message::GameStart));
}

#[test]
fn random_ids_are_alphanumeric_of_full_width() {
    for _ in 0..20 {
        let r = get_random_id();
        assert_eq!(r.len(), ID_LENGTH);
        assert!(r.bytes().all(|b| b.is_ascii_alphanumeric()));
    }
}

#[test]
fn message_error_descriptions() {
    assert_eq!(MessageError::BadUnpack("x").describe(), "Bad Unpack: x");
    assert_eq!(MessageError::EmptyRead.describe(), "");
    assert_eq!(
        MessageError::InvalidRead(ConnectionType::Tcp).describe(),
        "Could not read data from TCP stream."
    );
    assert_eq!(
        MessageError::InvalidWrite(ConnectionType::UnixSocket).describe(),
        "Could not write data to unix socket."
    );
}
