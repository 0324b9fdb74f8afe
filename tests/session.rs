use guessing_game::{
    handle_evaluation, handle_login, handle_message, handle_opponent_selected, handle_read_error,
    handle_register_role, handle_riddle, pack, remove_player, unpack, ConnectionType, Evaluation,
    Flow, Message, MessageError, OpponentSelected, Outcome, Password, Players, Riddle, Role,
    Streamable, ID_LENGTH, Channel,
};
use std::cell::RefCell;
use std::rc::Rc;

/// A channel that keeps every frame written to it.
#[derive(Clone)]
struct MockStream {
    sent: Rc<RefCell<Vec<Vec<u8>>>>,
    broken: Rc<RefCell<bool>>,
    shut: Rc<RefCell<bool>>,
}

impl MockStream {
    fn new() -> MockStream {
        MockStream {
            sent: Rc::new(RefCell::new(Vec::new())),
            broken: Rc::new(RefCell::new(false)),
            shut: Rc::new(RefCell::new(false)),
        }
    }

    fn received(&self) -> Vec<Message> {
        self.sent.borrow().iter().map(|b| unpack(b).unwrap()).collect()
    }

    fn count(&self) -> usize {
        self.sent.borrow().len()
    }
}

impl Streamable for MockStream {
    fn read(&mut self) -> Result<Message, MessageError> {
        Err(MessageError::EmptyRead)
    }

    fn write(&mut self, message: &Message) -> Result<(), MessageError> {
        if *self.broken.borrow() {
            return Err(MessageError::InvalidWrite(ConnectionType::Tcp));
        }
        self.sent.borrow_mut().push(pack(message));
        Ok(())
    }

    fn shutdown(&mut self) -> Result<(), &'static str> {
        *self.shut.borrow_mut() = true;
        Ok(())
    }
}

const SECRET: &str = "secret123";

fn login(stream: &mut Channel<MockStream>, players: &mut Players<MockStream>) -> String {
    let mut player_id = None;
    let flow = handle_message(
        stream,
        players,
        &mut player_id,
        Message::Password(Password { password: SECRET.into() }),
        SECRET,
    );
    assert!(matches!(flow, Ok(Flow::Continue)));
    player_id.unwrap()
}

fn riddle(sender: &str, asking: &str, guessing: &str, text: &str) -> Riddle {
    Riddle {
        sender: sender.into(),
        asking_player: asking.into(),
        guessing_player: guessing.into(),
        message: text.into(),
        hint: None,
    }
}

/// Two logged-in players, A asking and B guessing, not yet paired.
fn two_players() -> (Players<MockStream>, Channel<MockStream>, String, Channel<MockStream>, String) {
    let mut players = Players::new();
    let mut a_stream = Channel::new(MockStream::new());
    let mut b_stream = Channel::new(MockStream::new());
    let a = login(&mut a_stream, &mut players);
    let b = login(&mut b_stream, &mut players);
    let a_id = Some(a.clone());
    let b_id = Some(b.clone());
    handle_register_role(&mut a_stream, &mut players, Role::AskingPlayer, &a_id).unwrap();
    handle_register_role(&mut b_stream, &mut players, Role::GuessingPlayer, &b_id).unwrap();
    (players, a_stream, a, b_stream, b)
}

#[test]
fn login_with_right_password_gives_fixed_length_id() {
    let mut players = Players::new();
    let mut stream = Channel::new(MockStream::new());
    let password = Password { password: SECRET.into() };
    let id = handle_login(&mut stream, &mut players, &password, SECRET).unwrap();
    assert_eq!(id.len(), ID_LENGTH);
    match &stream.stream().received()[..] {
        [Message::PlayerId(p)] => assert_eq!(p.player_id, id),
        _ => panic!("client should receive exactly one PlayerId"),
    }
    assert!(players.contains(&id));
}

#[test]
fn login_ignores_surrounding_white_space() {
    let mut players = Players::new();
    let mut stream = Channel::new(MockStream::new());
    let password = Password { password: "  secret123\n".into() };
    assert!(handle_login(&mut stream, &mut players, &password, SECRET).is_ok());
}

#[test]
fn login_with_wrong_password_issues_no_id() {
    let mut players: Players<MockStream> = Players::new();
    let mut stream = Channel::new(MockStream::new());
    let mut player_id = None;
    let r = handle_message(
        &mut stream,
        &mut players,
        &mut player_id,
        Message::Password(Password { password: "wrong".into() }),
        SECRET,
    );
    match r {
        Err(e) => assert!(e.player_id.is_none()),
        Ok(_) => panic!("wrong password must end the connection"),
    }
    assert_eq!(stream.stream().count(), 0);
    assert!(player_id.is_none());
    assert!(*stream.stream().shut.borrow());
}

#[test]
fn login_whose_reply_fails_registers_nobody() {
    let mut players = Players::new();
    let mut stream = Channel::new(MockStream::new());
    *stream.stream().broken.borrow_mut() = true;
    let password = Password { password: SECRET.into() };
    match handle_login(&mut stream, &mut players, &password, SECRET) {
        Err(e) => {
            let id = e.player_id.unwrap();
            assert!(!players.contains(&id));
        }
        Ok(_) => panic!("a failed reply must fail the login"),
    }
}

#[test]
fn guess_round_scenario() {
    let (mut players, mut a_stream, a, mut b_stream, b) = two_players();
    let a_id = Some(a.clone());
    let b_id = Some(b.clone());

    let r = handle_riddle(&mut a_stream, &mut players, riddle(&a, &a, &b, "2+2?"), &a_id);
    assert!(matches!(r, Ok(Outcome::Forwarded)));
    match b_stream.stream().received().last() {
        Some(Message::Riddle(r)) => assert_eq!(r.message, "2+2?"),
        _ => panic!("B should receive the riddle"),
    }
    let b_player = players.get(&b).unwrap();
    assert_eq!(b_player.opponent, Some((a.clone(), 0)));
    assert_eq!(b_player.question, Some("2+2?".to_string()));
    let a_player = players.get(&a).unwrap();
    assert_eq!(a_player.opponent, Some((b.clone(), 0)));

    let r = handle_riddle(&mut b_stream, &mut players, riddle(&b, &a, &b, "5"), &b_id);
    assert!(matches!(r, Ok(Outcome::Evaluated(false))));
    match a_stream.stream().received().last() {
        Some(Message::Evaluation(e)) => {
            assert!(!e.guessed);
            assert_eq!(e.hint, None);
        }
        _ => panic!("A should receive an evaluation"),
    }
    assert_eq!(players.get(&a).unwrap().opponent, Some((b.clone(), 1)));
    assert_eq!(players.get(&b).unwrap().opponent, Some((a.clone(), 1)));

    // Guesses are compared byte for byte with the stored riddle text.
    let r = handle_riddle(&mut b_stream, &mut players, riddle(&b, &a, &b, "4"), &b_id);
    assert!(matches!(r, Ok(Outcome::Evaluated(false))));
    assert_eq!(players.get(&a).unwrap().opponent, Some((b.clone(), 2)));

    let r = handle_riddle(&mut b_stream, &mut players, riddle(&b, &a, &b, "2+2?"), &b_id);
    assert!(matches!(r, Ok(Outcome::Evaluated(true))));
    match a_stream.stream().received().last() {
        Some(Message::Evaluation(e)) => assert!(e.guessed),
        _ => panic!("A should receive an evaluation"),
    }
    assert_eq!(players.get(&a).unwrap().opponent, Some((b.clone(), 3)));
    assert_eq!(players.get(&b).unwrap().opponent, Some((a.clone(), 3)));
}

#[test]
fn riddle_to_absent_player_is_rejected() {
    let (mut players, mut a_stream, a, _b_stream, _b) = two_players();
    let a_id = Some(a.clone());
    let absent = "ZZZZZZZZZZ";
    let r = handle_riddle(&mut a_stream, &mut players, riddle(&a, &a, absent, "q"), &a_id);
    assert!(matches!(r, Ok(Outcome::Rejected)));
    match a_stream.stream().received().last() {
        Some(Message::PlayerNotAvailable(id)) => assert_eq!(id, absent),
        _ => panic!("A should be told the player is not available"),
    }
    assert_eq!(players.get(&a).unwrap().opponent, None);
}

#[test]
fn riddle_that_cannot_be_forwarded_pairs_nobody() {
    let (mut players, mut a_stream, a, b_stream, b) = two_players();
    *b_stream.stream().broken.borrow_mut() = true;
    let a_id = Some(a.clone());
    let r = handle_riddle(&mut a_stream, &mut players, riddle(&a, &a, &b, "q"), &a_id);
    assert!(matches!(r, Ok(Outcome::Undelivered)));
    assert_eq!(players.get(&a).unwrap().opponent, None);
    assert_eq!(players.get(&b).unwrap().opponent, None);
}

#[test]
fn guess_without_pairing_fails() {
    let (mut players, _a_stream, a, mut b_stream, b) = two_players();
    let b_id = Some(b.clone());
    assert!(handle_riddle(&mut b_stream, &mut players, riddle(&b, &a, &b, "4"), &b_id).is_err());
}

#[test]
fn riddle_before_login_fails() {
    let mut players: Players<MockStream> = Players::new();
    let mut s = Channel::new(MockStream::new());
    assert!(handle_riddle(&mut s, &mut players, riddle("a", "a", "b", "q"), &None).is_err());
}

#[test]
fn disconnect_propagation_scenario() {
    let (mut players, mut a_stream, a, b_stream, b) = two_players();
    let a_id = Some(a.clone());
    handle_riddle(&mut a_stream, &mut players, riddle(&a, &a, &b, "2+2?"), &a_id).unwrap();

    let err = handle_read_error(
        &mut a_stream,
        &mut players,
        &a_id,
        MessageError::InvalidRead(ConnectionType::Tcp),
    );
    assert!(err.is_some());
    match b_stream.stream().received().last() {
        Some(Message::PlayerNotAvailable(id)) => assert_eq!(id, &a),
        _ => panic!("B should be told A is gone"),
    }
    let b_player = players.get(&b).unwrap();
    assert_eq!(b_player.opponent, None);
    assert_eq!(b_player.question, None);
    assert!(!players.contains(&a));
    assert!(*a_stream.stream().shut.borrow());
}

#[test]
fn empty_read_keeps_the_session() {
    let (mut players, mut a_stream, a, _b_stream, _b) = two_players();
    let a_id = Some(a.clone());
    assert!(handle_read_error(&mut a_stream, &mut players, &a_id, MessageError::EmptyRead).is_none());
    assert!(players.contains(&a));
}

#[test]
fn malformed_frame_ends_the_session() {
    let (mut players, mut a_stream, a, _b_stream, _b) = two_players();
    let a_id = Some(a.clone());
    let e = handle_read_error(&mut a_stream, &mut players, &a_id, MessageError::BadUnpack("bad"))
        .unwrap();
    assert_eq!(e.err, "bad");
    assert_eq!(e.player_id, Some(a.clone()));
    assert!(!players.contains(&a));
}

#[test]
fn departure_notice_removes_the_named_player() {
    let (mut players, mut a_stream, a, b_stream, b) = two_players();
    let a_id = Some(a.clone());
    handle_riddle(&mut a_stream, &mut players, riddle(&a, &a, &b, "q"), &a_id).unwrap();
    let mut session = Some(a.clone());
    let flow = handle_message(
        &mut a_stream,
        &mut players,
        &mut session,
        Message::PlayerNotAvailable(a.clone()),
        SECRET,
    );
    assert!(matches!(flow, Ok(Flow::Quit)));
    assert!(!players.contains(&a));
    assert!(matches!(b_stream.stream().received().last(), Some(Message::PlayerNotAvailable(_))));
}

#[test]
fn matchmaking_rejection_scenario() {
    let (mut players, mut a_stream, a, _b_stream, b) = two_players();
    let a_id = Some(a.clone());
    handle_riddle(&mut a_stream, &mut players, riddle(&a, &a, &b, "q"), &a_id).unwrap();
    let sent_to_a = a_stream.stream().count();

    let mut c_stream = Channel::new(MockStream::new());
    let c = login(&mut c_stream, &mut players);
    let c_id = Some(c.clone());
    handle_register_role(&mut c_stream, &mut players, Role::GuessingPlayer, &c_id).unwrap();

    let choice = OpponentSelected { guessing_player: c.clone(), asking_player: a.clone() };
    let r = handle_opponent_selected(&mut c_stream, &mut players, choice, &c_id);
    assert!(matches!(r, Ok(Outcome::Rejected)));
    match c_stream.stream().received().last() {
        Some(Message::PlayerNotAvailable(id)) => assert_eq!(id, &a),
        _ => panic!("C should be told A is not available"),
    }
    assert_eq!(a_stream.stream().count(), sent_to_a);
    assert_eq!(players.get(&c).unwrap().opponent, None);
    assert_eq!(players.get(&a).unwrap().opponent, Some((b.clone(), 0)));
}

#[test]
fn opponent_selection_reaches_free_asking_player() {
    let (mut players, a_stream, a, mut b_stream, b) = two_players();
    let b_id = Some(b.clone());
    let choice = OpponentSelected { guessing_player: String::new(), asking_player: a.clone() };
    let r = handle_opponent_selected(&mut b_stream, &mut players, choice, &b_id);
    assert!(matches!(r, Ok(Outcome::Forwarded)));
    match a_stream.stream().received().last() {
        Some(Message::OpponentSelected(o)) => {
            assert_eq!(o.guessing_player, b);
            assert_eq!(o.asking_player, a);
        }
        _ => panic!("A should receive the choice"),
    }
}

#[test]
fn evaluation_goes_to_the_opponent() {
    let (mut players, mut a_stream, a, b_stream, b) = two_players();
    let a_id = Some(a.clone());
    handle_riddle(&mut a_stream, &mut players, riddle(&a, &a, &b, "q"), &a_id).unwrap();
    let e = Evaluation { hint: Some("close".into()), guessed: false };
    let r = handle_evaluation(&mut players, e, &a_id);
    assert!(matches!(r, Ok(Outcome::Forwarded)));
    match b_stream.stream().received().last() {
        Some(Message::Evaluation(e)) => assert_eq!(e.hint, Some("close".to_string())),
        _ => panic!("B should receive the evaluation"),
    }
}

#[test]
fn evaluation_from_guessing_player_fails() {
    let (mut players, _a_stream, _a, _b_stream, b) = two_players();
    let b_id = Some(b.clone());
    let e = Evaluation { hint: None, guessed: true };
    assert!(handle_evaluation(&mut players, e, &b_id).is_err());
}

#[test]
fn role_before_login_fails() {
    let mut players: Players<MockStream> = Players::new();
    let mut s = Channel::new(MockStream::new());
    assert!(handle_register_role(&mut s, &mut players, Role::AskingPlayer, &None).is_err());
}

#[test]
fn role_for_unknown_id_shuts_the_channel() {
    let mut players: Players<MockStream> = Players::new();
    let mut s = Channel::new(MockStream::new());
    let ghost = Some("ABCDEFGHIJ".to_string());
    assert!(handle_register_role(&mut s, &mut players, Role::AskingPlayer, &ghost).is_err());
    assert!(*s.stream().shut.borrow());
}

#[test]
fn available_guessing_players_are_listed() {
    let (mut players, mut a_stream, a, _b_stream, b) = two_players();
    let mut c_stream = Channel::new(MockStream::new());
    let c = login(&mut c_stream, &mut players);
    handle_register_role(&mut c_stream, &mut players, Role::GuessingPlayer, &Some(c.clone()))
        .unwrap();
    let mut listed = players.list_available_guessing_players();
    listed.sort();
    let mut expected = vec![b.clone(), c.clone()];
    expected.sort();
    assert_eq!(listed, expected);

    handle_riddle(&mut a_stream, &mut players, riddle(&a, &a, &b, "q"), &Some(a.clone())).unwrap();
    assert_eq!(players.list_available_guessing_players(), vec![c.clone()]);

    let mut session = Some(a.clone());
    let flow = handle_message(
        &mut a_stream,
        &mut players,
        &mut session,
        Message::RequestGuessingPlayers,
        SECRET,
    );
    assert!(matches!(flow, Ok(Flow::Continue)));
    match a_stream.stream().received().last() {
        Some(Message::PlayerList(l)) => assert_eq!(l.opponent_ids, vec![c.clone()]),
        _ => panic!("A should receive the list"),
    }
}

#[test]
fn removing_clears_every_reference() {
    let (mut players, mut a_stream, a, _b_stream, b) = two_players();
    handle_riddle(&mut a_stream, &mut players, riddle(&a, &a, &b, "q"), &Some(a.clone())).unwrap();
    remove_player(&mut players, &b);
    assert!(!players.contains(&b));
    let a_player = players.get(&a).unwrap();
    assert_eq!(a_player.opponent, None);
    assert_eq!(a_player.question, None);
    remove_player(&mut players, &b);
    assert!(players.contains(&a));
}

#[test]
fn player_list_from_a_client_ends_the_session() {
    let (mut players, mut a_stream, a, _b_stream, _b) = two_players();
    let mut session = Some(a.clone());
    let flow = handle_message(
        &mut a_stream,
        &mut players,
        &mut session,
        Message::PlayerList(guessing_game::PlayerList { opponent_ids: vec![] }),
        SECRET,
    );
    assert!(matches!(flow, Ok(Flow::Quit)));
    assert!(players.contains(&a));
}

#[test]
fn status_rows_list_paired_asking_players() {
    let (mut players, mut a_stream, a, mut b_stream, b) = two_players();
    assert!(players.status_rows().is_empty());
    handle_riddle(&mut a_stream, &mut players, riddle(&a, &a, &b, "q"), &Some(a.clone())).unwrap();
    handle_riddle(&mut b_stream, &mut players, riddle(&b, &a, &b, "x"), &Some(b.clone())).unwrap();
    assert_eq!(players.status_rows(), vec![(a.clone(), b.clone(), 1)]);
}

#[test]
fn verdict_that_cannot_be_delivered_is_reported() {
    let (mut players, mut a_stream, a, mut b_stream, b) = two_players();
    handle_riddle(&mut a_stream, &mut players, riddle(&a, &a, &b, "q"), &Some(a.clone())).unwrap();
    *a_stream.stream().broken.borrow_mut() = true;
    let r = handle_riddle(&mut b_stream, &mut players, riddle(&b, &a, &b, "q"), &Some(b.clone()));
    assert!(matches!(r, Ok(Outcome::Undelivered)));
    assert_eq!(players.get(&b).unwrap().opponent, Some((a.clone(), 1)));
}

#[test]
fn unreadable_frame_is_answered_with_unknown() {
    let (mut players, mut a_stream, a, _b_stream, _b) = two_players();
    let before = a_stream.stream().count();
    handle_read_error(
        &mut a_stream,
        &mut players,
        &Some(a.clone()),
        MessageError::InvalidRead(ConnectionType::UnixSocket),
    )
    .unwrap();
    assert_eq!(a_stream.stream().count(), before + 1);
    assert!(matches!(a_stream.stream().received().last(), Some(Message::Unknown)));
    assert!(*a_stream.stream().shut.borrow());
}

#[test]
fn role_errors_name_the_unauthorized_action() {
    let mut players: Players<MockStream> = Players::new();
    let mut s = Channel::new(MockStream::new());
    match handle_register_role(&mut s, &mut players, Role::GuessingPlayer, &None) {
        Err(e) => assert_eq!(e.err, "Unauthorized action"),
        Ok(_) => panic!("a role before login must fail"),
    }
    assert!(!*s.stream().shut.borrow());
}

#[test]
fn ignored_messages_send_nothing() {
    let (mut players, mut a_stream, a, _b_stream, _b) = two_players();
    let before = a_stream.stream().count();
    let mut session = Some(a.clone());
    for m in vec![Message::GameStart, Message::Unknown] {
        let flow = handle_message(&mut a_stream, &mut players, &mut session, m, SECRET);
        assert!(matches!(flow, Ok(Flow::Continue)));
    }
    assert_eq!(a_stream.stream().count(), before);
}
