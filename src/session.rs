use crate::constants::ID_LENGTH;
use crate::helpers::{get_random_id, is_alphanumeric, same_text, trim_text, trimmed};
use crate::message_error::MessageError;
use crate::messages::{
    strs_view, Evaluation, EvaluationView, Message, MessageView, OpponentSelected,
    OpponentSelectedView, Password, PlayerId, PlayerList, Riddle, Role,
};
use crate::registry::{
    after_remove, bumped, fresh_player, is_free_asking, is_free_guessing, notified, with_opponent,
    with_role, Player, PlayerView, Players,
};
use crate::transport::{Channel, Streamable};
use crate::wire::str_bytes;
use vstd::prelude::*;

verus! {

/// Why a session ended, and the player it belonged to, if one had logged in.
#[derive(Debug)]
pub struct ConnectionError {
    pub err: String,
    pub player_id: Option<String>,
}

/// What became of a request that involves another player.
#[derive(Debug, Clone, Copy, PartialEq, Eq, Structural)]
pub enum Outcome {
    /// The requester was turned away: the other player is not available. The
    /// requester was sent a notice as far as its own channel took it.
    Rejected,
    /// The other player's channel took the message.
    Forwarded,
    /// The other player's channel did not take the message.
    Undelivered,
    /// A guess was judged, right or wrong, and the verdict reached the asking player.
    Evaluated(bool),
    /// The other player is gone; nothing was sent.
    Dropped,
}

fn connection_error(err: &str, player_id: Option<String>) -> (r: ConnectionError)
    ensures
        r.err@ == err@,
        r.player_id == player_id,
{
    ConnectionError { err: err.to_owned(), player_id }
}

/// Both players of a new game paired with each other over `question`.
pub open spec fn paired(
    m: Map<Seq<char>, PlayerView>,
    asking: Seq<char>,
    guessing: Seq<char>,
    question: Seq<char>,
) -> Map<Seq<char>, PlayerView> {
    let m1 = m.insert(guessing, with_opponent(m[guessing], asking, question));
    m1.insert(asking, with_opponent(m1[asking], guessing, question))
}

/// The accounts after `message` was handed to player `id`'s channel, which took it
/// exactly when `taken`.
pub open spec fn handed(
    accounts: Map<Seq<char>, Seq<(MessageView, bool)>>,
    id: Seq<char>,
    message: MessageView,
    taken: bool,
) -> Map<Seq<char>, Seq<(MessageView, bool)>> {
    accounts.insert(id, accounts[id].push((message, taken)))
}

/// The identifiers of exactly the guessing players nobody has challenged, each once.
pub open spec fn lists_free_guessing(l: Seq<Seq<char>>, m: Map<Seq<char>, PlayerView>) -> bool {
    &&& forall|k: Seq<char>| l.contains(k) <==> (m.contains_key(k) && is_free_guessing(m[k]))
    &&& l.no_duplicates()
}

/// The verdict sent to an asking player on a guess.
pub open spec fn verdict(guessed: bool) -> MessageView {
    MessageView::Evaluation(EvaluationView { hint: None, guessed })
}

/// Logs a client in. On the right password (surrounding white space aside) a fresh
/// identifier is sent back, and once the channel took it the player is registered
/// under it, reachable through a second handle on the same stream. On a wrong one
/// nothing is sent and nothing changes.
pub fn handle_login<S: Streamable + Clone>(
    stream: &mut Channel<S>,
    players: &mut Players<S>,
    password: &Password,
    password_secret: &str,
) -> (r: Result<String, ConnectionError>)
    requires
        old(players).wf(),
    ensures
        final(players).wf(),
        final(stream).is_shut() == old(stream).is_shut(),
        trimmed(password@) != password_secret@ ==> {
            &&& r matches Err(e) && e.player_id is None
            &&& final(stream).sent() == old(stream).sent()
        },
        r matches Ok(id) ==> {
            &&& trimmed(password@) == password_secret@
            &&& final(stream).sent() == old(stream).sent().push((MessageView::PlayerId(id@), true))
            &&& str_bytes(id@).len() == ID_LENGTH
            &&& forall|i: int| 0 <= i < ID_LENGTH ==> is_alphanumeric(#[trigger] str_bytes(id@)[i])
            &&& final(players)@ == old(players)@.insert(id@, fresh_player(id@))
            &&& final(players).sent_to() == old(players).sent_to().insert(
                id@,
                Seq::<(MessageView, bool)>::empty(),
            )
        },
        r is Err ==> final(players)@ == old(players)@ && final(players).sent_to() == old(players).sent_to(),
        trimmed(password@) == password_secret@ ==> (r matches Err(e) ==> {
            &&& e.player_id is Some
            &&& final(stream).sent() == old(stream).sent().push(
                (MessageView::PlayerId(e.player_id->Some_0@), false),
            )
        }),
{
    if !same_text(trim_text(password.password.as_str()), password_secret) {
        return Err(connection_error("Invalid login attempt", None));
    }
    let player_id = get_random_id();
    let reply = Message::PlayerId(PlayerId { player_id: player_id.clone() });
    match stream.write(&reply) {
        Ok(()) => {
            let handle = stream.share();
            players.insert(Player::new(player_id.clone(), handle));
            Ok(player_id)
        },
        Err(e) => Err(ConnectionError { err: e.describe(), player_id: Some(player_id) }),
    }
}

/// The verdict on a guess: right exactly when it matches the question byte for byte.
pub fn evaluate_guess(question: &String, guess: &String) -> (r: Evaluation)
    ensures
        r.guessed == (question@ == guess@),
        r.hint is None,
{
    Evaluation { hint: None, guessed: *question == *guess }
}

/// Handles a riddle. From the asking player it names, it starts a game: the riddle
/// goes on to the guessing player and, once that player's channel took it, both are
/// paired over its question; a guessing player who is not logged in is reported back
/// to the sender. From anyone else it is a guess: both players' guess counters go up
/// and the asking player is sent the verdict.
pub fn handle_riddle<S: Streamable>(
    stream: &mut Channel<S>,
    players: &mut Players<S>,
    riddle: Riddle,
    player_id: &Option<String>,
) -> (r: Result<Outcome, ConnectionError>)
    requires
        old(players).wf(),
    ensures
        final(players).wf(),
        final(stream).is_shut() == old(stream).is_shut(),
        player_id is None ==> {
            &&& r is Err
            &&& final(players)@ == old(players)@
            &&& final(players).sent_to() == old(players).sent_to()
            &&& final(stream).sent() == old(stream).sent()
        },
        player_id is Some && player_id->Some_0@ == riddle.asking_player@ ==> {
            let id = player_id->Some_0;
            let m = old(players)@;
            let acc = old(players).sent_to();
            let g = riddle.guessing_player@;
            let forward = MessageView::Riddle(riddle@);
            let notice = MessageView::PlayerNotAvailable(g);
            &&& !m.contains_key(id@) ==> r is Err && final(players)@ == m && final(players).sent_to()
                == acc && final(stream).sent() == old(stream).sent()
            &&& m.contains_key(id@) && !m.contains_key(g) ==> {
                &&& final(players)@ == m
                &&& final(players).sent_to() == acc
                &&& final(stream).sent() == old(stream).sent().push((notice, r is Ok))
                &&& r is Ok ==> r == Ok::<Outcome, ConnectionError>(Outcome::Rejected)
            }
            &&& m.contains_key(id@) && m.contains_key(g) ==> {
                &&& final(stream).sent() == old(stream).sent()
                &&& r == Ok::<Outcome, ConnectionError>(Outcome::Forwarded) || r == Ok::<
                    Outcome,
                    ConnectionError,
                >(Outcome::Undelivered)
                &&& r == Ok::<Outcome, ConnectionError>(Outcome::Forwarded) ==> final(players)@
                    == paired(m, id@, g, riddle.message@) && final(players).sent_to() == handed(
                    acc,
                    g,
                    forward,
                    true,
                )
                &&& r == Ok::<Outcome, ConnectionError>(Outcome::Undelivered) ==> final(players)@
                    == m && final(players).sent_to() == handed(acc, g, forward, false)
            }
        },
        player_id is Some && player_id->Some_0@ != riddle.asking_player@ ==> {
            let id = player_id->Some_0;
            let m = old(players)@;
            let acc = old(players).sent_to();
            let a = riddle.asking_player@;
            let m1 = m.insert(id@, bumped(m[id@]));
            let m2 = m1.insert(a, bumped(m1[a]));
            &&& final(stream).sent() == old(stream).sent()
            &&& !(m.contains_key(id@) && m[id@].opponent is Some) ==> r is Err && final(players)@
                == m && final(players).sent_to() == acc
            &&& m.contains_key(id@) && m[id@].opponent is Some && !(m1.contains_key(a)
                && m1[a].opponent is Some) ==> r is Err && final(players)@ == m1 && final(players).sent_to() == acc
            &&& m.contains_key(id@) && m[id@].opponent is Some && m1.contains_key(a)
                && m1[a].opponent is Some ==> final(players)@ == m2 && match m2[a].question {
                Some(q) => {
                    let right = q == riddle.message@;
                    &&& r == Ok::<Outcome, ConnectionError>(Outcome::Evaluated(right)) || r == Ok::<
                        Outcome,
                        ConnectionError,
                    >(Outcome::Undelivered)
                    &&& final(players).sent_to() == handed(
                        acc,
                        a,
                        verdict(right),
                        r == Ok::<Outcome, ConnectionError>(Outcome::Evaluated(right)),
                    )
                },
                None => r is Err && final(players).sent_to() == acc,
            }
        },
{
    let id = match player_id {
        Some(id) => id,
        None => {
            return Err(connection_error("Received riddle from not registered player", None));
        },
    };
    if *id == riddle.asking_player {
        if !players.contains(id.as_str()) {
            return Err(connection_error("Player not registered", Some(id.clone())));
        }
        if !players.contains(riddle.guessing_player.as_str()) {
            let asking = riddle.asking_player;
            return match stream.write(&Message::PlayerNotAvailable(riddle.guessing_player)) {
                Ok(()) => Ok(Outcome::Rejected),
                Err(e) => Err(ConnectionError { err: e.describe(), player_id: Some(asking) }),
            };
        }
        let guessing = riddle.guessing_player.clone();
        let question = riddle.message.clone();
        match players.send_to(guessing.as_str(), &Message::Riddle(riddle)) {
            Some(Ok(())) => {
                players.set_opponent(guessing.as_str(), id.clone(), question.clone());
                players.set_opponent(id.as_str(), guessing, question);
                Ok(Outcome::Forwarded)
            },
            _ => Ok(Outcome::Undelivered),
        }
    } else {
        if let Err(e) = players.increase_guess_count(id.as_str()) {
            return Err(connection_error(e, Some(id.clone())));
        }
        if let Err(e) = players.increase_guess_count(riddle.asking_player.as_str()) {
            return Err(connection_error(e, Some(id.clone())));
        }
        let evaluation = match players.get(riddle.asking_player.as_str()) {
            Some(asking) => match &asking.question {
                Some(question) => evaluate_guess(question, &riddle.message),
                None => {
                    return Err(connection_error("Player is missing question", Some(id.clone())));
                },
            },
            None => {
                return Err(connection_error("Opponent not registered", Some(id.clone())));
            },
        };
        let guessed = evaluation.guessed;
        let verdict_message = Message::Evaluation(evaluation);
        assert(verdict_message@ == verdict(guessed));
        match players.send_to(riddle.asking_player.as_str(), &verdict_message) {
            Some(Ok(())) => Ok(Outcome::Evaluated(guessed)),
            _ => Ok(Outcome::Undelivered),
        }
    }
}

/// Handles a guessing player's choice of opponent: an asking player who is not yet
/// playing is sent the choice, naming the requester as its guessing player; otherwise
/// the requester is sent `PlayerNotAvailable` for that player.
pub fn handle_opponent_selected<S: Streamable>(
    stream: &mut Channel<S>,
    players: &mut Players<S>,
    opponent_selected: OpponentSelected,
    player_id: &Option<String>,
) -> (r: Result<Outcome, ConnectionError>)
    requires
        old(players).wf(),
    ensures
        final(players).wf(),
        final(players)@ == old(players)@,
        final(stream).is_shut() == old(stream).is_shut(),
        r is Err <==> player_id is None,
        r is Err ==> final(players).sent_to() == old(players).sent_to() && final(stream).sent()
            == old(stream).sent(),
        player_id is Some ==> {
            let id = player_id->Some_0;
            let a = opponent_selected.asking_player@;
            let acc = old(players).sent_to();
            let available = old(players)@.contains_key(a) && is_free_asking(old(players)@[a]);
            let choice = MessageView::OpponentSelected(
                OpponentSelectedView { guessing_player: id@, asking_player: a },
            );
            &&& !available ==> {
                &&& r == Ok::<Outcome, ConnectionError>(Outcome::Rejected)
                &&& final(players).sent_to() == acc
                &&& final(stream).sent() == old(stream).sent().push(
                    (MessageView::PlayerNotAvailable(a), final(stream).sent().last().1),
                )
            }
            &&& available ==> {
                &&& final(stream).sent() == old(stream).sent()
                &&& r == Ok::<Outcome, ConnectionError>(Outcome::Forwarded) || r == Ok::<
                    Outcome,
                    ConnectionError,
                >(Outcome::Undelivered)
                &&& final(players).sent_to() == handed(
                    acc,
                    a,
                    choice,
                    r == Ok::<Outcome, ConnectionError>(Outcome::Forwarded),
                )
            }
        },
{
    let id = match player_id {
        Some(id) => id,
        None => {
            return Err(connection_error("Unauthorized action", None));
        },
    };
    let available = match players.get(opponent_selected.asking_player.as_str()) {
        Some(p) => match (&p.role, &p.opponent) {
            (Some(Role::AskingPlayer), None) => true,
            _ => false,
        },
        None => false,
    };
    if !available {
        let _ = stream.write(&Message::PlayerNotAvailable(opponent_selected.asking_player));
        return Ok(Outcome::Rejected);
    }
    let asking = opponent_selected.asking_player;
    let choice = Message::OpponentSelected(
        OpponentSelected { guessing_player: id.clone(), asking_player: asking.clone() },
    );
    match players.send_to(asking.as_str(), &choice) {
        Some(Ok(())) => Ok(Outcome::Forwarded),
        _ => Ok(Outcome::Undelivered),
    }
}

/// Whether a session's player may send an evaluation: a logged-in asking player
/// with an opponent.
pub open spec fn may_evaluate(m: Map<Seq<char>, PlayerView>, player_id: Option<String>) -> bool {
    player_id matches Some(id) && m.contains_key(id@) && m[id@].role == Some(Role::AskingPlayer)
        && m[id@].opponent is Some
}

/// Handles an asking player's evaluation of a guess: it goes on, unchanged, to that
/// player's opponent. Only a logged-in asking player with an opponent may send one.
/// When that opponent is gone the evaluation is dropped and every pairing with it
/// is cleared, as its departure would have done.
pub fn handle_evaluation<S: Streamable>(
    players: &mut Players<S>,
    evaluation: Evaluation,
    player_id: &Option<String>,
) -> (r: Result<Outcome, ConnectionError>)
    requires
        old(players).wf(),
    ensures
        final(players).wf(),
        r is Err <==> !may_evaluate(old(players)@, *player_id),
        r is Err ==> final(players)@ == old(players)@ && final(players).sent_to() == old(players).sent_to(),
        r is Ok ==> {
            let m = old(players)@;
            let acc = old(players).sent_to();
            let o = m[player_id->Some_0@].opponent->Some_0.0;
            &&& !m.contains_key(o) ==> r == Ok::<Outcome, ConnectionError>(Outcome::Dropped)
                && final(players)@ == after_remove(m, o) && notified(
                acc,
                final(players).sent_to(),
                m,
                o,
            )
            &&& m.contains_key(o) ==> {
                &&& final(players)@ == m
                &&& r == Ok::<Outcome, ConnectionError>(Outcome::Forwarded) || r == Ok::<
                    Outcome,
                    ConnectionError,
                >(Outcome::Undelivered)
                &&& final(players).sent_to() == handed(
                    acc,
                    o,
                    MessageView::Evaluation(evaluation@),
                    r == Ok::<Outcome, ConnectionError>(Outcome::Forwarded),
                )
            }
        },
{
    let id = match player_id {
        Some(id) => id,
        None => {
            return Err(
                connection_error("Received evaluation for question from not registered player", None),
            );
        },
    };
    let opponent_id = match players.get(id.as_str()) {
        None => {
            return Err(
                connection_error("Received evaluation for question from not registered player", None),
            );
        },
        Some(player) => match (&player.role, &player.opponent) {
            (None, _) => {
                return Err(
                    connection_error("Received evaluation for question from player without role", None),
                );
            },
            (Some(Role::GuessingPlayer), _) => {
                return Err(
                    connection_error(
                        "Received evaluation for question from player without corresponding role",
                        None,
                    ),
                );
            },
            (Some(Role::AskingPlayer), None) => {
                return Err(
                    connection_error(
                        "Received evaluation for question from player without opponent",
                        None,
                    ),
                );
            },
            (Some(Role::AskingPlayer), Some(o)) => o.0.clone(),
        },
    };
    match players.send_to(opponent_id.as_str(), &Message::Evaluation(evaluation)) {
        None => {
            players.remove(opponent_id.as_str());
            Ok(Outcome::Dropped)
        },
        Some(Ok(())) => Ok(Outcome::Forwarded),
        Some(Err(_)) => Ok(Outcome::Undelivered),
    }
}

/// Sets the role of the logged-in player; re-registering overwrites. Without a login
/// it fails; for an identifier the registry does not know it fails too, and the
/// channel is shut.
pub fn handle_register_role<S: Streamable>(
    stream: &mut Channel<S>,
    players: &mut Players<S>,
    role: Role,
    player_id: &Option<String>,
) -> (r: Result<(), ConnectionError>)
    requires
        old(players).wf(),
    ensures
        final(players).wf(),
        final(players).sent_to() == old(players).sent_to(),
        final(stream).sent() == old(stream).sent(),
        r is Ok <==> (player_id matches Some(id) && old(players)@.contains_key(id@)),
        r is Ok ==> final(players)@ == old(players)@.insert(
            player_id->Some_0@,
            with_role(old(players)@[player_id->Some_0@], role),
        ) && final(stream).is_shut() == old(stream).is_shut(),
        r matches Err(e) ==> final(players)@ == old(players)@ && e.err@ == "Unauthorized action"@
            && e.player_id == *player_id,
        player_id is None ==> final(stream).is_shut() == old(stream).is_shut(),
        player_id is Some && r is Err ==> final(stream).is_shut(),
{
    let id = match player_id {
        Some(id) => id,
        None => {
            return Err(connection_error("Unauthorized action", None));
        },
    };
    if players.set_role(id.as_str(), role) {
        Ok(())
    } else {
        let _ = stream.shutdown();
        Err(connection_error("Unauthorized action", Some(id.clone())))
    }
}

/// Sends the requester the guessing players nobody has challenged yet.
pub fn handle_request_guessing_players<S: Streamable>(
    stream: &mut Channel<S>,
    players: &Players<S>,
    player_id: &Option<String>,
) -> (r: Result<(), ConnectionError>)
    requires
        players.wf(),
    ensures
        final(stream).is_shut() == old(stream).is_shut(),
        exists|l: Seq<Seq<char>>|
            #![trigger lists_free_guessing(l, players@)]
            final(stream).sent() == old(stream).sent().push((MessageView::PlayerList(l), r is Ok))
                && lists_free_guessing(l, players@),
        r matches Err(e) ==> e.player_id == *player_id,
{
    let ids = players.list_available_guessing_players();
    let ghost l = strs_view(ids@);
    proof {
        assert forall|k: Seq<char>| l.contains(k) <==> (players@.contains_key(k)
            && is_free_guessing(players@[k])) by {
            if l.contains(k) {
                let j = choose|j: int| 0 <= j < l.len() && l[j] == k;
                assert(ids@[j]@ == k);
            }
            if players@.contains_key(k) && is_free_guessing(players@[k]) {
                let j = choose|j: int| 0 <= j < ids@.len() && (#[trigger] ids@[j])@ == k;
                assert(l[j] == k);
            }
        }
        assert forall|a: int, b: int| 0 <= a < l.len() && 0 <= b < l.len() && a != b implies l[a]
            != l[b] by {
            if a < b {
                assert(ids@[a]@ != ids@[b]@);
            } else {
                assert(ids@[b]@ != ids@[a]@);
            }
        }
    }
    let player_list = PlayerList { opponent_ids: ids };
    let reply = Message::PlayerList(player_list);
    assert(reply@ == MessageView::PlayerList(l));
    match stream.write(&reply) {
        Ok(()) => {
            assert(lists_free_guessing(l, players@));
            Ok(())
        },
        Err(_) => {
            assert(lists_free_guessing(l, players@));
            Err(connection_error("Can not send player list", player_id.clone()))
        },
    }
}

/// Removes the player `player_id` from the registry, clearing every player paired
/// with it and sending each of them `PlayerNotAvailable(player_id)`.
pub fn remove_player<S: Streamable>(players: &mut Players<S>, player_id: &str)
    requires
        old(players).wf(),
    ensures
        final(players).wf(),
        final(players)@ == after_remove(old(players)@, player_id@),
        notified(old(players).sent_to(), final(players).sent_to(), old(players)@, player_id@),
{
    players.remove(player_id);
}

/// Whether a session runs on after a message.
#[derive(Debug, Clone, Copy, PartialEq, Eq, Structural)]
pub enum Flow {
    Continue,
    Quit,
}

/// The registry once a session that ends has cleaned up after its player, if any.
pub open spec fn after_session(m: Map<Seq<char>, PlayerView>, player_id: Option<String>) -> Map<
    Seq<char>,
    PlayerView,
> {
    match player_id {
        Some(id) => after_remove(m, id@),
        None => m,
    }
}

/// The accounts once a session that ends has cleaned up after its player, if any.
pub open spec fn session_notified(
    before: Map<Seq<char>, Seq<(MessageView, bool)>>,
    after: Map<Seq<char>, Seq<(MessageView, bool)>>,
    m: Map<Seq<char>, PlayerView>,
    player_id: Option<String>,
) -> bool {
    match player_id {
        Some(id) => notified(before, after, m, id@),
        None => after == before,
    }
}

/// Ends a session: its player, if one logged in, leaves the registry (its partner is
/// told), and the channel is asked to shut down.
pub fn close_session<S: Streamable>(
    stream: &mut Channel<S>,
    players: &mut Players<S>,
    player_id: &Option<String>,
)
    requires
        old(players).wf(),
    ensures
        final(players).wf(),
        final(players)@ == after_session(old(players)@, *player_id),
        session_notified(old(players).sent_to(), final(players).sent_to(), old(players)@, *player_id),
        final(stream).sent() == old(stream).sent(),
        final(stream).is_shut(),
{
    if let Some(id) = player_id {
        remove_player(players, id.as_str());
    }
    let _ = stream.shutdown();
}

/// Decides what a failed read means for a session. Nothing has arrived yet: `None`,
/// nothing happens, and the caller reads again later. Anything else ends the session,
/// cleaned up; after an unreadable frame the client is first sent `Unknown`.
pub fn handle_read_error<S: Streamable>(
    stream: &mut Channel<S>,
    players: &mut Players<S>,
    player_id: &Option<String>,
    error: MessageError,
) -> (r: Option<ConnectionError>)
    requires
        old(players).wf(),
    ensures
        final(players).wf(),
        r is None <==> error is EmptyRead,
        r is None ==> final(players)@ == old(players)@ && final(players).sent_to() == old(players).sent_to() && final(stream).sent() == old(stream).sent() && final(stream).is_shut()
            == old(stream).is_shut(),
        r matches Some(e) ==> {
            &&& e.player_id == *player_id
            &&& final(players)@ == after_session(old(players)@, *player_id)
            &&& session_notified(
                old(players).sent_to(),
                final(players).sent_to(),
                old(players)@,
                *player_id,
            )
            &&& final(stream).is_shut()
        },
        error is InvalidRead ==> final(stream).sent() == old(stream).sent().push(
            (MessageView::Unknown, final(stream).sent().last().1),
        ),
        !(error is InvalidRead) ==> final(stream).sent() == old(stream).sent(),
        error matches MessageError::BadUnpack(m) ==> (r matches Some(e) && e.err@ == m@),
{
    match error {
        MessageError::EmptyRead => None,
        MessageError::BadUnpack(e) => {
            close_session(stream, players, player_id);
            Some(connection_error(e, player_id.clone()))
        },
        MessageError::InvalidRead(_) => {
            let _ = stream.write(&Message::Unknown);
            close_session(stream, players, player_id);
            Some(connection_error("Invalid data read", player_id.clone()))
        },
        MessageError::InvalidWrite(_) => {
            close_session(stream, players, player_id);
            Some(ConnectionError { err: error.describe(), player_id: player_id.clone() })
        },
    }
}

/// Handles one message a client sent. A login sets the session's player; a departure
/// notice removes the player it names and ends the session, as a player list does;
/// an identifier, a game start or an unknown message changes nothing; a failure ends
/// the session, cleaned up and with its channel shut.
pub fn handle_message<S: Streamable + Clone>(
    stream: &mut Channel<S>,
    players: &mut Players<S>,
    player_id: &mut Option<String>,
    message: Message,
    password_secret: &str,
) -> (r: Result<Flow, ConnectionError>)
    requires
        old(players).wf(),
    ensures
        final(players).wf(),
        r is Err ==> final(stream).is_shut() && !(*final(player_id) matches Some(id) && final(players)@.contains_key(id@)),
        r is Ok ==> final(stream).is_shut() == old(stream).is_shut(),
        !(message is Password) ==> *final(player_id) == *old(player_id),
        r is Ok && !(message is PlayerNotAvailable || message is PlayerList) ==> r == Ok::<
            Flow,
            ConnectionError,
        >(Flow::Continue),
        match message {
            Message::Password(p) => {
                &&& trimmed(p@) != password_secret@ ==> r is Err && final(stream).sent() == old(stream).sent()
                &&& r is Ok ==> {
                    let id = (*final(player_id))->Some_0@;
                    &&& *final(player_id) is Some
                    &&& trimmed(p@) == password_secret@
                    &&& final(stream).sent() == old(stream).sent().push(
                        (MessageView::PlayerId(id), true),
                    )
                    &&& final(players)@ == old(players)@.insert(id, fresh_player(id))
                    &&& final(players).sent_to() == old(players).sent_to().insert(
                        id,
                        Seq::<(MessageView, bool)>::empty(),
                    )
                }
                &&& r is Err ==> final(players)@ == after_session(old(players)@, *old(player_id))
                &&& r is Err && trimmed(p@) == password_secret@ ==> {
                    &&& final(stream).sent() == old(stream).sent().push(
                        (final(stream).sent().last().0, false),
                    )
                    &&& final(stream).sent().last().0 is PlayerId
                }
            },
            Message::PlayerNotAvailable(id) => r == Ok::<Flow, ConnectionError>(Flow::Quit)
                && final(players)@ == after_remove(old(players)@, id@) && notified(
                old(players).sent_to(),
                final(players).sent_to(),
                old(players)@,
                id@,
            ) && final(stream).sent() == old(stream).sent(),
            Message::RegisterPlayerRole(role) => {
                &&& r is Ok <==> (*old(player_id) matches Some(id) && old(players)@.contains_key(id@))
                &&& final(stream).sent() == old(stream).sent()
                &&& r is Ok ==> final(players)@ == old(players)@.insert(
                    (*old(player_id))->Some_0@,
                    with_role(old(players)@[(*old(player_id))->Some_0@], role),
                ) && final(players).sent_to() == old(players).sent_to()
                &&& r is Err ==> final(players)@ == after_session(old(players)@, *old(player_id))
            },
            Message::RequestGuessingPlayers => {
                &&& exists|l: Seq<Seq<char>>|
                    #![trigger lists_free_guessing(l, old(players)@)]
                    final(stream).sent() == old(stream).sent().push(
                        (MessageView::PlayerList(l), r is Ok),
                    ) && lists_free_guessing(l, old(players)@)
                &&& r is Ok ==> final(players)@ == old(players)@ && final(players).sent_to()
                    == old(players).sent_to()
                &&& r is Err ==> final(players)@ == after_session(old(players)@, *old(player_id))
            },
            Message::OpponentSelected(_) => {
                &&& r is Ok <==> *old(player_id) is Some
                &&& r is Ok ==> final(players)@ == old(players)@
                &&& r is Err ==> final(stream).sent() == old(stream).sent() && final(players)@
                    == old(players)@ && final(players).sent_to() == old(players).sent_to()
            },
            Message::Evaluation(_) => {
                &&& r is Ok <==> may_evaluate(old(players)@, *old(player_id))
                &&& final(stream).sent() == old(stream).sent()
                &&& r is Err ==> final(players)@ == after_session(old(players)@, *old(player_id))
            },
            Message::Riddle(_) => *old(player_id) is None ==> r is Err && final(stream).sent()
                == old(stream).sent() && final(players)@ == old(players)@,
            Message::PlayerList(_) => r == Ok::<Flow, ConnectionError>(Flow::Quit)
                && final(players)@ == old(players)@ && final(players).sent_to() == old(players).sent_to() && final(stream).sent() == old(stream).sent(),
            _ => r == Ok::<Flow, ConnectionError>(Flow::Continue) && final(players)@ == old(players)@ && final(players).sent_to() == old(players).sent_to() && final(stream).sent()
                == old(stream).sent(),
        },
{
    let result: Result<Flow, ConnectionError> = match message {
        Message::Password(password) => {
            match handle_login(stream, players, &password, password_secret) {
                Ok(id) => {
                    *player_id = Some(id);
                    Ok(Flow::Continue)
                },
                Err(e) => Err(e),
            }
        },
        Message::Riddle(riddle) => match handle_riddle(stream, players, riddle, player_id) {
            Ok(_) => Ok(Flow::Continue),
            Err(e) => Err(e),
        },
        Message::Evaluation(evaluation) => match handle_evaluation(players, evaluation, player_id) {
            Ok(_) => Ok(Flow::Continue),
            Err(e) => Err(e),
        },
        Message::OpponentSelected(opponent_selected) => match handle_opponent_selected(
            stream,
            players,
            opponent_selected,
            player_id,
        ) {
            Ok(_) => Ok(Flow::Continue),
            Err(e) => Err(e),
        },
        Message::RequestGuessingPlayers => match handle_request_guessing_players(
            stream,
            players,
            player_id,
        ) {
            Ok(()) => Ok(Flow::Continue),
            Err(e) => Err(e),
        },
        Message::RegisterPlayerRole(role) => match handle_register_role(
            stream,
            players,
            role,
            player_id,
        ) {
            Ok(()) => Ok(Flow::Continue),
            Err(e) => Err(e),
        },
        Message::PlayerNotAvailable(id) => {
            remove_player(players, id.as_str());
            Ok(Flow::Quit)
        },
        Message::PlayerList(_) => Ok(Flow::Quit),
        Message::PlayerId(_) => Ok(Flow::Continue),
        Message::GameStart => Ok(Flow::Continue),
        Message::Unknown => Ok(Flow::Continue),
    };
    if result.is_err() {
        close_session(stream, players, player_id);
    }
    result
}

} // verus!
