use crate::helpers::{same_text, trim_text, trimmed};
use crate::messages::{ConnectionType, Message, PlayerId, Role};
use vstd::prelude::*;

verus! {

/// How the guessing player answered a riddle, as seen by the asking player.
#[derive(Debug, Clone, Copy, PartialEq, Eq, Structural)]
pub enum ResponseResult {
    WrongAnswer,
    Quit,
    RightAnswer,
}

/// Reads the transport a user picked: `t`, `T`, `tcp`, `Tcp` or `TCP` for TCP, `s`,
/// `S`, `Socket` or `SOCKET` for a unix socket, around white space; `None` for anything
/// else, and the user is asked again.
pub fn get_connection_type(input: &str) -> (r: Option<ConnectionType>)
    ensures
        r == Some(ConnectionType::Tcp) <==> (trimmed(input@) == "t"@ || trimmed(input@) == "T"@
            || trimmed(input@) == "tcp"@ || trimmed(input@) == "Tcp"@ || trimmed(input@)
            == "TCP"@),
        r == Some(ConnectionType::UnixSocket) <==> (trimmed(input@) == "s"@ || trimmed(input@)
            == "S"@ || trimmed(input@) == "Socket"@ || trimmed(input@) == "SOCKET"@),
{
    let t = trim_text(input);
    proof {
        reveal_strlit("t");
        reveal_strlit("T");
        reveal_strlit("tcp");
        reveal_strlit("Tcp");
        reveal_strlit("TCP");
        reveal_strlit("s");
        reveal_strlit("S");
        reveal_strlit("Socket");
        reveal_strlit("SOCKET");
        let tcp_words = seq!["t"@, "T"@, "tcp"@, "Tcp"@, "TCP"@];
        let unix_words = seq!["s"@, "S"@, "Socket"@, "SOCKET"@];
        assert forall|a: int, b: int| 0 <= a < 5 && 0 <= b < 4 implies tcp_words[a]
            != unix_words[b] by {
            assert(tcp_words[a][0] != unix_words[b][0]);
        }
    }
    if same_text(t, "t") || same_text(t, "T") || same_text(t, "tcp") || same_text(t, "Tcp")
        || same_text(t, "TCP") {
        Some(ConnectionType::Tcp)
    } else if same_text(t, "s") || same_text(t, "S") || same_text(t, "Socket") || same_text(
        t,
        "SOCKET",
    ) {
        Some(ConnectionType::UnixSocket)
    } else {
        None
    }
}

/// The role a player takes: guessing when nobody can be challenged or when the
/// answer is `g` or `G` (around white space), asking otherwise.
pub fn get_role(available_opponents: &Vec<String>, decision: &str) -> (r: Role)
    ensures
        r == Role::GuessingPlayer <==> (available_opponents@.len() == 0 || trimmed(decision@)
            == "g"@ || trimmed(decision@) == "G"@),
{
    if available_opponents.len() == 0 {
        return Role::GuessingPlayer;
    }
    let d = trim_text(decision);
    if same_text(d, "g") || same_text(d, "G") {
        Role::GuessingPlayer
    } else {
        Role::AskingPlayer
    }
}

/// A line the user typed, without surrounding white space.
pub fn user_input_text(input: &str) -> (r: String)
    ensures
        r@ == trimmed(input@),
{
    trim_text(input).to_owned()
}

/// Whether the answer asks to quit: `q`, `quit` or `Q`, around white space.
pub fn get_wants_to_quit(input: &str) -> (r: bool)
    ensures
        r == (trimmed(input@) == "q"@ || trimmed(input@) == "quit"@ || trimmed(input@) == "Q"@),
{
    let t = trim_text(input);
    same_text(t, "q") || same_text(t, "quit") || same_text(t, "Q")
}

/// The hint typed in, without surrounding white space; none when nothing is left.
pub fn get_hint(input: &str) -> (r: Option<String>)
    ensures
        r is None <==> trimmed(input@).len() == 0,
        r matches Some(h) ==> h@ == trimmed(input@),
{
    let t = trim_text(input);
    if t.is_empty() {
        None
    } else {
        Some(t.to_owned())
    }
}

/// The question typed in, without surrounding white space; `None` when nothing is
/// left, and the user is asked again.
pub fn get_question(input: &str) -> (r: Option<String>)
    ensures
        r is None <==> trimmed(input@).len() == 0,
        r matches Some(q) ==> q@ == trimmed(input@),
{
    let t = trim_text(input);
    if t.is_empty() {
        None
    } else {
        Some(t.to_owned())
    }
}

/// The opponent typed in, if (around white space) it is one of those offered;
/// `None` otherwise, and the user is asked again.
pub fn get_opponent(available_opponents: &Vec<String>, selected: &str) -> (r: Option<String>)
    ensures
        r is Some <==> exists|i: int|
            0 <= i < available_opponents@.len() && (#[trigger] available_opponents@[i])@
                == trimmed(selected@),
        r matches Some(o) ==> o@ == trimmed(selected@),
{
    let t = trim_text(selected);
    let mut i: usize = 0;
    while i < available_opponents.len()
        invariant
            i <= available_opponents@.len(),
            t@ == trimmed(selected@),
            forall|j: int| 0 <= j < i ==> available_opponents@[j]@ != t@,
        decreases available_opponents@.len() - i,
    {
        if same_text(available_opponents[i].as_str(), t) {
            return Some(available_opponents[i].clone());
        }
        i = i + 1;
    }
    None
}

/// Reads the guessing player's answer: a verdict says whether it was right, a
/// departure notice means the opponent quit, anything else is out of place.
pub fn process_response_from_guessing_player(response: &Message) -> (r: Result<ResponseResult, String>)
    ensures
        response matches Message::Evaluation(e) ==> r == Ok::<ResponseResult, String>(
            if e.guessed {
                ResponseResult::RightAnswer
            } else {
                ResponseResult::WrongAnswer
            },
        ),
        response is PlayerNotAvailable ==> r == Ok::<ResponseResult, String>(ResponseResult::Quit),
        !(response is Evaluation || response is PlayerNotAvailable) ==> r is Err,
{
    match response {
        Message::Evaluation(evaluation) => {
            if evaluation.guessed {
                Ok(ResponseResult::RightAnswer)
            } else {
                Ok(ResponseResult::WrongAnswer)
            }
        },
        Message::PlayerNotAvailable(_) => Ok(ResponseResult::Quit),
        _ => Err("Received message not within role".to_owned()),
    }
}

/// Reads the server's answer to a login: the identifier it handed out, or an error.
pub fn login_reply(message: Message) -> (r: Result<PlayerId, String>)
    ensures
        message matches Message::PlayerId(p) ==> (r matches Ok(q) && q@ == p@),
        !(message is PlayerId) ==> r is Err,
{
    match message {
        Message::PlayerId(player) => Ok(player),
        _ => Err("Server Error. Invalid type returned".to_owned()),
    }
}

/// Where a guessing player stands: how many guesses it sent, and who asked.
#[derive(Debug)]
pub struct GuessingState {
    pub guess_count: usize,
    pub asking_player_id: Option<String>,
}

/// What a guessing player does next.
#[derive(Debug)]
pub enum GuessingAction {
    /// The asking player left before the game ended.
    OpponentLeft(String),
    /// The last guess was right.
    Won,
    /// Something arrived out of place.
    Fail(String),
    /// Show the hint if any and, when asked to, offer to quit; then send a guess.
    Guess { hint: Option<String>, offer_quit: bool },
    /// Nothing more to do.
    Stop,
}

impl GuessingState {
    /// A guessing player waiting for its riddle.
    pub fn new() -> (r: GuessingState)
        ensures
            r.guess_count == 0,
            r.asking_player_id is None,
    {
        GuessingState { guess_count: 0, asking_player_id: None }
    }

    /// Decides what a message means for a guessing player. A riddle, the first time,
    /// names the asking player and calls for a guess; a wrong verdict calls for another
    /// guess, once the player declined to quit; a guess to be sent is counted here.
    pub fn step(&mut self, message: Message) -> (r: GuessingAction)
        ensures
            match message {
                Message::PlayerNotAvailable(id) => (r matches GuessingAction::OpponentLeft(i)
                    && i@ == id@) && *final(self) == *old(self),
                Message::Riddle(riddle) => if old(self).guess_count > 0 {
                    r is Fail && *final(self) == *old(self)
                } else {
                    &&& r matches GuessingAction::Guess { hint, offer_quit }
                    &&& !offer_quit
                    &&& final(self).guess_count == 1
                    &&& final(self).asking_player_id matches Some(a)
                    &&& a@ == riddle.asking_player@
                },
                Message::Evaluation(e) => if old(self).guess_count == 0
                    || old(self).asking_player_id is None {
                    r is Fail && *final(self) == *old(self)
                } else if e.guessed {
                    r is Won && *final(self) == *old(self)
                } else {
                    &&& r matches GuessingAction::Guess { hint, offer_quit }
                    &&& offer_quit
                    &&& final(self).guess_count == if old(self).guess_count < usize::MAX {
                        old(self).guess_count + 1
                    } else {
                        old(self).guess_count as int
                    }
                    &&& final(self).asking_player_id == old(self).asking_player_id
                },
                _ => r is Stop && *final(self) == *old(self),
            },
    {
        match message {
            Message::PlayerNotAvailable(id) => GuessingAction::OpponentLeft(id),
            Message::Evaluation(evaluation) => {
                if self.guess_count == 0 || self.asking_player_id.is_none() {
                    return GuessingAction::Fail("Received evaluation before guess".to_owned());
                }
                if evaluation.guessed {
                    return GuessingAction::Won;
                }
                if self.guess_count < usize::MAX {
                    self.guess_count = self.guess_count + 1;
                }
                GuessingAction::Guess { hint: evaluation.hint, offer_quit: true }
            },
            Message::Riddle(riddle) => {
                if self.guess_count > 0 {
                    return GuessingAction::Fail("Received riddle for second time".to_owned());
                }
                self.asking_player_id = Some(riddle.asking_player);
                self.guess_count = 1;
                GuessingAction::Guess { hint: riddle.hint, offer_quit: false }
            },
            _ => GuessingAction::Stop,
        }
    }
}

} // verus!
