use vstd::prelude::*;

verus! {

/// Which kind of socket a connection runs over.
#[derive(Clone, Copy, Debug, PartialEq, Eq, Structural)]
pub enum ConnectionType {
    UnixSocket,
    Tcp,
}

/// The part a player takes in a game.
#[derive(Clone, Copy, Debug, PartialEq, Eq, Structural)]
pub enum Role {
    AskingPlayer,
    GuessingPlayer,
}

/// A riddle sent by an asking player, or a guess sent back in the same shape.
#[derive(Debug)]
pub struct Riddle {
    pub sender: String,
    pub asking_player: String,
    pub guessing_player: String,
    pub message: String,
    pub hint: Option<String>,
}

/// The asking player's verdict on a guess.
#[derive(Debug)]
pub struct Evaluation {
    pub hint: Option<String>,
    pub guessed: bool,
}

/// A guessing player's choice of the asking player to play against.
#[derive(Debug)]
pub struct OpponentSelected {
    pub guessing_player: String,
    pub asking_player: String,
}

/// The shared secret a client logs in with.
#[derive(Debug)]
pub struct Password {
    pub password: String,
}

/// The identifier the server hands out at login.
#[derive(Debug)]
pub struct PlayerId {
    pub player_id: String,
}

/// Identifiers of the guessing players that are free to be challenged.
#[derive(Debug)]
pub struct PlayerList {
    pub opponent_ids: Vec<String>,
}

/// Every message that travels between a client and the server.
#[derive(Debug)]
pub enum Message {
    Riddle(Riddle),
    Evaluation(Evaluation),
    OpponentSelected(OpponentSelected),
    Password(Password),
    PlayerList(PlayerList),
    PlayerNotAvailable(String),
    RegisterPlayerRole(Role),
    RequestGuessingPlayers,
    PlayerId(PlayerId),
    Unknown,
    GameStart,
}

/// Mathematical model of a `Riddle`.
pub struct RiddleView {
    pub sender: Seq<char>,
    pub asking_player: Seq<char>,
    pub guessing_player: Seq<char>,
    pub message: Seq<char>,
    pub hint: Option<Seq<char>>,
}

/// Mathematical model of an `Evaluation`.
pub struct EvaluationView {
    pub hint: Option<Seq<char>>,
    pub guessed: bool,
}

/// Mathematical model of an `OpponentSelected`.
pub struct OpponentSelectedView {
    pub guessing_player: Seq<char>,
    pub asking_player: Seq<char>,
}

/// Mathematical model of a `Message`.
pub enum MessageView {
    Riddle(RiddleView),
    Evaluation(EvaluationView),
    OpponentSelected(OpponentSelectedView),
    Password(Seq<char>),
    PlayerList(Seq<Seq<char>>),
    PlayerNotAvailable(Seq<char>),
    RegisterPlayerRole(Role),
    RequestGuessingPlayers,
    PlayerId(Seq<char>),
    Unknown,
    GameStart,
}

/// The characters of an optional string.
pub open spec fn opt_str_view(o: Option<String>) -> Option<Seq<char>> {
    match o {
        Some(s) => Some(s@),
        None => None,
    }
}

/// The characters of each string of a list.
pub open spec fn strs_view(v: Seq<String>) -> Seq<Seq<char>> {
    v.map_values(|s: String| s@)
}

impl View for Riddle {
    type V = RiddleView;

    open spec fn view(&self) -> RiddleView {
        RiddleView {
            sender: self.sender@,
            asking_player: self.asking_player@,
            guessing_player: self.guessing_player@,
            message: self.message@,
            hint: opt_str_view(self.hint),
        }
    }
}

impl View for Evaluation {
    type V = EvaluationView;

    open spec fn view(&self) -> EvaluationView {
        EvaluationView { hint: opt_str_view(self.hint), guessed: self.guessed }
    }
}

impl View for OpponentSelected {
    type V = OpponentSelectedView;

    open spec fn view(&self) -> OpponentSelectedView {
        OpponentSelectedView {
            guessing_player: self.guessing_player@,
            asking_player: self.asking_player@,
        }
    }
}

impl View for Password {
    type V = Seq<char>;

    open spec fn view(&self) -> Seq<char> {
        self.password@
    }
}

impl View for PlayerId {
    type V = Seq<char>;

    open spec fn view(&self) -> Seq<char> {
        self.player_id@
    }
}

impl View for PlayerList {
    type V = Seq<Seq<char>>;

    open spec fn view(&self) -> Seq<Seq<char>> {
        strs_view(self.opponent_ids@)
    }
}

impl View for Message {
    type V = MessageView;

    open spec fn view(&self) -> MessageView {
        match self {
            Message::Riddle(r) => MessageView::Riddle(r@),
            Message::Evaluation(e) => MessageView::Evaluation(e@),
            Message::OpponentSelected(o) => MessageView::OpponentSelected(o@),
            Message::Password(p) => MessageView::Password(p@),
            Message::PlayerList(l) => MessageView::PlayerList(l@),
            Message::PlayerNotAvailable(id) => MessageView::PlayerNotAvailable(id@),
            Message::RegisterPlayerRole(role) => MessageView::RegisterPlayerRole(*role),
            Message::RequestGuessingPlayers => MessageView::RequestGuessingPlayers,
            Message::PlayerId(p) => MessageView::PlayerId(p@),
            Message::Unknown => MessageView::Unknown,
            Message::GameStart => MessageView::GameStart,
        }
    }
}

} // verus!
