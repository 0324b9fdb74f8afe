use crate::constants::{message_prefix, HEADERS_LEN, ID_LENGTH, PREFIX_FIRST, PREFIX_SECOND};
use crate::helpers::{append_bytes, get_string_slice_length, merge_u8, split_u16, string_from_utf8};
use crate::message_error::MessageError;
use crate::messages::{
    strs_view, Evaluation, EvaluationView, Message, OpponentSelected, OpponentSelectedView,
    Password, PlayerId, PlayerList, Riddle, RiddleView, Role,
};
use crate::wire::{
    encode_frame, evaluation_body, fits_u8, ids_bytes, list_id_bytes, opponent_selected_body,
    opt_chars, packable, parse_evaluation, parse_frame, parse_id_at, parse_opponent_selected,
    parse_payload, parse_player_list, parse_riddle, parse_utf8, player_list_body, riddle_body,
    str_bytes,
};
use vstd::prelude::*;
use vstd::utf8::{decode_utf8, valid_utf8};

verus! {

/// A message body that can be written to bytes and read back from them.
pub trait Packable: View + Sized {
    /// Whether every length of the value fits the field it is written in.
    spec fn spec_packable(v: Self::V) -> bool;

    /// The bytes a value is written as.
    spec fn spec_pack(v: Self::V) -> Seq<u8>;

    /// The value that bytes are read as, if they are well formed.
    spec fn spec_unpack(b: Seq<u8>) -> Option<Self::V>;

    fn pack(&self) -> (r: Vec<u8>)
        requires
            Self::spec_packable(self@),
        ensures
            r@ == Self::spec_pack(self@),
    ;

    fn unpack(&mut self, msg_bytes: &[u8]) -> (r: Result<(), MessageError>)
        ensures
            r is Ok <==> Self::spec_unpack(msg_bytes@) is Some,
            r is Ok ==> Self::spec_unpack(msg_bytes@) == Some(final(self)@),
            r matches Err(e) ==> e is BadUnpack,
    ;
}

/// Appends the UTF-8 bytes of `s` to `out`.
pub fn append_str(out: &mut Vec<u8>, s: &String)
    ensures
        final(out)@ == old(out)@ + str_bytes(s@),
{
    append_bytes(out, s.as_str().as_bytes());
}

/// Reads the identifier at `off`, as `parse_id_at` says.
fn read_id(msg_bytes: &[u8], off: usize) -> (r: Option<String>)
    ensures
        r is Some <==> parse_id_at(msg_bytes@, off as int) is Some,
        r matches Some(s) ==> parse_id_at(msg_bytes@, off as int) == Some(s@),
{
    if off <= msg_bytes.len() && ID_LENGTH <= msg_bytes.len() - off {
        string_from_utf8(&msg_bytes[off..off + ID_LENGTH])
    } else {
        None
    }
}

impl Default for Evaluation {
    fn default() -> (r: Evaluation)
        ensures
            r@ == (EvaluationView { hint: None, guessed: false }),
    {
        Evaluation { hint: None, guessed: false }
    }
}

impl Default for OpponentSelected {
    fn default() -> (r: OpponentSelected)
        ensures
            r@ == (OpponentSelectedView {
                guessing_player: Seq::empty(),
                asking_player: Seq::empty(),
            }),
    {
        OpponentSelected { guessing_player: String::new(), asking_player: String::new() }
    }
}

impl Default for Password {
    fn default() -> (r: Password)
        ensures
            r@ == Seq::<char>::empty(),
    {
        Password { password: String::new() }
    }
}

impl Default for PlayerId {
    fn default() -> (r: PlayerId)
        ensures
            r@ == Seq::<char>::empty(),
    {
        PlayerId { player_id: String::new() }
    }
}

impl Packable for Evaluation {
    open spec fn spec_packable(v: EvaluationView) -> bool {
        true
    }

    open spec fn spec_pack(v: EvaluationView) -> Seq<u8> {
        evaluation_body(v)
    }

    open spec fn spec_unpack(b: Seq<u8>) -> Option<EvaluationView> {
        parse_evaluation(b)
    }

    fn pack(&self) -> (r: Vec<u8>) {
        let mut packed: Vec<u8> = Vec::new();
        packed.push(if self.guessed { 1u8 } else { 0u8 });
        if let Some(hint) = &self.hint {
            append_str(&mut packed, hint);
        }
        packed
    }

    fn unpack(&mut self, msg_bytes: &[u8]) -> (r: Result<(), MessageError>) {
        if msg_bytes.len() == 0 {
            return Err(MessageError::BadUnpack("Invalid message format: data missing"));
        }
        let guessed = msg_bytes[0] != 0;
        if msg_bytes.len() == 1 {
            self.guessed = guessed;
            self.hint = None;
            return Ok(());
        }
        match string_from_utf8(&msg_bytes[1..msg_bytes.len()]) {
            Some(hint) => {
                self.guessed = guessed;
                self.hint = Some(hint);
                Ok(())
            },
            None => Err(MessageError::BadUnpack("Invalid hint bytes")),
        }
    }
}

impl Packable for OpponentSelected {
    open spec fn spec_packable(v: OpponentSelectedView) -> bool {
        true
    }

    open spec fn spec_pack(v: OpponentSelectedView) -> Seq<u8> {
        opponent_selected_body(v)
    }

    open spec fn spec_unpack(b: Seq<u8>) -> Option<OpponentSelectedView> {
        parse_opponent_selected(b)
    }

    fn pack(&self) -> (r: Vec<u8>) {
        let mut packed: Vec<u8> = Vec::new();
        append_str(&mut packed, &self.guessing_player);
        append_str(&mut packed, &self.asking_player);
        packed
    }

    fn unpack(&mut self, msg_bytes: &[u8]) -> (r: Result<(), MessageError>) {
        let guessing_player = match read_id(msg_bytes, 0) {
            Some(s) => s,
            None => return Err(MessageError::BadUnpack("Invalid player ID")),
        };
        let asking_player = match read_id(msg_bytes, ID_LENGTH) {
            Some(s) => s,
            None => return Err(MessageError::BadUnpack("Invalid opponent ID")),
        };
        self.guessing_player = guessing_player;
        self.asking_player = asking_player;
        Ok(())
    }
}

impl Packable for Password {
    open spec fn spec_packable(v: Seq<char>) -> bool {
        true
    }

    open spec fn spec_pack(v: Seq<char>) -> Seq<u8> {
        str_bytes(v)
    }

    open spec fn spec_unpack(b: Seq<u8>) -> Option<Seq<char>> {
        parse_utf8(b)
    }

    fn pack(&self) -> (r: Vec<u8>) {
        let mut packed: Vec<u8> = Vec::new();
        append_str(&mut packed, &self.password);
        packed
    }

    fn unpack(&mut self, msg_bytes: &[u8]) -> (r: Result<(), MessageError>) {
        match string_from_utf8(msg_bytes) {
            Some(s) => {
                self.password = s;
                Ok(())
            },
            None => Err(MessageError::BadUnpack("Invalid UTF-8 sequence in password")),
        }
    }
}

impl Packable for PlayerId {
    open spec fn spec_packable(v: Seq<char>) -> bool {
        true
    }

    open spec fn spec_pack(v: Seq<char>) -> Seq<u8> {
        str_bytes(v)
    }

    open spec fn spec_unpack(b: Seq<u8>) -> Option<Seq<char>> {
        parse_id_at(b, 0)
    }

    fn pack(&self) -> (r: Vec<u8>) {
        let mut packed: Vec<u8> = Vec::new();
        append_str(&mut packed, &self.player_id);
        packed
    }

    fn unpack(&mut self, msg_bytes: &[u8]) -> (r: Result<(), MessageError>) {
        match read_id(msg_bytes, 0) {
            Some(s) => {
                self.player_id = s;
                Ok(())
            },
            None => Err(MessageError::BadUnpack("Invalid message format: player ID missing")),
        }
    }
}

impl Default for PlayerList {
    fn default() -> (r: PlayerList)
        ensures
            r@ == Seq::<Seq<char>>::empty(),
    {
        PlayerList { opponent_ids: Vec::new() }
    }
}

impl Default for Riddle {
    fn default() -> (r: Riddle)
        ensures
            r@ == (RiddleView {
                sender: Seq::empty(),
                asking_player: Seq::empty(),
                guessing_player: Seq::empty(),
                message: Seq::empty(),
                hint: None,
            }),
    {
        Riddle {
            sender: String::new(),
            asking_player: String::new(),
            guessing_player: String::new(),
            message: String::new(),
            hint: None,
        }
    }
}

impl Packable for PlayerList {
    open spec fn spec_packable(v: Seq<Seq<char>>) -> bool {
        v.len() <= 255
    }

    open spec fn spec_pack(v: Seq<Seq<char>>) -> Seq<u8> {
        player_list_body(v)
    }

    open spec fn spec_unpack(b: Seq<u8>) -> Option<Seq<Seq<char>>> {
        parse_player_list(b)
    }

    fn pack(&self) -> (r: Vec<u8>) {
        let mut packed: Vec<u8> = Vec::new();
        packed.push(self.opponent_ids.len() as u8);
        let mut i: usize = 0;
        while i < self.opponent_ids.len()
            invariant
                i <= self.opponent_ids@.len(),
                packed@ == seq![self@.len() as u8] + ids_bytes(self@.subrange(0, i as int)),
            decreases self.opponent_ids@.len() - i,
        {
            append_str(&mut packed, &self.opponent_ids[i]);
            i = i + 1;
            assert(self@.subrange(0, i as int).drop_last() == self@.subrange(0, i - 1));
        }
        assert(self@.subrange(0, i as int) == self@);
        packed
    }

    fn unpack(&mut self, msg_bytes: &[u8]) -> (r: Result<(), MessageError>) {
        if msg_bytes.len() == 0 {
            return Err(MessageError::BadUnpack("Invalid message format: opponent count missing"));
        }
        let count = msg_bytes[0] as usize;
        if msg_bytes.len() < 1 + count * ID_LENGTH {
            return Err(MessageError::BadUnpack("Invalid message format: ID missing"));
        }
        let mut ids: Vec<String> = Vec::new();
        let mut i: usize = 0;
        while i < count
            invariant
                count == msg_bytes@[0] as int,
                msg_bytes@.len() >= 1 + count * ID_LENGTH,
                i <= count,
                ids@.len() == i,
                forall|j: int|
                    0 <= j < i ==> valid_utf8(#[trigger] list_id_bytes(msg_bytes@, j)) && ids@[j]@
                        == decode_utf8(list_id_bytes(msg_bytes@, j)),
            decreases count - i,
        {
            let off = 1 + i * ID_LENGTH;
            match string_from_utf8(&msg_bytes[off..off + ID_LENGTH]) {
                Some(s) => {
                    ids.push(s);
                },
                None => {
                    assert(!valid_utf8(list_id_bytes(msg_bytes@, i as int)));
                    return Err(MessageError::BadUnpack("Invalid UTF-8 sequence in opponent ID"));
                },
            }
            i = i + 1;
        }
        self.opponent_ids = ids;
        assert(self@ == Seq::new(
            count as nat,
            |j: int| decode_utf8(list_id_bytes(msg_bytes@, j)),
        ));
        Ok(())
    }
}

impl Packable for Riddle {
    open spec fn spec_packable(v: RiddleView) -> bool {
        fits_u8(v.message) && fits_u8(opt_chars(v.hint))
    }

    open spec fn spec_pack(v: RiddleView) -> Seq<u8> {
        riddle_body(v)
    }

    open spec fn spec_unpack(b: Seq<u8>) -> Option<RiddleView> {
        parse_riddle(b)
    }

    fn pack(&self) -> (r: Vec<u8>) {
        let question_length = get_string_slice_length(self.message.as_str());
        let hint_length: u8 = match &self.hint {
            Some(h) => get_string_slice_length(h.as_str()),
            None => 0,
        };
        let mut packed: Vec<u8> = Vec::new();
        append_str(&mut packed, &self.sender);
        append_str(&mut packed, &self.asking_player);
        append_str(&mut packed, &self.guessing_player);
        packed.push(question_length);
        append_str(&mut packed, &self.message);
        packed.push(hint_length);
        if let Some(h) = &self.hint {
            append_str(&mut packed, h);
        }
        packed
    }

    fn unpack(&mut self, msg_bytes: &[u8]) -> (r: Result<(), MessageError>) {
        let ghost b = msg_bytes@;
        let sender = match read_id(msg_bytes, 0) {
            Some(s) => s,
            None => return Err(MessageError::BadUnpack("Invalid message format: sender id missing")),
        };
        let asking_player = match read_id(msg_bytes, ID_LENGTH) {
            Some(s) => s,
            None => return Err(
                MessageError::BadUnpack("Invalid message format: asking player id missing"),
            ),
        };
        let guessing_player = match read_id(msg_bytes, 2 * ID_LENGTH) {
            Some(s) => s,
            None => return Err(
                MessageError::BadUnpack("Invalid message format: guessing player id missing"),
            ),
        };
        let qstart = 3 * ID_LENGTH + 1;
        if msg_bytes.len() < qstart {
            return Err(MessageError::BadUnpack("Invalid message format: message length missing"));
        }
        let qend = qstart + msg_bytes[3 * ID_LENGTH] as usize;
        if msg_bytes.len() < qend {
            return Err(MessageError::BadUnpack("Invalid message format: message missing"));
        }
        if msg_bytes.len() < qend + 1 {
            return Err(MessageError::BadUnpack("Invalid message format: hint length missing"));
        }
        let message = match string_from_utf8(&msg_bytes[qstart..qend]) {
            Some(s) => s,
            None => return Err(MessageError::BadUnpack("Invalid UTF-8 sequence in message")),
        };
        let hint_length = msg_bytes[qend] as usize;
        let hint = if hint_length == 0 {
            None
        } else {
            let hstart = qend + 1;
            if msg_bytes.len() - hstart < hint_length {
                return Err(MessageError::BadUnpack("Invalid message format: hint missing"));
            }
            match string_from_utf8(&msg_bytes[hstart..hstart + hint_length]) {
                Some(h) => Some(h),
                None => return Err(MessageError::BadUnpack("Invalid UTF-8 sequence in hint")),
            }
        };
        self.sender = sender;
        self.asking_player = asking_player;
        self.guessing_player = guessing_player;
        self.message = message;
        self.hint = hint;
        Ok(())
    }
}

/// Writes the frame headers for a body of `body_len` bytes sent with `tag`.
fn push_headers(out: &mut Vec<u8>, body_len: usize, tag: u8)
    requires
        body_len < 0xFFFF,
    ensures
        final(out)@ == old(out)@ + message_prefix() + seq![
            ((body_len + 1) / 256) as u8,
            ((body_len + 1) % 256) as u8,
            tag,
        ],
{
    let (high, low) = split_u16((body_len + 1) as u16);
    out.push(PREFIX_FIRST);
    out.push(PREFIX_SECOND);
    out.push(high);
    out.push(low);
    out.push(tag);
}

/// Writes a whole frame for `tag` and `body`.
fn frame(tag: u8, body: Vec<u8>) -> (r: Vec<u8>)
    requires
        body@.len() < 0xFFFF,
    ensures
        r@ == message_prefix() + seq![
            ((body@.len() + 1) / 256) as u8,
            ((body@.len() + 1) % 256) as u8,
            tag,
        ] + body@,
{
    let mut result: Vec<u8> = Vec::new();
    push_headers(&mut result, body.len(), tag);
    append_bytes(&mut result, body.as_slice());
    result
}

/// Encodes a message as one frame.
pub fn pack(message: &Message) -> (r: Vec<u8>)
    requires
        packable(message@),
    ensures
        r@ == encode_frame(message@),
{
    match message {
        Message::Riddle(riddle) => frame(0, riddle.pack()),
        Message::Evaluation(evaluation) => frame(1, evaluation.pack()),
        Message::OpponentSelected(opponent_selected) => frame(2, opponent_selected.pack()),
        Message::Password(password) => frame(3, password.pack()),
        Message::PlayerList(player_list) => frame(4, player_list.pack()),
        Message::PlayerNotAvailable(id) => {
            let mut body: Vec<u8> = Vec::new();
            append_str(&mut body, id);
            frame(5, body)
        },
        Message::RegisterPlayerRole(role) => {
            let role_id: u8 = match role {
                Role::AskingPlayer => 1,
                Role::GuessingPlayer => 0,
            };
            let mut body: Vec<u8> = Vec::new();
            body.push(role_id);
            frame(6, body)
        },
        Message::PlayerId(player_id) => frame(7, player_id.pack()),
        Message::RequestGuessingPlayers => frame(8, Vec::new()),
        Message::GameStart => frame(9, Vec::new()),
        Message::Unknown => frame(10, Vec::new()),
    }
}

/// Adds `n` to a running body length, or gives `None` once the sum reaches the frame limit.
fn add_len(total: usize, n: usize) -> (r: Option<usize>)
    requires
        total < 0xFFFF,
    ensures
        r is Some <==> total + n < 0xFFFF,
        r matches Some(t) ==> t == total + n,
{
    if n < 0xFFFF - total {
        Some(total + n)
    } else {
        None
    }
}

/// Byte length of the identifiers of a list, or `None` once it reaches the frame limit.
fn ids_len(ids: &Vec<String>) -> (r: Option<usize>)
    ensures
        r is Some <==> ids_bytes(strs_view(ids@)).len() < 0xFFFF,
        r matches Some(t) ==> t == ids_bytes(strs_view(ids@)).len(),
{
    let mut total: usize = 0;
    let mut i: usize = 0;
    while i < ids.len()
        invariant
            i <= ids@.len(),
            total == ids_bytes(strs_view(ids@).subrange(0, i as int)).len(),
            total < 0xFFFF,
        decreases ids@.len() - i,
    {
        let ghost prev = strs_view(ids@).subrange(0, i as int);
        let ghost next = strs_view(ids@).subrange(0, i + 1);
        assert(next.drop_last() == prev);
        assert(next.last() == ids@[i as int]@);
        match add_len(total, ids[i].as_str().as_bytes().len()) {
            Some(t) => total = t,
            None => {
                proof { lemma_ids_bytes_len_mono(strs_view(ids@), i + 1); }
                return None;
            },
        }
        i = i + 1;
    }
    assert(strs_view(ids@).subrange(0, i as int) == strs_view(ids@));
    Some(total)
}

/// The identifier bytes of a prefix of a list are no longer than those of the whole list.
proof fn lemma_ids_bytes_len_mono(ids: Seq<Seq<char>>, k: int)
    requires
        0 <= k <= ids.len(),
    ensures
        ids_bytes(ids.subrange(0, k)).len() <= ids_bytes(ids).len(),
    decreases ids.len() - k,
{
    if k < ids.len() {
        lemma_ids_bytes_len_mono(ids, k + 1);
        assert(ids.subrange(0, k + 1).drop_last() == ids.subrange(0, k));
    }
    else {
        assert(ids.subrange(0, k) == ids);
    }
}

/// Whether `pack` accepts the message.
pub fn is_packable(message: &Message) -> (r: bool)
    ensures
        r == packable(message@),
{
    let body_len: Option<usize> = match message {
        Message::Riddle(riddle) => {
            let question = riddle.message.as_str().as_bytes().len();
            let hint: usize = match &riddle.hint {
                Some(h) => h.as_str().as_bytes().len(),
                None => 0,
            };
            if question > 255 || hint > 255 {
                return false;
            }
            let t = add_len(2 + question + hint, riddle.sender.as_str().as_bytes().len());
            let t = match t {
                Some(t) => add_len(t, riddle.asking_player.as_str().as_bytes().len()),
                None => None,
            };
            match t {
                Some(t) => add_len(t, riddle.guessing_player.as_str().as_bytes().len()),
                None => None,
            }
        },
        Message::Evaluation(evaluation) => match &evaluation.hint {
            Some(h) => add_len(1, h.as_str().as_bytes().len()),
            None => Some(1),
        },
        Message::OpponentSelected(o) => match add_len(0, o.guessing_player.as_str().as_bytes().len()) {
            Some(t) => add_len(t, o.asking_player.as_str().as_bytes().len()),
            None => None,
        },
        Message::Password(p) => add_len(0, p.password.as_str().as_bytes().len()),
        Message::PlayerList(l) => {
            if l.opponent_ids.len() > 255 {
                return false;
            }
            match ids_len(&l.opponent_ids) {
                Some(t) => add_len(1, t),
                None => None,
            }
        },
        Message::PlayerNotAvailable(id) => add_len(0, id.as_str().as_bytes().len()),
        Message::RegisterPlayerRole(_) => Some(1),
        Message::PlayerId(p) => add_len(0, p.player_id.as_str().as_bytes().len()),
        _ => Some(0),
    };
    body_len.is_some()
}

/// Decodes a type tag and the body after it; a tag that no message has gives `Unknown`.
pub fn unpack_without_headers(message: &[u8]) -> (r: Result<Message, MessageError>)
    ensures
        r is Ok <==> parse_payload(message@) is Some,
        r matches Ok(m) ==> parse_payload(message@) == Some(m@),
        r matches Err(e) ==> e is BadUnpack,
{
    if message.len() == 0 {
        return Err(MessageError::BadUnpack("Invalid message format: type missing"));
    }
    let body = &message[1..message.len()];
    assert(body@ == message@.subrange(1, message@.len() as int));
    match message[0] {
        0 => {
            let mut riddle = Riddle::default();
            riddle.unpack(body)?;
            Ok(Message::Riddle(riddle))
        },
        1 => {
            let mut evaluation = Evaluation::default();
            evaluation.unpack(body)?;
            Ok(Message::Evaluation(evaluation))
        },
        2 => {
            let mut opponent = OpponentSelected::default();
            opponent.unpack(body)?;
            Ok(Message::OpponentSelected(opponent))
        },
        3 => {
            let mut password = Password::default();
            password.unpack(body)?;
            Ok(Message::Password(password))
        },
        4 => {
            let mut player_list = PlayerList::default();
            player_list.unpack(body)?;
            Ok(Message::PlayerList(player_list))
        },
        5 => match string_from_utf8(body) {
            Some(id) => Ok(Message::PlayerNotAvailable(id)),
            None => Err(MessageError::BadUnpack("Could not convert bytes to disconnected player id")),
        },
        6 => {
            if body.len() == 0 {
                return Err(MessageError::BadUnpack("Invalid message format: role missing"));
            }
            if body[0] == 0 {
                Ok(Message::RegisterPlayerRole(Role::GuessingPlayer))
            } else {
                Ok(Message::RegisterPlayerRole(Role::AskingPlayer))
            }
        },
        7 => {
            let mut player_id = PlayerId::default();
            player_id.unpack(body)?;
            Ok(Message::PlayerId(player_id))
        },
        8 => Ok(Message::RequestGuessingPlayers),
        9 => Ok(Message::GameStart),
        _ => Ok(Message::Unknown),
    }
}

/// Decodes a whole frame: checks the prefix and the declared length, then the payload.
pub fn unpack(message: &[u8]) -> (r: Result<Message, MessageError>)
    ensures
        r is Ok <==> parse_frame(message@) is Some,
        r matches Ok(m) ==> parse_frame(message@) == Some(m@),
        r matches Err(e) ==> e is BadUnpack,
{
    if message.len() < HEADERS_LEN || message[0] != PREFIX_FIRST || message[1] != PREFIX_SECOND {
        return Err(MessageError::BadUnpack("Invalid frame: prefix missing"));
    }
    let declared = merge_u8(message[2], message[3]) as usize;
    if message.len() - HEADERS_LEN != declared {
        return Err(MessageError::BadUnpack("Invalid frame: length does not match"));
    }
    unpack_without_headers(&message[HEADERS_LEN..message.len()])
}

} // verus!
