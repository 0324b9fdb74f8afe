use crate::constants::{message_prefix, HEADERS_LEN, ID_LENGTH};
use crate::messages::{EvaluationView, MessageView, OpponentSelectedView, RiddleView, Role};
use vstd::prelude::*;
use vstd::utf8::{decode_utf8, encode_utf8, valid_utf8};

verus! {

/// The UTF-8 bytes of a string.
pub open spec fn str_bytes(s: Seq<char>) -> Seq<u8> {
    encode_utf8(s)
}

/// The string that a byte sequence holds, if it is valid UTF-8.
pub open spec fn parse_utf8(b: Seq<u8>) -> Option<Seq<char>> {
    if valid_utf8(b) {
        Some(decode_utf8(b))
    } else {
        None
    }
}

/// A string that fills an identifier field exactly.
pub open spec fn is_id(s: Seq<char>) -> bool {
    str_bytes(s).len() == ID_LENGTH
}

/// A string that fits behind a one-byte length prefix.
pub open spec fn fits_u8(s: Seq<char>) -> bool {
    str_bytes(s).len() <= 255
}

/// The bytes of an optional string; nothing when absent.
pub open spec fn opt_bytes(h: Option<Seq<char>>) -> Seq<u8> {
    match h {
        Some(s) => str_bytes(s),
        None => Seq::empty(),
    }
}

/// The byte that stands for a role.
pub open spec fn role_byte(r: Role) -> u8 {
    match r {
        Role::AskingPlayer => 1,
        Role::GuessingPlayer => 0,
    }
}

/// The byte that stands for a boolean.
pub open spec fn bool_byte(b: bool) -> u8 {
    if b {
        1
    } else {
        0
    }
}

/// The type tag that a message is sent with.
pub open spec fn tag_of(m: MessageView) -> u8 {
    match m {
        MessageView::Riddle(_) => 0,
        MessageView::Evaluation(_) => 1,
        MessageView::OpponentSelected(_) => 2,
        MessageView::Password(_) => 3,
        MessageView::PlayerList(_) => 4,
        MessageView::PlayerNotAvailable(_) => 5,
        MessageView::RegisterPlayerRole(_) => 6,
        MessageView::PlayerId(_) => 7,
        MessageView::RequestGuessingPlayers => 8,
        MessageView::GameStart => 9,
        MessageView::Unknown => 10,
    }
}

/// The identifiers of a list, one after the other.
pub open spec fn ids_bytes(ids: Seq<Seq<char>>) -> Seq<u8>
    decreases ids.len(),
{
    if ids.len() == 0 {
        Seq::empty()
    } else {
        ids_bytes(ids.drop_last()) + str_bytes(ids.last())
    }
}

/// Body of a riddle: three identifiers, then the question and the hint, each after its length.
pub open spec fn riddle_body(r: RiddleView) -> Seq<u8> {
    str_bytes(r.sender) + str_bytes(r.asking_player) + str_bytes(r.guessing_player) + seq![
        str_bytes(r.message).len() as u8,
    ] + str_bytes(r.message) + seq![opt_bytes(r.hint).len() as u8] + opt_bytes(r.hint)
}

/// Body of an evaluation: the verdict byte, then the hint bytes if any.
pub open spec fn evaluation_body(e: EvaluationView) -> Seq<u8> {
    seq![bool_byte(e.guessed)] + opt_bytes(e.hint)
}

/// Body of an opponent choice: the guessing identifier, then the asking one.
pub open spec fn opponent_selected_body(o: OpponentSelectedView) -> Seq<u8> {
    str_bytes(o.guessing_player) + str_bytes(o.asking_player)
}

/// Body of a player list: the count, then the identifiers.
pub open spec fn player_list_body(ids: Seq<Seq<char>>) -> Seq<u8> {
    seq![ids.len() as u8] + ids_bytes(ids)
}

/// The bytes that follow the type tag of a message.
pub open spec fn message_body(m: MessageView) -> Seq<u8> {
    match m {
        MessageView::Riddle(r) => riddle_body(r),
        MessageView::Evaluation(e) => evaluation_body(e),
        MessageView::OpponentSelected(o) => opponent_selected_body(o),
        MessageView::Password(p) => str_bytes(p),
        MessageView::PlayerList(ids) => player_list_body(ids),
        MessageView::PlayerNotAvailable(id) => str_bytes(id),
        MessageView::RegisterPlayerRole(role) => seq![role_byte(role)],
        MessageView::PlayerId(id) => str_bytes(id),
        _ => Seq::empty(),
    }
}

/// A whole frame: prefix, length of tag and body as high and low byte, tag, body.
pub open spec fn encode_frame(m: MessageView) -> Seq<u8> {
    let len = message_body(m).len() + 1;
    message_prefix() + seq![(len / 256) as u8, (len % 256) as u8, tag_of(m)] + message_body(m)
}

/// A message whose frame can be written: every length fits its field.
pub open spec fn packable(m: MessageView) -> bool {
    &&& message_body(m).len() < 0xFFFF
    &&& match m {
        MessageView::Riddle(r) => fits_u8(r.message) && fits_u8(opt_chars(r.hint)),
        MessageView::PlayerList(ids) => ids.len() <= 255,
        _ => true,
    }
}

/// The characters of an optional string; none when absent.
pub open spec fn opt_chars(h: Option<Seq<char>>) -> Seq<char> {
    match h {
        Some(s) => s,
        None => Seq::empty(),
    }
}

/// An optional hint that is either absent or not empty.
pub open spec fn hint_ok(h: Option<Seq<char>>) -> bool {
    match h {
        Some(s) => s.len() > 0,
        None => true,
    }
}

/// A message whose fields are all in their wire form: packable, identifiers of full
/// width and hints, when given, not empty.
pub open spec fn wire_valid(m: MessageView) -> bool {
    &&& packable(m)
    &&& match m {
        MessageView::Riddle(r) => is_id(r.sender) && is_id(r.asking_player) && is_id(
            r.guessing_player,
        ) && hint_ok(r.hint),
        MessageView::Evaluation(e) => hint_ok(e.hint),
        MessageView::OpponentSelected(o) => is_id(o.guessing_player) && is_id(o.asking_player),
        MessageView::PlayerList(ids) => forall|i: int| 0 <= i < ids.len() ==> is_id(#[trigger] ids[i]),
        MessageView::PlayerId(id) => is_id(id),
        _ => true,
    }
}

/// The identifier that fills bytes `off .. off + ID_LENGTH`, if they are there and valid.
pub open spec fn parse_id_at(b: Seq<u8>, off: int) -> Option<Seq<char>> {
    if 0 <= off && off + ID_LENGTH <= b.len() {
        parse_utf8(b.subrange(off, off + ID_LENGTH))
    } else {
        None
    }
}

/// Decodes the body of a riddle.
pub open spec fn parse_riddle(b: Seq<u8>) -> Option<RiddleView> {
    let l = ID_LENGTH as int;
    if b.len() < 3 * l + 1 {
        None
    } else {
        let qend = 3 * l + 1 + b[3 * l] as int;
        if b.len() < qend + 1 {
            None
        } else {
            let hlen = b[qend] as int;
            let hint: Option<Option<Seq<char>>> = if hlen == 0 {
                Some(None)
            } else if b.len() < qend + 1 + hlen {
                None
            } else {
                match parse_utf8(b.subrange(qend + 1, qend + 1 + hlen)) {
                    Some(h) => Some(Some(h)),
                    None => None,
                }
            };
            match (
                parse_id_at(b, 0),
                parse_id_at(b, l),
                parse_id_at(b, 2 * l),
                parse_utf8(b.subrange(3 * l + 1, qend)),
                hint,
            ) {
                (Some(s), Some(a), Some(g), Some(q), Some(h)) => Some(
                    RiddleView {
                        sender: s,
                        asking_player: a,
                        guessing_player: g,
                        message: q,
                        hint: h,
                    },
                ),
                _ => None,
            }
        }
    }
}

/// Decodes the body of an evaluation.
pub open spec fn parse_evaluation(b: Seq<u8>) -> Option<EvaluationView> {
    if b.len() == 0 {
        None
    } else if b.len() == 1 {
        Some(EvaluationView { hint: None, guessed: b[0] != 0 })
    } else {
        match parse_utf8(b.subrange(1, b.len() as int)) {
            Some(h) => Some(EvaluationView { hint: Some(h), guessed: b[0] != 0 }),
            None => None,
        }
    }
}

/// Decodes the body of an opponent choice.
pub open spec fn parse_opponent_selected(b: Seq<u8>) -> Option<OpponentSelectedView> {
    match (parse_id_at(b, 0), parse_id_at(b, ID_LENGTH as int)) {
        (Some(g), Some(a)) => Some(OpponentSelectedView { guessing_player: g, asking_player: a }),
        _ => None,
    }
}

/// Byte range of the `i`-th identifier of a player list body.
pub open spec fn list_id_bytes(b: Seq<u8>, i: int) -> Seq<u8> {
    b.subrange(1 + i * ID_LENGTH, 1 + (i + 1) * ID_LENGTH)
}

/// Decodes the body of a player list.
pub open spec fn parse_player_list(b: Seq<u8>) -> Option<Seq<Seq<char>>> {
    if b.len() == 0 {
        None
    } else {
        let count = b[0] as int;
        if b.len() < 1 + count * ID_LENGTH {
            None
        } else if forall|i: int| 0 <= i < count ==> valid_utf8(#[trigger] list_id_bytes(b, i)) {
            Some(Seq::new(count as nat, |i: int| decode_utf8(list_id_bytes(b, i))))
        } else {
            None
        }
    }
}

/// Decodes the body of a role registration.
pub open spec fn parse_role(b: Seq<u8>) -> Option<Role> {
    if b.len() == 0 {
        None
    } else if b[0] == 0 {
        Some(Role::GuessingPlayer)
    } else {
        Some(Role::AskingPlayer)
    }
}

/// Decodes a type tag followed by its body; an unknown tag gives `Unknown`.
pub open spec fn parse_payload(p: Seq<u8>) -> Option<MessageView> {
    if p.len() == 0 {
        None
    } else {
        let b = p.subrange(1, p.len() as int);
        let tag = p[0];
        if tag == 0 {
            match parse_riddle(b) {
                Some(r) => Some(MessageView::Riddle(r)),
                None => None,
            }
        } else if tag == 1 {
            match parse_evaluation(b) {
                Some(e) => Some(MessageView::Evaluation(e)),
                None => None,
            }
        } else if tag == 2 {
            match parse_opponent_selected(b) {
                Some(o) => Some(MessageView::OpponentSelected(o)),
                None => None,
            }
        } else if tag == 3 {
            match parse_utf8(b) {
                Some(s) => Some(MessageView::Password(s)),
                None => None,
            }
        } else if tag == 4 {
            match parse_player_list(b) {
                Some(ids) => Some(MessageView::PlayerList(ids)),
                None => None,
            }
        } else if tag == 5 {
            match parse_utf8(b) {
                Some(s) => Some(MessageView::PlayerNotAvailable(s)),
                None => None,
            }
        } else if tag == 6 {
            match parse_role(b) {
                Some(r) => Some(MessageView::RegisterPlayerRole(r)),
                None => None,
            }
        } else if tag == 7 {
            match parse_id_at(b, 0) {
                Some(s) => Some(MessageView::PlayerId(s)),
                None => None,
            }
        } else if tag == 8 {
            Some(MessageView::RequestGuessingPlayers)
        } else if tag == 9 {
            Some(MessageView::GameStart)
        } else {
            Some(MessageView::Unknown)
        }
    }
}

/// The length that the two length bytes of a frame declare.
pub open spec fn declared_len(b: Seq<u8>) -> int {
    b[2] as int * 256 + b[3] as int
}

/// Decodes a whole frame: the prefix must match and the frame must hold exactly
/// the declared number of bytes after the headers.
pub open spec fn parse_frame(b: Seq<u8>) -> Option<MessageView> {
    if b.len() < HEADERS_LEN || b[0] != message_prefix()[0] || b[1] != message_prefix()[1] {
        None
    } else if b.len() != HEADERS_LEN + declared_len(b) {
        None
    } else {
        parse_payload(b.subrange(HEADERS_LEN as int, b.len() as int))
    }
}

} // verus!
