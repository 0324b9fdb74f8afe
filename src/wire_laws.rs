use crate::constants::{HEADERS_LEN, ID_LENGTH};
use crate::messages::{EvaluationView, MessageView, OpponentSelectedView, RiddleView};
use crate::wire::{
    encode_frame, evaluation_body, fits_u8, hint_ok, ids_bytes, is_id, list_id_bytes,
    message_body, opponent_selected_body, opt_bytes, opt_chars, packable, parse_evaluation,
    parse_frame, parse_id_at, parse_opponent_selected, parse_payload, parse_player_list,
    parse_riddle, parse_utf8, player_list_body, riddle_body, str_bytes, tag_of, wire_valid,
};
use vstd::prelude::*;
use vstd::utf8::{
    decode_utf8, encode_utf8, encode_utf8_decode_utf8, encode_utf8_valid_utf8, valid_utf8,
};

verus! {

/// The bytes of a string decode back to that string.
proof fn lemma_str_round_trip(s: Seq<char>)
    ensures
        parse_utf8(str_bytes(s)) == Some(s),
{
    encode_utf8_valid_utf8(s);
    encode_utf8_decode_utf8(s);
}

/// A string is empty exactly when its bytes are.
proof fn lemma_str_bytes_empty(s: Seq<char>)
    ensures
        (s.len() == 0) <==> (str_bytes(s).len() == 0),
{
    encode_utf8_decode_utf8(s);
    if s.len() == 0 {
        assert(s == Seq::<char>::empty());
        reveal_with_fuel(encode_utf8, 1);
    }
    if str_bytes(s).len() == 0 {
        assert(str_bytes(s) == Seq::<u8>::empty());
        reveal_with_fuel(decode_utf8, 1);
    }
}

/// The identifier that fills bytes `off .. off + ID_LENGTH` when those bytes are `str_bytes(s)`.
proof fn lemma_id_at(b: Seq<u8>, off: int, s: Seq<char>)
    requires
        is_id(s),
        0 <= off,
        off + ID_LENGTH <= b.len(),
        b.subrange(off, off + ID_LENGTH) == str_bytes(s),
    ensures
        parse_id_at(b, off) == Some(s),
{
    lemma_str_round_trip(s);
}

/// The identifiers of a list, each of full width, stand one after the other.
proof fn lemma_ids_bytes(ids: Seq<Seq<char>>)
    requires
        forall|i: int| 0 <= i < ids.len() ==> is_id(#[trigger] ids[i]),
    ensures
        ids_bytes(ids).len() == ids.len() * ID_LENGTH,
        forall|i: int|
            0 <= i < ids.len() ==> #[trigger] ids_bytes(ids).subrange(
                i * ID_LENGTH,
                (i + 1) * ID_LENGTH,
            ) == str_bytes(ids[i]),
    decreases ids.len(),
{
    if ids.len() > 0 {
        let init = ids.drop_last();
        assert forall|i: int| 0 <= i < init.len() implies is_id(#[trigger] init[i]) by {
            assert(init[i] == ids[i]);
        }
        lemma_ids_bytes(init);
        let whole = ids_bytes(ids);
        let front = ids_bytes(init);
        assert(whole == front + str_bytes(ids.last()));
        assert forall|i: int| 0 <= i < ids.len() implies #[trigger] whole.subrange(
            i * ID_LENGTH,
            (i + 1) * ID_LENGTH,
        ) == str_bytes(ids[i]) by {
            if i < init.len() {
                assert(init[i] == ids[i]);
                assert(whole.subrange(i * ID_LENGTH, (i + 1) * ID_LENGTH) =~= front.subrange(
                    i * ID_LENGTH,
                    (i + 1) * ID_LENGTH,
                ));
            } else {
                assert(whole.subrange(i * ID_LENGTH, (i + 1) * ID_LENGTH) =~= str_bytes(
                    ids.last(),
                ));
            }
        }
    }
}

/// A riddle in wire form reads back as itself.
proof fn lemma_riddle_round_trip(r: RiddleView)
    requires
        is_id(r.sender),
        is_id(r.asking_player),
        is_id(r.guessing_player),
        fits_u8(r.message),
        fits_u8(opt_chars(r.hint)),
        hint_ok(r.hint),
    ensures
        parse_riddle(riddle_body(r)) == Some(r),
{
    let b = riddle_body(r);
    let l = ID_LENGTH as int;
    let q = str_bytes(r.message);
    let h = opt_bytes(r.hint);
    let qend = 3 * l + 1 + q.len();
    assert(opt_chars(r.hint) == Seq::<char>::empty() ==> h.len() == 0) by {
        lemma_str_bytes_empty(Seq::<char>::empty());
    }
    assert(b.len() == qend + 1 + h.len());
    assert(b[3 * l] == q.len() as u8);
    assert(b[qend] == h.len() as u8);
    assert(b.subrange(0, l) =~= str_bytes(r.sender));
    lemma_id_at(b, 0, r.sender);
    assert(b.subrange(l, 2 * l) =~= str_bytes(r.asking_player));
    assert(b.subrange(2 * l, 3 * l) =~= str_bytes(r.guessing_player));
    lemma_id_at(b, l, r.asking_player);
    lemma_id_at(b, 2 * l, r.guessing_player);
    assert(b.subrange(3 * l + 1, qend) =~= q);
    lemma_str_round_trip(r.message);
    match r.hint {
        Some(hs) => {
            lemma_str_bytes_empty(hs);
            assert(b.subrange(qend + 1, qend + 1 + h.len()) =~= h);
            lemma_str_round_trip(hs);
        },
        None => {},
    }
}

/// An evaluation in wire form reads back as itself.
proof fn lemma_evaluation_round_trip(e: EvaluationView)
    requires
        hint_ok(e.hint),
    ensures
        parse_evaluation(evaluation_body(e)) == Some(e),
{
    let b = evaluation_body(e);
    match e.hint {
        Some(hs) => {
            lemma_str_bytes_empty(hs);
            assert(b.subrange(1, b.len() as int) =~= str_bytes(hs));
            lemma_str_round_trip(hs);
        },
        None => {},
    }
}

/// An opponent choice in wire form reads back as itself.
proof fn lemma_opponent_selected_round_trip(o: OpponentSelectedView)
    requires
        is_id(o.guessing_player),
        is_id(o.asking_player),
    ensures
        parse_opponent_selected(opponent_selected_body(o)) == Some(o),
{
    let b = opponent_selected_body(o);
    let l = ID_LENGTH as int;
    assert(b.subrange(0, l) =~= str_bytes(o.guessing_player));
    assert(b.subrange(l, 2 * l) =~= str_bytes(o.asking_player));
    lemma_id_at(b, 0, o.guessing_player);
    lemma_id_at(b, l, o.asking_player);
}

/// A list of full-width identifiers reads back as itself.
proof fn lemma_player_list_round_trip(ids: Seq<Seq<char>>)
    requires
        ids.len() <= 255,
        forall|i: int| 0 <= i < ids.len() ==> is_id(#[trigger] ids[i]),
    ensures
        parse_player_list(player_list_body(ids)) == Some(ids),
{
    let b = player_list_body(ids);
    let rest = ids_bytes(ids);
    lemma_ids_bytes(ids);
    assert(b[0] as int == ids.len());
    assert forall|i: int| 0 <= i < ids.len() implies #[trigger] list_id_bytes(b, i) == str_bytes(
        ids[i],
    ) by {
        assert(list_id_bytes(b, i) =~= rest.subrange(i * ID_LENGTH, (i + 1) * ID_LENGTH));
        lemma_str_round_trip(ids[i]);
    }
    assert forall|i: int| 0 <= i < ids.len() implies valid_utf8(#[trigger] list_id_bytes(b, i))
        && decode_utf8(list_id_bytes(b, i)) == ids[i] by {
        lemma_str_round_trip(ids[i]);
    }
    assert(Seq::new(ids.len(), |i: int| decode_utf8(list_id_bytes(b, i))) =~= ids);
}

/// The payload (tag and body) of a message in wire form reads back as the message.
proof fn lemma_payload_round_trip(m: MessageView)
    requires
        wire_valid(m),
    ensures
        parse_payload(seq![tag_of(m)] + message_body(m)) == Some(m),
{
    let p = seq![tag_of(m)] + message_body(m);
    assert(p.subrange(1, p.len() as int) =~= message_body(m));
    match m {
        MessageView::Riddle(r) => lemma_riddle_round_trip(r),
        MessageView::Evaluation(e) => lemma_evaluation_round_trip(e),
        MessageView::OpponentSelected(o) => lemma_opponent_selected_round_trip(o),
        MessageView::Password(s) => lemma_str_round_trip(s),
        MessageView::PlayerList(ids) => lemma_player_list_round_trip(ids),
        MessageView::PlayerNotAvailable(s) => lemma_str_round_trip(s),
        MessageView::PlayerId(s) => {
            assert(message_body(m).subrange(0, ID_LENGTH as int) =~= str_bytes(s));
            lemma_id_at(message_body(m), 0, s);
        },
        _ => {},
    }
}

/// Round trip: every message whose fields are in wire form decodes, from its frame,
/// back to the same message.
pub proof fn law_round_trip(m: MessageView)
    requires
        wire_valid(m),
    ensures
        parse_frame(encode_frame(m)) == Some(m),
{
    let b = encode_frame(m);
    let len = message_body(m).len() + 1;
    assert(b.len() == HEADERS_LEN + len);
    assert(b[2] as int * 256 + b[3] as int == len);
    assert(b.subrange(HEADERS_LEN as int, b.len() as int) =~= seq![tag_of(m)] + message_body(m));
    lemma_payload_round_trip(m);
}

/// Truncation: cutting the frame of a packable message short, at any byte before its
/// end, leaves bytes that do not decode.
pub proof fn law_truncated_frame_rejected(m: MessageView, k: int)
    requires
        packable(m),
        0 <= k < encode_frame(m).len(),
    ensures
        parse_frame(encode_frame(m).subrange(0, k)) is None,
{
    let b = encode_frame(m);
    let t = b.subrange(0, k);
    let len = message_body(m).len() + 1;
    if k >= HEADERS_LEN {
        assert(t[2] == b[2] && t[3] == b[3]);
        assert(t[2] as int * 256 + t[3] as int == len);
    }
}

/// Unknown tags: a payload whose tag no message has decodes as `Unknown`, whatever follows it.
pub proof fn law_unknown_tag(tag: u8, body: Seq<u8>)
    requires
        tag > 9,
    ensures
        parse_payload(seq![tag] + body) == Some(MessageView::Unknown),
{
}

} // verus!
