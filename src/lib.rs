pub mod client;
pub mod codec;
pub mod constants;
pub mod helpers;
pub mod message_error;
pub mod messages;
pub mod registry;
pub mod session;
pub mod transport;
pub mod wire;
pub mod wire_laws;

pub use client::{
    get_connection_type, get_hint, get_opponent, get_question, get_role, get_wants_to_quit,
    login_reply, process_response_from_guessing_player, user_input_text, GuessingAction,
    GuessingState, ResponseResult,
};
pub use codec::{is_packable, pack, unpack, unpack_without_headers, Packable};
pub use constants::{HEADERS_LEN, ID_LENGTH};
pub use helpers::{get_random_id, get_string_slice_length, merge_u8, split_u16};
pub use message_error::MessageError;
pub use messages::{
    ConnectionType, Evaluation, Message, OpponentSelected, Password, PlayerId, PlayerList, Riddle,
    Role,
};
pub use registry::{Player, Players};
pub use session::{
    close_session, handle_evaluation, handle_login, handle_message, handle_opponent_selected,
    handle_read_error, handle_register_role, handle_request_guessing_players, handle_riddle,
    remove_player, ConnectionError, Flow, Outcome,
};
pub use transport::{Channel, Streamable};
