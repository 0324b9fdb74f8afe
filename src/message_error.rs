use crate::messages::ConnectionType;
use vstd::prelude::*;

verus! {

/// What can go wrong while decoding a frame or moving it over a transport.
#[derive(Debug, Clone, Copy)]
pub enum MessageError {
    BadUnpack(&'static str),
    EmptyRead,
    InvalidRead(ConnectionType),
    InvalidWrite(ConnectionType),
}

impl MessageError {
    /// A sentence that says what went wrong.
    pub fn describe(&self) -> (r: String)
        ensures
            self matches MessageError::BadUnpack(m) ==> r@ == "Bad Unpack: "@ + m@,
            self is EmptyRead ==> r@ == Seq::<char>::empty(),
            self == MessageError::InvalidRead(ConnectionType::Tcp) ==> r@
                == "Could not read data from TCP stream."@,
            self == MessageError::InvalidRead(ConnectionType::UnixSocket) ==> r@
                == "Could not read data from unix socket."@,
            self == MessageError::InvalidWrite(ConnectionType::Tcp) ==> r@
                == "Could not write data to TCP stream."@,
            self == MessageError::InvalidWrite(ConnectionType::UnixSocket) ==> r@
                == "Could not write data to unix socket."@,
    {
        match self {
            MessageError::BadUnpack(message) => {
                let mut s = "Bad Unpack: ".to_owned();
                s.append(message);
                s
            },
            MessageError::EmptyRead => String::new(),
            MessageError::InvalidRead(ConnectionType::Tcp) => "Could not read data from TCP stream.".to_owned(),
            MessageError::InvalidRead(ConnectionType::UnixSocket) => "Could not read data from unix socket.".to_owned(),
            MessageError::InvalidWrite(ConnectionType::Tcp) => "Could not write data to TCP stream.".to_owned(),
            MessageError::InvalidWrite(ConnectionType::UnixSocket) => "Could not write data to unix socket.".to_owned(),
        }
    }
}

} // verus!
