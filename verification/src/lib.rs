//! A decoder for MPEG transport stream packets.
//!
//! [`stream::Stream`] is a forward-only bit cursor over a byte slice, and
//! [`ts::PTSPacket`] decodes one packet with it: the header, the adaptation
//! field where the header announces one, and the payload.

pub mod error;
pub mod lemmas;
pub mod stream;
pub mod ts;
