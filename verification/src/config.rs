//! Values that the bridge takes from its configuration.

use crate::text::{decimal_within, parse_number};
use vstd::prelude::*;

verus! {

/// The port of the consumer-facing channel unless another is configured.
pub const DEFAULT_SOCKET_PORT: u16 = 7177;

/// The port that a configured text selects: the number it writes, if it is
/// an unsigned decimal numeral no larger than 65535, and the default port for
/// every other text and when nothing is configured.
pub open spec fn selected_port(configured: Option<Seq<char>>) -> u16 {
    match configured {
        Some(text) => match decimal_within(text, u16::MAX as nat) {
            Some(port) => port as u16,
            None => DEFAULT_SOCKET_PORT,
        },
        None => DEFAULT_SOCKET_PORT,
    }
}

/// The mathematical value of an optional text.
pub open spec fn text_view(text: Option<&str>) -> Option<Seq<char>> {
    match text {
        Some(text) => Some(text@),
        None => None,
    }
}

/// The port of the consumer-facing channel, given the configured override,
/// if there is one.
pub fn socket_port(configured: Option<&str>) -> (port: u16)
    ensures
        port == selected_port(text_view(configured)),
{
    match configured {
        Some(text) => match parse_number(text, u16::MAX as u64) {
            Some(port) => port as u16,
            None => DEFAULT_SOCKET_PORT,
        },
        None => DEFAULT_SOCKET_PORT,
    }
}

} // verus!
