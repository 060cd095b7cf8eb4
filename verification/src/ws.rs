//! The WebSocket endpoint and the events it sends.
use vstd::prelude::*;
use crate::text::{chars_of, concat_chars, replace, replace_chars, string_of};

verus! {

broadcast use vstd::string::group_string_axioms;

/// The WebSocket URL of a base URL: `wss://`, the base URL without its
/// `https://` and `http://` parts, then `/ws`.
pub open spec fn ws_url_of(base_url: Seq<char>) -> Seq<char> {
    "wss://"@ + replace(replace(base_url, "https://"@, ""@), "http://"@, ""@) + "/ws"@
}

/// Real-time offer monitor via the FunPay WebSocket.
#[derive(Debug, Clone)]
pub struct WsMonitor {
    url: String,
}

impl WsMonitor {
    /// A monitor for the given base URL.
    pub fn new(base_url: &str) -> (res: WsMonitor)
        ensures
            res.url_view() == ws_url_of(base_url@),
    {
        proof {
            reveal_strlit("https://");
            reveal_strlit("http://");
        }
        let b = chars_of(base_url);
        let no_https = replace_chars(&b, &chars_of("https://"), &chars_of(""));
        let bare = replace_chars(&no_https, &chars_of("http://"), &chars_of(""));
        let url = concat_chars(&concat_chars(&chars_of("wss://"), &bare), &chars_of("/ws"));
        WsMonitor { url: string_of(url.as_slice()) }
    }

    /// The WebSocket URL.
    pub closed spec fn url_view(&self) -> Seq<char> {
        self.url@
    }

    /// The WebSocket URL.
    pub fn url(&self) -> (res: &str)
        ensures
            res@ == self.url_view(),
    {
        self.url.as_str()
    }
}

/// WebSocket event types from FunPay.
#[derive(Debug, Clone, PartialEq, Eq)]
pub enum WsEvent {
    /// An existing offer was updated (price change, etc.).
    OfferUpdate { offer_id: String, price: String },
    /// A new offer was created.
    NewOffer { offer_id: String },
    /// An offer was removed.
    OfferRemoved { offer_id: String },
}

} // verus!
