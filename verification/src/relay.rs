//! The blind relay's per-connection decisions.
//!
//! A connection first sends `HELLO <node_id>`; after that every line is an
//! envelope. The relay reads only `kind`, `from` and `to`: it forwards a
//! `fragment` whose `from` is the connection's own HELLO identity, to the
//! node named in `to`, and ignores everything else. Each connection may
//! forward at most [`RATE_LIMIT_PER_SEC`] envelopes per one-second window;
//! one more closes the connection.
//!
//! The socket work (reading capped lines, the routing table, writing) is done
//! by the caller, which feeds each read as a [`LineEvent`] to
//! [`RelayConn::on_event`] and performs the returned [`RelayAction`].

use vstd::prelude::*;
use std::hash::{Hash, Hasher};
use crate::text::{trim, strip_prefix, trimmed, seq_strip_prefix, str_eq};

verus! {

/// Max length of a single wire line (envelope): 64 KiB bounds memory.
pub const MAX_LINE: usize = 65536;
/// Max envelopes forwarded per second per connection.
pub const RATE_LIMIT_PER_SEC: usize = 200;
/// Number of routing-table shards.
pub const SHARDS: usize = 16;

/// What std `String::from_utf8_lossy` makes of a byte string.
pub uninterp spec fn utf8_lossy_text(bytes: Seq<u8>) -> Seq<char>;

/// Std `String::from_utf8_lossy`. Trusted: the text is a function of the
/// bytes alone, and valid UTF-8 decodes to exactly its characters (invalid
/// sequences become U+FFFD; that mapping is left unstated).
#[verifier::external_body]
pub(crate) fn utf8_lossy(bytes: &[u8]) -> (res: String)
    ensures
        res@ == utf8_lossy_text(bytes@),
        vstd::utf8::valid_utf8(bytes@) ==> res@ == vstd::utf8::decode_utf8(bytes@),
{
    String::from_utf8_lossy(bytes).to_string()
}

/// What `serde_json` reads of a JSON document for a top-level key: `None`
/// when the bytes are not a JSON document, `Some(None)` when the key is
/// absent or its value is not a string, `Some(Some(text))` otherwise.
pub uninterp spec fn json_string_field(bytes: Seq<u8>, key: Seq<char>) -> Option<Option<Seq<char>>>;

/// The view of a JSON field lookup result.
pub open spec fn field_view(r: Option<Option<String>>) -> Option<Option<Seq<char>>> {
    match r {
        None => None,
        Some(None) => Some(None),
        Some(Some(s)) => Some(Some(s@)),
    }
}

/// `serde_json::from_slice::<Value>` followed by `Value::get(key)` and
/// `Value::as_str`. Trusted: the result is a function of the bytes and the key.
#[verifier::external_body]
pub(crate) fn json_field(bytes: &[u8], key: &str) -> (res: Option<Option<String>>)
    ensures
        field_view(res) == json_string_field(bytes@, key@),
{
    match serde_json::from_slice::<serde_json::Value>(bytes) {
        Ok(v) => Some(v.get(key).and_then(|x| x.as_str()).map(|s| s.to_string())),
        Err(_) => None,
    }
}

/// The string value of a field, or the empty string when it is missing,
/// not a string, or the bytes are not JSON.
pub open spec fn field_or_empty(bytes: Seq<u8>, key: Seq<char>) -> Seq<char> {
    match json_string_field(bytes, key) {
        Some(Some(s)) => s,
        _ => Seq::empty(),
    }
}

fn field_text(bytes: &[u8], key: &str) -> (res: String)
    ensures
        res@ == field_or_empty(bytes@, key@),
{
    match json_field(bytes, key) {
        Some(Some(s)) => s,
        _ => String::new(),
    }
}

/// What std's `DefaultHasher::new()` gives for a string fed through `Hash`
/// and `finish`. Std guarantees that every hasher made by `new` is the same
/// and hashes a string by its bytes alone, so within one build the value is
/// a function of the text; which function is left open by std (it may
/// change between releases) and is not stated here.
pub uninterp spec fn default_hash_of(s: Seq<char>) -> u64;

/// Std `DefaultHasher::new()` fed with the id through `Hash`, then
/// `finish`. Trusted: the value is [`default_hash_of`] the id's text.
#[verifier::external_body]
fn default_hash_str(node_id: &str) -> (res: u64)
    ensures
        res == default_hash_of(node_id@),
{
    let mut hasher = std::collections::hash_map::DefaultHasher::new();
    node_id.hash(&mut hasher);
    hasher.finish()
}

/// The routing-table shard for a hash value.
pub fn shard_of_hash(h: u64) -> (res: usize)
    ensures
        res == h % (SHARDS as u64),
        res < SHARDS,
{
    (h % 16u64) as usize
}

/// The routing-table shard that holds a node id.
pub fn shard_for(node_id: &str) -> (res: usize)
    ensures
        res == default_hash_of(node_id@) % (SHARDS as u64),
        res < SHARDS,
{
    shard_of_hash(default_hash_str(node_id))
}

/// What one byte (or the end of the stream) completes.
pub enum Scan {
    /// The current line is not complete yet.
    Pending,
    /// A complete line, without its newline.
    Line(Vec<u8>),
    /// A line longer than [`MAX_LINE`] ended; its bytes were dropped.
    Oversized,
    /// The stream ended with no partial line.
    Eof,
}

/// Splits a byte stream into lines of at most [`MAX_LINE`] bytes without
/// holding more than that in memory: a longer line is dropped up to its
/// newline and reported as [`Scan::Oversized`].
pub struct LineReader {
    /// Bytes of the current line so far.
    pub buf: Vec<u8>,
    /// True while skipping the rest of an oversized line.
    pub draining: bool,
}

impl LineReader {
    /// The buffer never holds more than a line's worth.
    pub open spec fn wf(&self) -> bool {
        &&& self.buf@.len() <= MAX_LINE
        &&& self.draining ==> self.buf@.len() == 0
    }

    /// An empty reader.
    pub fn new() -> (res: LineReader)
        ensures
            res.wf(),
            res.buf@.len() == 0,
            !res.draining,
    {
        LineReader { buf: Vec::new(), draining: false }
    }

    /// Takes the next byte of the stream.
    pub fn feed(&mut self, byte: u8) -> (res: Scan)
        requires
            old(self).wf(),
        ensures
            final(self).wf(),
            res matches Scan::Line(l) ==> l@.len() <= MAX_LINE,
            old(self).draining ==> if byte == 10u8 {
                res is Oversized && !final(self).draining && final(self).buf@.len() == 0
            } else {
                res is Pending && final(self).draining
            },
            !old(self).draining ==> if byte == 10u8 {
                &&& (res matches Scan::Line(l) && l@ == old(self).buf@)
                &&& !final(self).draining
                &&& final(self).buf@.len() == 0
            } else if old(self).buf@.len() + 1 > MAX_LINE {
                res is Pending && final(self).draining
            } else {
                &&& res is Pending
                &&& !final(self).draining
                &&& final(self).buf@ == old(self).buf@.push(byte)
            },
    {
        if self.draining {
            if byte == 10u8 {
                self.draining = false;
                Scan::Oversized
            } else {
                Scan::Pending
            }
        } else if byte == 10u8 {
            let mut line: Vec<u8> = Vec::new();
            std::mem::swap(&mut line, &mut self.buf);
            Scan::Line(line)
        } else if self.buf.len() + 1 > MAX_LINE {
            self.buf = Vec::new();
            self.draining = true;
            Scan::Pending
        } else {
            self.buf.push(byte);
            Scan::Pending
        }
    }

    /// The stream ended: a partial line still counts as a line.
    pub fn finish(&mut self) -> (res: Scan)
        requires
            old(self).wf(),
        ensures
            final(self).wf(),
            res matches Scan::Line(l) ==> l@.len() <= MAX_LINE,
            !final(self).draining,
            final(self).buf@.len() == 0,
            if old(self).draining {
                res is Oversized
            } else if old(self).buf@.len() == 0 {
                res is Eof
            } else {
                res matches Scan::Line(l) && l@ == old(self).buf@
            },
    {
        if self.draining {
            self.draining = false;
            Scan::Oversized
        } else if self.buf.len() == 0 {
            Scan::Eof
        } else {
            let mut line: Vec<u8> = Vec::new();
            std::mem::swap(&mut line, &mut self.buf);
            Scan::Line(line)
        }
    }
}

/// One read from a connection.
pub enum LineEvent {
    /// A complete line (without its newline); `window_expired` says that at
    /// least one second has passed since the rate window started.
    Line { bytes: Vec<u8>, window_expired: bool },
    /// A line longer than [`MAX_LINE`], already drained.
    Oversized,
    /// The peer closed the connection.
    Eof,
}

/// What the caller must do after a read.
pub enum RelayAction {
    /// Nothing: keep reading.
    Ignore,
    /// Record this connection under the given node id in the routing table.
    Register(String),
    /// Write `frame` (the line as read, then a newline) to the connection
    /// registered under `to`, if there is one.
    Forward { to: String, frame: Vec<u8> },
    /// Stop serving this connection, leaving the routing table as it is.
    Close,
    /// Remove the connection's node id from the routing table and stop.
    Disconnect(String),
}

/// Per-connection state.
pub struct RelayConn {
    /// The HELLO identity, once registered.
    pub hello: Option<String>,
    /// Envelopes still allowed in the current one-second window.
    pub rate_tokens: usize,
}

/// The identity that `HELLO` registers, for a handshake line.
pub open spec fn hello_identity(bytes: Seq<u8>) -> Option<Seq<char>> {
    match seq_strip_prefix(trimmed(utf8_lossy_text(bytes)), "HELLO "@) {
        Some(rest) => Some(trimmed(rest)),
        None => None,
    }
}

/// True when an envelope line is a fragment sent under `hello` to a
/// non-empty destination.
pub open spec fn routable(bytes: Seq<u8>, hello: Seq<char>) -> bool {
    &&& json_string_field(bytes, "kind"@) == Some(Some("fragment"@))
    &&& field_or_empty(bytes, "from"@) == hello
    &&& field_or_empty(bytes, "to"@).len() > 0
}

impl RelayConn {
    /// A fresh connection, waiting for its HELLO line.
    pub fn new() -> (res: RelayConn)
        ensures
            res.hello is None,
            res.rate_tokens == RATE_LIMIT_PER_SEC,
    {
        RelayConn { hello: None, rate_tokens: RATE_LIMIT_PER_SEC }
    }

    /// Decides what to do with one read. The second result says whether the
    /// rate window restarts now.
    pub fn on_event(&mut self, ev: LineEvent) -> (res: (RelayAction, bool))
        ensures
            old(self).rate_tokens <= RATE_LIMIT_PER_SEC ==> final(self).rate_tokens <= RATE_LIMIT_PER_SEC,
            match old(self).hello {
                None => match ev {
                    LineEvent::Line { bytes, window_expired } => {
                        &&& !res.1
                        &&& final(self).rate_tokens == old(self).rate_tokens
                        &&& match hello_identity(bytes@) {
                            Some(id) => {
                                &&& (res.0 matches RelayAction::Register(r) && r@ == id)
                                &&& (final(self).hello matches Some(h) && h@ == id)
                            },
                            None => res.0 is Ignore && final(self).hello is None,
                        }
                    },
                    _ => res.0 is Close && !res.1 && *final(self) == *old(self),
                },
                Some(h) => {
                    &&& final(self).hello == old(self).hello
                    &&& match ev {
                        LineEvent::Eof => {
                            &&& (res.0 matches RelayAction::Disconnect(d) && d@ == h@)
                            &&& !res.1
                            &&& final(self).rate_tokens == old(self).rate_tokens
                        },
                        LineEvent::Oversized => {
                            &&& res.0 is Ignore
                            &&& !res.1
                            &&& final(self).rate_tokens == old(self).rate_tokens
                        },
                        LineEvent::Line { bytes, window_expired } => if bytes@.len() == 0 {
                            &&& res.0 is Ignore
                            &&& !res.1
                            &&& final(self).rate_tokens == old(self).rate_tokens
                        } else {
                            let tokens = if window_expired {
                                RATE_LIMIT_PER_SEC
                            } else {
                                old(self).rate_tokens
                            };
                            &&& res.1 == window_expired
                            &&& if tokens == 0 {
                                res.0 is Close && final(self).rate_tokens == 0
                            } else {
                                &&& final(self).rate_tokens == tokens - 1
                                &&& if routable(bytes@, h@) {
                                    &&& (res.0 matches RelayAction::Forward { to, frame }
                                        && to@ == field_or_empty(bytes@, "to"@)
                                        && frame@ == bytes@.push(10u8))
                                } else {
                                    res.0 is Ignore
                                }
                            }
                        },
                    }
                },
            },
    {
        match &self.hello {
            None => match ev {
                LineEvent::Line { bytes, window_expired: _ } => {
                    let line = utf8_lossy(&bytes);
                    let trimmed = trim(line.as_str());
                    match strip_prefix(trimmed.as_str(), "HELLO ") {
                        Some(rest) => {
                            let id = trim(rest.as_str());
                            self.hello = Some(id.clone());
                            (RelayAction::Register(id), false)
                        },
                        None => (RelayAction::Ignore, false),
                    }
                },
                _ => (RelayAction::Close, false),
            },
            Some(h) => {
                let hello = h.clone();
                match ev {
                    LineEvent::Eof => (RelayAction::Disconnect(hello), false),
                    LineEvent::Oversized => (RelayAction::Ignore, false),
                    LineEvent::Line { bytes, window_expired } => {
                        if bytes.len() == 0 {
                            return (RelayAction::Ignore, false);
                        }
                        if window_expired {
                            self.rate_tokens = RATE_LIMIT_PER_SEC;
                        }
                        if self.rate_tokens == 0 {
                            return (RelayAction::Close, window_expired);
                        }
                        self.rate_tokens = self.rate_tokens - 1;
                        let kind = json_field(&bytes, "kind");
                        let is_fragment = match &kind {
                            Some(Some(k)) => str_eq(k.as_str(), "fragment"),
                            _ => false,
                        };
                        if !is_fragment {
                            return (RelayAction::Ignore, window_expired);
                        }
                        let from = field_text(&bytes, "from");
                        if !(from == hello) {
                            return (RelayAction::Ignore, window_expired);
                        }
                        let to = field_text(&bytes, "to");
                        if to.as_str().is_empty() {
                            return (RelayAction::Ignore, window_expired);
                        }
                        let mut frame = bytes;
                        frame.push(10u8);
                        (RelayAction::Forward { to, frame }, window_expired)
                    },
                }
            },
        }
    }
}

} // verus!
