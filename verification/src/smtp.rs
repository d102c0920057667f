//! Mail capture for the embedded SMTP server.
//!
//! The embedder's SMTP handler decodes each arriving chunk of one
//! message leniently as it comes — so a multi-byte sequence split across
//! chunks decodes as two ill-formed pieces — concatenates the texts
//! between `data_start` and `data_end`, and appends the finished text to
//! the captured mailbox. The server-state half guards that at most one
//! server runs at a time.

use vstd::prelude::*;
use crate::strutil::views_of;

verus! {

/// The text that lenient UTF-8 decoding yields for a byte sequence.
/// It depends on the bytes alone.
pub uninterp spec fn lossy_text_of(bytes: Seq<u8>) -> Seq<char>;

/// Relies on String::from_utf8_lossy: the text depends on the bytes
/// alone; ill-formed sequences become replacement characters.
#[verifier::external_body]
fn lossy_string(bytes: &[u8]) -> (r: String)
    ensures
        r@ == lossy_text_of(bytes@),
{
    String::from_utf8_lossy(bytes).to_string()
}

/// Captures the messages an embedded SMTP server receives: the text of
/// the message under way, decoded chunk by chunk, and the text of every
/// finished one.
pub struct SmtpHandler {
    current_data: String,
    messages: Vec<String>,
}

impl SmtpHandler {
    /// The decoded text of the message currently being received.
    pub closed spec fn current(&self) -> Seq<char> {
        self.current_data@
    }

    /// The text of every finished message, oldest first.
    pub closed spec fn mailbox(&self) -> Seq<Seq<char>> {
        views_of(self.messages@)
    }

    /// A handler with an empty mailbox.
    pub fn new() -> (r: Self)
        ensures
            r.current() == Seq::<char>::empty(),
            r.mailbox() == Seq::<Seq<char>>::empty(),
    {
        let r = SmtpHandler { current_data: String::new(), messages: Vec::new() };
        proof {
            assert(views_of(r.messages@) =~= Seq::<Seq<char>>::empty());
        }
        r
    }

    /// A new message begins: anything accumulated so far is discarded.
    pub fn data_start(&mut self)
        ensures
            final(self).current() == Seq::<char>::empty(),
            final(self).mailbox() == old(self).mailbox(),
    {
        self.current_data = String::new();
    }

    /// One chunk of the message's bytes arrives: it is decoded on its
    /// own and its text joins the message under way.
    pub fn data(&mut self, buf: &[u8])
        ensures
            final(self).current() == old(self).current() + lossy_text_of(buf@),
            final(self).mailbox() == old(self).mailbox(),
    {
        let text = lossy_string(buf);
        self.current_data.append(text.as_str());
    }

    /// The message ends: its accumulated text joins the mailbox.
    pub fn data_end(&mut self)
        ensures
            final(self).mailbox() == old(self).mailbox().push(old(self).current()),
            final(self).current() == old(self).current(),
    {
        let text = self.current_data.clone();
        proof {
            assert(views_of(self.messages@.push(text)) =~= views_of(self.messages@).push(text@));
        }
        self.messages.push(text);
    }

    /// The decoded text of every finished message, oldest first.
    pub fn get_messages(&self) -> (r: &Vec<String>)
        ensures
            views_of(r@) == self.mailbox(),
    {
        &self.messages
    }
}

/// Why a server start or stop request was refused.
#[derive(Debug, Clone, Copy, PartialEq, Eq, Structural)]
pub enum ServerError {
    /// A start was requested while the server runs.
    AlreadyRunning,
    /// A stop was requested while no server runs.
    NotRunning,
}

impl ServerError {
    /// The human-readable message for this refusal.
    pub fn message(&self) -> (r: String)
        ensures
            self is AlreadyRunning ==> r@ == "Server is already running"@,
            self is NotRunning ==> r@ == "Server is not running"@,
    {
        match self {
            ServerError::AlreadyRunning => "Server is already running".to_owned(),
            ServerError::NotRunning => "Server is not running".to_owned(),
        }
    }
}

/// Tracks whether the embedded SMTP server runs; the serving task itself
/// lives with the embedder.
pub struct ServerState {
    running: bool,
}

impl ServerState {
    /// Whether a server runs.
    pub closed spec fn is_running(&self) -> bool {
        self.running
    }

    /// A state with no server running.
    pub fn new() -> (r: Self)
        ensures
            !r.is_running(),
    {
        ServerState { running: false }
    }

    /// Claims the right to start the server: refused exactly while one
    /// already runs.
    pub fn begin_start(&mut self) -> (r: Result<(), ServerError>)
        ensures
            old(self).is_running() ==> r == Err::<(), ServerError>(ServerError::AlreadyRunning)
                && final(self).is_running(),
            !old(self).is_running() ==> r == Ok::<(), ServerError>(()) && final(self).is_running(),
    {
        if self.running {
            Err(ServerError::AlreadyRunning)
        } else {
            self.running = true;
            Ok(())
        }
    }

    /// Records that the server stopped: refused exactly while none runs.
    pub fn finish_stop(&mut self) -> (r: Result<(), ServerError>)
        ensures
            old(self).is_running() ==> r == Ok::<(), ServerError>(()) && !final(self).is_running(),
            !old(self).is_running() ==> r == Err::<(), ServerError>(ServerError::NotRunning)
                && !final(self).is_running(),
    {
        if self.running {
            self.running = false;
            Ok(())
        } else {
            Err(ServerError::NotRunning)
        }
    }
}

} // verus!
