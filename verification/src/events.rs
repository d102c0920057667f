//! The event bridge between the host and the running scripts.
//!
//! Host-to-script events travel over one unbounded queue; the execution
//! context's loop races the next inbound event against its own internal
//! work and, on an event, runs a well-known callback inside the script
//! environment with the payload. Queue closure is an intentional shutdown
//! signal, not an error.

use vstd::prelude::*;

verus! {

/// The sending half of the host-to-script event queue.
#[verifier::external_type_specification]
#[verifier::external_body]
#[verifier::reject_recursive_types(T)]
pub struct ExUnboundedSender<T>(tokio::sync::mpsc::UnboundedSender<T>);

/// The receiving half of the host-to-script event queue.
#[verifier::external_type_specification]
#[verifier::external_body]
#[verifier::reject_recursive_types(T)]
pub struct ExUnboundedReceiver<T>(tokio::sync::mpsc::UnboundedReceiver<T>);

/// Relies on tokio::sync::mpsc::unbounded_channel: a fresh connected
/// sender/receiver pair; messages arrive in the order they were sent.
#[verifier::external_body]
fn new_event_channel() -> (tokio::sync::mpsc::UnboundedSender<String>, tokio::sync::mpsc::UnboundedReceiver<
    String,
>) {
    tokio::sync::mpsc::unbounded_channel()
}

/// Relies on tokio::sync::mpsc::UnboundedSender::send: it fails only
/// when the receiving half is gone; true means the event was queued.
#[verifier::external_body]
fn send_event(tx: &tokio::sync::mpsc::UnboundedSender<String>, event: String) -> bool {
    tx.send(event).is_ok()
}

/// The script run inside the execution context to deliver one host
/// event: it invokes the well-known callback with the payload, if the
/// script environment has installed one.
pub fn event_callback_script(event: &str) -> (r: String)
    ensures
        r@ == "if (globalThis.Yasumu) { Yasumu['~yasumu__on__Event__Callback']?.("@ + event@
            + "); }"@,
{
    let mut out: String = "if (globalThis.Yasumu) { Yasumu['~yasumu__on__Event__Callback']?.(".to_owned();
    out.append(event);
    out.append("); }");
    out
}

/// Hands host events to the main execution context's queue. Holds the
/// sending half once the channel is initialized; the receiving half
/// lives with the context's loop.
pub struct EventBridge {
    sender: Option<tokio::sync::mpsc::UnboundedSender<String>>,
}

impl EventBridge {
    /// Whether the event channel has been initialized.
    pub closed spec fn initialized(&self) -> bool {
        self.sender is Some
    }

    /// A bridge with no channel yet.
    pub fn new() -> (r: Self)
        ensures
            !r.initialized(),
    {
        EventBridge { sender: None }
    }

    /// Creates the host-to-script event channel, keeps the sending half,
    /// and hands the receiving half to the execution context's loop.
    /// Replaces any earlier channel, whose receiver then reads a closed
    /// queue.
    pub fn init_renderer_event_channel(&mut self) -> (rx: tokio::sync::mpsc::UnboundedReceiver<
        String,
    >)
        ensures
            final(self).initialized(),
    {
        let (tx, rx) = new_event_channel();
        self.sender = Some(tx);
        rx
    }

    /// Queues one event for the script environment's callback. Without an
    /// initialized channel, or with the context's loop gone, nothing is
    /// delivered.
    pub fn invoke_renderer_event_callback(&self, event: &str) -> (delivered: bool)
        ensures
            !self.initialized() ==> !delivered,
    {
        match &self.sender {
            Some(tx) => send_event(tx, event.to_owned()),
            None => false,
        }
    }
}

/// What the execution context's loop observed in one iteration: the race
/// between the inbound host-event queue and internal runtime work, with
/// no fixed priority.
#[derive(Debug, Clone)]
pub enum LoopEvent {
    /// An inbound host event arrived with this payload.
    HostEvent(String),
    /// The inbound queue closed: an intentional shutdown signal.
    InboundClosed,
    /// A round of internal runtime work finished without error.
    InternalDone,
    /// Internal runtime work failed with this message.
    InternalFailed(String),
}

/// What the loop does with what it observed.
#[derive(Debug, Clone)]
pub enum LoopDirective {
    /// Run this script inside the context, then continue looping.
    RunCallback(String),
    /// Continue looping.
    Continue,
    /// Leave the loop: the host asked for shutdown.
    ExitClosed,
    /// Leave the loop: it failed with this message.
    Fail(String),
}

/// Decides one iteration of the context's loop: a host event runs the
/// callback with its payload; queue closure exits cleanly; finished
/// internal work continues; failed internal work fails the loop with its
/// message.
pub fn loop_step(event: LoopEvent) -> (r: LoopDirective)
    ensures
        event matches LoopEvent::HostEvent(e) ==> (r matches LoopDirective::RunCallback(s) && s@
            == "if (globalThis.Yasumu) { Yasumu['~yasumu__on__Event__Callback']?.("@ + e@
            + "); }"@),
        event is InboundClosed ==> r is ExitClosed,
        event is InternalDone ==> r is Continue,
        event matches LoopEvent::InternalFailed(m) ==> (r matches LoopDirective::Fail(f) && f@
            == m@),
{
    match event {
        LoopEvent::HostEvent(e) => LoopDirective::RunCallback(event_callback_script(e.as_str())),
        LoopEvent::InboundClosed => LoopDirective::ExitClosed,
        LoopEvent::InternalDone => LoopDirective::Continue,
        LoopEvent::InternalFailed(m) => LoopDirective::Fail(m),
    }
}

} // verus!
