//! The two channel ends the engine exposes: frames flow out through a
//! bounded channel, commands flow in through an unbounded one.

use vstd::prelude::*;
use crate::executor::Command;
use crate::fractals::Rgb;

verus! {

/// An owned snapshot of one rendered image: row-major RGB-8 pixels with the
/// dimensions of the context that produced it.
pub struct Frame {
    pub width: u32,
    pub height: u32,
    pub pixels: Vec<Rgb>,
}

#[verifier::external_type_specification]
#[verifier::external_body]
#[verifier::reject_recursive_types(T)]
pub struct ExSender<T>(std::sync::mpsc::Sender<T>);

#[verifier::external_type_specification]
#[verifier::external_body]
#[verifier::reject_recursive_types(T)]
pub struct ExReceiver<T>(std::sync::mpsc::Receiver<T>);

#[verifier::external_type_specification]
#[verifier::external_body]
#[verifier::reject_recursive_types(T)]
pub struct ExSyncSender<T>(std::sync::mpsc::SyncSender<T>);

/// What the engine hands its consumer: the receiving end of the frame
/// channel and the sending end of the command channel.
pub struct Pipe {
    pub img_rcv: std::sync::mpsc::Receiver<Frame>,
    pub cmd_send: std::sync::mpsc::Sender<Command>,
}

/// Relies on std::sync::mpsc::channel: an unbounded channel whose sender
/// never blocks.
#[verifier::external_body]
pub(crate) fn cmd_channel() -> (std::sync::mpsc::Sender<Command>, std::sync::mpsc::Receiver<
    Command,
>) {
    std::sync::mpsc::channel()
}

/// Relies on std::sync::mpsc::sync_channel: a bounded channel holding at most
/// `bound` unread messages; a send on a full channel blocks until the
/// receiver drains one, which is the engine's backpressure.
#[verifier::external_body]
pub(crate) fn frame_channel(bound: usize) -> (std::sync::mpsc::SyncSender<Frame>, std::sync::mpsc::Receiver<
    Frame,
>) {
    std::sync::mpsc::sync_channel(bound)
}

/// Relies on std::sync::mpsc::Receiver::try_recv: hands back a queued
/// message without blocking; an empty and a disconnected channel both leave
/// nothing to apply.
#[verifier::external_body]
pub(crate) fn try_recv_cmd(rcv: &std::sync::mpsc::Receiver<Command>) -> Option<Command> {
    match rcv.try_recv() {
        Ok(command) => Some(command),
        Err(_) => None,
    }
}

/// Relies on std::sync::mpsc::SyncSender::send: blocks while the bounded
/// channel is full, and fails exactly when the receiving end has been
/// dropped, which is the engine's shutdown signal.
#[verifier::external_body]
pub(crate) fn send_frame(snd: &std::sync::mpsc::SyncSender<Frame>, frame: Frame) -> (delivered:
    bool) {
    match snd.send(frame) {
        Ok(()) => true,
        Err(_) => false,
    }
}

} // verus!
