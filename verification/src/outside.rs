//! Everything the library takes on trust: the types and calls of `lettre`,
//! `tokio`, `rand`, `sea_orm` and `std` that it builds on.

use crate::mail::ContentType;
use lettre::error::Error as MessageError;
use std::time::{Duration, UNIX_EPOCH};
use tokio::sync::oneshot::{Receiver, Sender};
use tokio::task::AbortHandle;
use vstd::prelude::*;

verus! {

/// [`std::io::Error`], carried through unopened.
#[verifier::external_type_specification]
#[verifier::external_body]
pub struct ExIoError(std::io::Error);

/// [`sea_orm::DbErr`], carried through unopened.
#[verifier::external_type_specification]
#[verifier::external_body]
pub struct ExDbErr(sea_orm::DbErr);

/// [`lettre::address::AddressError`], the objection to an email address.
#[verifier::external_type_specification]
#[verifier::external_body]
pub struct ExAddressError(lettre::address::AddressError);

/// [`lettre::error::Error`], the objection to the parts of a message.
#[verifier::external_type_specification]
#[verifier::external_body]
pub struct ExMessageError(MessageError);

/// [`lettre::Message`], a message that is ready to be sent.
#[verifier::external_type_specification]
#[verifier::external_body]
pub struct ExMessage(lettre::Message);

/// [`tokio::task::AbortHandle`], which stops the task it was made for.
#[verifier::external_type_specification]
#[verifier::external_body]
pub struct ExAbortHandle(tokio::task::AbortHandle);

/// [`tokio::sync::oneshot::Sender`], the sending half of a channel.
#[verifier::external_type_specification]
#[verifier::external_body]
#[verifier::reject_recursive_types(T)]
pub struct ExSender<T>(tokio::sync::oneshot::Sender<T>);

/// [`tokio::sync::oneshot::Receiver`], the receiving half of a channel.
#[verifier::external_type_specification]
#[verifier::external_body]
#[verifier::reject_recursive_types(T)]
pub struct ExReceiver<T>(tokio::sync::oneshot::Receiver<T>);

/// What awaiting a [`tokio::sync::oneshot::Receiver`] may fail with; its
/// `Future` implementation mentions the type.
#[verifier::external_type_specification]
#[verifier::external_body]
pub struct ExRecvError(tokio::sync::oneshot::error::RecvError);

/// Whether asking the runtime once to stop the task of `before` makes that
/// handle `after`.
pub uninterp spec fn stop_request(before: AbortHandle, after: AbortHandle) -> bool;

/// Whether the runtime has been asked to stop the task of a handle.
pub open spec fn stop_requested(handle: AbortHandle) -> bool {
    exists|after: AbortHandle| stop_request(handle, after)
}

/// [`tokio::task::AbortHandle::abort`]: asks the runtime to stop the task.
///
/// The state that this changes is shared with the task, so the handle counts as
/// changed. When the task stops is a matter of the runtime, and no clause says
/// it.
#[verifier::external_body]
pub(crate) fn request_stop(handle: &mut AbortHandle)
    ensures
        stop_request(*old(handle), *final(handle)),
{
    handle.abort();
}

/// Whether two halves belong to one channel.
pub uninterp spec fn paired(sender: Sender<()>, receiver: Receiver<()>) -> bool;

/// [`tokio::sync::oneshot::channel`]: the two halves of a fresh channel, which
/// belong together.
#[verifier::external_body]
pub(crate) fn signal_channel() -> (halves: (Sender<()>, Receiver<()>))
    ensures
        paired(halves.0, halves.1),
{
    tokio::sync::oneshot::channel()
}

/// Whether sending on `sender` came to `outcome`.
pub uninterp spec fn came_of(sender: Sender<()>, outcome: Result<(), ()>) -> bool;

/// Whether something was sent to a receiver that was still there.
pub open spec fn told(receiver: Receiver<()>) -> bool {
    exists|sender: Sender<()>| #[trigger]
        paired(sender, receiver) && came_of(sender, Ok::<(), ()>(()))
}

/// [`tokio::sync::oneshot::Sender::send`]: sends the signal, and fails where
/// the receiver is gone.
///
/// Whether the receiver is gone is up to whoever holds it, so no clause says
/// when the call succeeds.
#[verifier::external_body]
pub(crate) fn send_signal(sender: Sender<()>) -> (outcome: Result<(), ()>)
    ensures
        came_of(sender, outcome),
{
    sender.send(())
}

/// What `lettre`'s address parser objects to in `text`, if anything.
pub uninterp spec fn address_fault(text: Seq<char>) -> Option<lettre::address::AddressError>;

/// [`lettre::Address`]'s `FromStr` and `Display`: parsing either objects, or
/// gives an address that is written exactly as it was read and has an `@`.
#[verifier::external_body]
pub(crate) fn parse_address(text: &str) -> (parsed: Result<String, lettre::address::AddressError>)
    ensures
        parsed matches Err(fault) ==> address_fault(text@) == Some(fault),
        parsed matches Ok(written) ==> address_fault(text@) is None && written@ == text@
            && text@.contains('@'),
{
    text.parse::<lettre::Address>().map(|address| address.to_string())
}

/// [`rand::random`]: any `u16`, evenly distributed. Nothing is known of the
/// one that comes.
#[verifier::external_body]
pub(crate) fn random_code() -> (code: u16) {
    rand::random()
}

/// What `lettre`'s message builder makes of the parts of a message with one
/// sender and one recipient, dated `date` seconds after the start of 1970.
pub uninterp spec fn message_of(
    sender_name: Option<Seq<char>>,
    sender: Seq<char>,
    subject: Seq<char>,
    content_type: ContentType,
    recipient: Seq<char>,
    date: u64,
    body: Seq<char>,
) -> Result<lettre::Message, MessageError>;

/// [`lettre::message::MessageBuilder::body`] on a builder that was given each
/// of the other parts: the message depends on these parts alone, because a
/// message that has a date is not given another.
///
/// Both addresses are ones that the parser accepts. The name of the sender can
/// be written: `lettre` trims it, and cannot write a line break inside. The
/// date is one that `lettre` can write: it ends with the year 9999.
#[verifier::external_body]
pub(crate) fn build_message(
    sender_name: Option<String>,
    sender: &str,
    subject: String,
    content_type: ContentType,
    recipient: &str,
    date: u64,
    body: String,
) -> (built: Result<lettre::Message, MessageError>)
    requires
        sender_name matches Some(name) ==> crate::mail::writable(name@),
        address_fault(sender@) is None,
        address_fault(recipient@) is None,
        date <= 253402300799,
    ensures
        built == message_of(
            match sender_name {
                Some(name) => Some(name@),
                None => None,
            },
            sender@,
            subject@,
            content_type,
            recipient@,
            date,
            body@,
        ),
{
    let content_type = match content_type {
        ContentType::TextPlain => lettre::message::header::ContentType::TEXT_PLAIN,
    };
    let body = lettre::message::Body::new(body);
    lettre::Message::builder()
        .from(lettre::message::Mailbox::new(sender_name, sender.parse().unwrap()))
        .subject(subject)
        .header(content_type)
        .to(lettre::message::Mailbox::new(None, recipient.parse().unwrap()))
        .header(body.encoding())
        .date(UNIX_EPOCH + Duration::from_secs(date))
        .body(body)
}

} // verus!
