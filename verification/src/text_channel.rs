//! The channel through which the text of a YANG module is passed on: tokio's
//! watch channel.

use std::sync::Arc;
use tokio::sync::watch::{Receiver, Sender};
use vstd::prelude::*;

verus! {

/// What goes through the channel: the text of a module, once there is one.
pub type Text = Option<Arc<str>>;

/// The sending end of tokio's watch channel.
#[verifier::external_type_specification]
#[verifier::external_body]
#[verifier::reject_recursive_types(T)]
pub struct ExSender<T>(tokio::sync::watch::Sender<T>);

/// The receiving end of tokio's watch channel.
#[verifier::external_type_specification]
#[verifier::external_body]
#[verifier::reject_recursive_types(T)]
pub struct ExReceiver<T>(tokio::sync::watch::Receiver<T>);

/// The characters of a text, where there is one.
pub open spec fn text_view(text: Text) -> Option<Seq<char>> {
    match text {
        Some(t) => Some(t@),
        None => None,
    }
}

/// Whether the two are the ends of one channel: the receiver receives from the
/// channel whose only sender this is, and through which nothing was sent yet.
pub uninterp spec fn joined(tx: Sender<Option<Arc<str>>>, rx: Receiver<Option<Arc<str>>>) -> bool;

/// What the channel of this sender was made with.
pub uninterp spec fn initial(tx: Sender<Option<Arc<str>>>) -> Option<Seq<char>>;

/// Whether every receiver of the channel was gone when this sender was spent.
pub uninterp spec fn deserted(tx: Sender<Option<Arc<str>>>) -> bool;

/// Whether the channel of this receiver holds this at some time.
pub uninterp spec fn carried(rx: Receiver<Option<Arc<str>>>, text: Option<Seq<char>>) -> bool;

/// What the channel of this receiver holds in the end, once its sender is gone.
pub uninterp spec fn last(rx: Receiver<Option<Arc<str>>>) -> Option<Seq<char>>;

/// Whether the channel of this receiver was closed when that was last asked
/// through this receiver.
pub uninterp spec fn closed(rx: Receiver<Option<Arc<str>>>) -> bool;

/// Whether the two receive from one channel, whatever else is known of them.
pub open spec fn same_channel(a: Receiver<Text>, b: Receiver<Text>) -> bool {
    &&& forall|tx: Sender<Text>| #![trigger joined(tx, b)] joined(tx, a) == joined(tx, b)
    &&& forall|text: Option<Seq<char>>|
        #![trigger carried(b, text)]
        carried(a, text) == carried(b, text)
    &&& last(a) == last(b)
}

/// Calls `tokio::sync::watch::channel`: the two ends of a new channel, which
/// holds what it was made with.
#[verifier::external_body]
pub(crate) fn channel(init: Text) -> (r: (Sender<Text>, Receiver<Text>))
    ensures
        joined(r.0, r.1),
        initial(r.0) == text_view(init),
{
    tokio::sync::watch::channel(init)
}

/// Calls `tokio::sync::watch::Sender::send`, and drops the sender. The value is
/// taken unless every receiver is gone. Once it is taken the channel holds it,
/// and since its only sender is dropped the channel holds it in the end, and
/// never anything but that and what it was made with. If it is not taken, the
/// channel never holds anything but what it was made with. Returns whether the
/// value was taken. When a receiver sees it depends on other tasks and is not
/// stated.
#[verifier::external_body]
pub(crate) fn send(tx: Sender<Text>, value: Text) -> (r: bool)
    ensures
        r ==> forall|rx: Receiver<Text>| #[trigger]
            joined(tx, rx) ==> carried(rx, text_view(value)),
        r ==> forall|rx: Receiver<Text>, text: Option<Seq<char>>|
            joined(tx, rx) && #[trigger] carried(rx, text) ==> text == text_view(value) || text
                == initial(tx),
        r ==> forall|rx: Receiver<Text>| #[trigger]
            joined(tx, rx) ==> last(rx) == text_view(value),
        r == !deserted(tx),
        !r ==> forall|rx: Receiver<Text>, text: Option<Seq<char>>|
            joined(tx, rx) && #[trigger] carried(rx, text) ==> text == initial(tx),
        !r ==> forall|rx: Receiver<Text>| #[trigger] joined(tx, rx) ==> last(rx) == initial(tx),
{
    tx.send(value).is_ok()
}

/// Calls `tokio::sync::watch::Sender::borrow`, and drops the sender. Nothing was
/// sent through it, and since it is the only sender of its channel nothing will
/// be: the channel never holds anything but what it was made with, which is
/// returned.
#[verifier::external_body]
pub(crate) fn withdraw(tx: Sender<Text>) -> (r: Text)
    ensures
        text_view(r) == initial(tx),
        forall|rx: Receiver<Text>| #[trigger] joined(tx, rx) ==> last(rx) == text_view(r),
        forall|rx: Receiver<Text>, text: Option<Seq<char>>|
            joined(tx, rx) && #[trigger] carried(rx, text) ==> text == text_view(r),
{
    tx.borrow().clone()
}

/// Calls `tokio::sync::watch::Receiver::clone`: a receiver of the same channel
/// that has seen the same values.
#[verifier::external_body]
pub(crate) fn clone_receiver(rx: &Receiver<Text>) -> (r: Receiver<Text>)
    ensures
        r == *rx,
{
    rx.clone()
}

/// Calls `tokio::sync::watch::Receiver::is_closed`: whether the sender of the
/// channel is gone. Afterwards the receiver is one that has been asked, and
/// receives from the same channel. A receiver that outlives its sender was there
/// when the sender was spent, or the one was that it was cloned from. When a
/// sender goes depends on other tasks and is not stated.
#[verifier::external_body]
pub(crate) fn is_closed(rx: &mut Receiver<Text>) -> (r: bool)
    ensures
        r == closed(*final(rx)),
        r ==> forall|tx: Sender<Text>| #[trigger] joined(tx, *final(rx)) ==> !deserted(tx),
        same_channel(*old(rx), *final(rx)),
{
    rx.is_closed()
}

/// Calls `tokio::sync::watch::Receiver::borrow`: what the channel of this
/// receiver holds at the moment. Where the channel was found closed before, that
/// is what it holds in the end; otherwise it depends on other tasks which of the
/// things that it holds at some time this is.
#[verifier::external_body]
pub(crate) fn current(rx: &Receiver<Text>) -> (r: Text)
    ensures
        carried(*rx, text_view(r)),
        closed(*rx) ==> text_view(r) == last(*rx),
{
    rx.borrow().clone()
}

/// Calls `std::sync::Arc::clone`: another handle on the same text.
#[verifier::external_body]
pub(crate) fn share(text: &Arc<str>) -> (r: Arc<str>)
    ensures
        r@ == text@,
{
    Arc::clone(text)
}

} // verus!
