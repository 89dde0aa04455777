//! The channels over which the search hears commands and reports what it
//! finds. What travels over them is decided elsewhere; the channels themselves
//! are the `crossbeam_channel` crate's.

use vstd::prelude::*;

use crate::search::SearchCommand;
use crate::Information;

verus! {

/// `crossbeam_channel::Receiver`, the end of a channel that takes; nothing
/// is known of what is inside it.
#[verifier::external_type_specification]
#[verifier::external_body]
#[verifier::reject_recursive_types(T)]
pub struct ExReceiver<T>(crossbeam_channel::Receiver<T>);

/// `crossbeam_channel::Sender`, the end of a channel that gives; nothing is
/// known of what is inside it.
#[verifier::external_type_specification]
#[verifier::external_body]
#[verifier::reject_recursive_types(T)]
pub struct ExSender<T>(crossbeam_channel::Sender<T>);

/// `crossbeam_channel::Receiver::try_recv`: the next command if one is
/// waiting, without waiting for one. What comes back depends on what the
/// other end has sent, so nothing is claimed of it.
#[verifier::external_body]
pub(crate) fn try_receive(receiver: &crossbeam_channel::Receiver<SearchCommand>) -> (r: Option<
    SearchCommand,
>)
{
    receiver.try_recv().ok()
}

/// `crossbeam_channel::Sender::send`: hands the information to the channel
/// and says whether the other end was still there to take it. On a channel
/// without a bound it does not wait; on a bounded one it waits for room.
#[verifier::external_body]
pub(crate) fn send_information(
    sender: &crossbeam_channel::Sender<Information>,
    information: Information,
) -> (delivered: bool)
{
    sender.send(information).is_ok()
}

/// `crossbeam_channel::never`: the taking end of a channel over which
/// nothing ever comes.
#[verifier::external_body]
pub(crate) fn silent_receiver() -> (r: crossbeam_channel::Receiver<SearchCommand>)
{
    crossbeam_channel::never()
}

/// `crossbeam_channel::unbounded`: the giving end of a new channel, with
/// nobody at the other end.
#[verifier::external_body]
pub(crate) fn unheard_sender() -> (r: crossbeam_channel::Sender<Information>)
{
    crossbeam_channel::unbounded().0
}

} // verus!
