//! The channel over which a connection reaches the task that waits for it.
use futures::channel::oneshot;
use vstd::prelude::*;

verus! {

/// The sending half of a one-shot channel, `futures::channel::oneshot::Sender`.
/// Nothing is claimed of what is inside.
#[verifier::external_type_specification]
#[verifier::external_body]
#[verifier::reject_recursive_types(T)]
pub struct ExSender<T>(oneshot::Sender<T>);

/// The receiving half of a one-shot channel, `futures::channel::oneshot::Receiver`.
/// Nothing is claimed of what is inside.
#[verifier::external_type_specification]
#[verifier::external_body]
#[verifier::reject_recursive_types(T)]
pub struct ExReceiver<T>(oneshot::Receiver<T>);

/// What a receiver resolves to when its sender is gone,
/// `futures::channel::oneshot::Canceled`. Nothing is claimed of what is inside.
#[verifier::external_type_specification]
#[verifier::external_body]
pub struct ExCanceled(oneshot::Canceled);

/// `futures::channel::oneshot::channel` makes the two halves of a new channel.
/// No two calls give the same halves, so nothing more is claimed of a result
/// than that it came of a call.
pub assume_specification<T>[ oneshot::channel::<T> ]() -> (halves: (
    oneshot::Sender<T>,
    oneshot::Receiver<T>,
));

/// `futures::channel::oneshot::Sender::send` either passes the value on to the
/// receiver or, when the receiver is gone, hands back the value that it was
/// given. Which of the two it does rests on what the receiving task has done
/// by then.
pub assume_specification<T>[ oneshot::Sender::<T>::send ](
    sender: oneshot::Sender<T>,
    t: T,
) -> (sent: Result<(), T>)
    ensures
        sent matches Err(back) ==> back == t,
;

/// `sender` was given `value` to pass on, and its receiver was there to take it.
pub open spec fn accepted<T>(sender: oneshot::Sender<T>, value: T) -> bool {
    exists|sent: Result<(), T>|
        sent is Ok && #[trigger] call_ensures(
            oneshot::Sender::<T>::send,
            (sender, value),
            sent,
        )
}

/// `sender` was given `value` to pass on, and handed it back: its receiver was gone.
pub open spec fn refused<T>(sender: oneshot::Sender<T>, value: T) -> bool {
    call_ensures(oneshot::Sender::<T>::send, (sender, value), Err(value))
}

/// `sender` and `receiver` are the two halves of one channel.
pub open spec fn paired<T>(sender: oneshot::Sender<T>, receiver: oneshot::Receiver<T>) -> bool {
    call_ensures(oneshot::channel::<T>, (), (sender, receiver))
}

} // verus!
