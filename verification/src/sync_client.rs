//! The synchronous client's reconnect policy: one full exchange over the
//! current connection (created lazily when absent), and on an I/O failure
//! exactly one more over a brand-new connection. The surrounding client
//! performs the socket work and feeds each attempt's outcome back in.

use vstd::prelude::*;

verus! {

/// What one full encode/write/read/decode exchange came to.
pub enum ExchangeResult {
    /// The decoded response payload.
    Reply(Vec<u8>),
    /// An I/O failure anywhere in the exchange (connect, write, read or
    /// timeout), with its message bytes.
    IoFailure(Vec<u8>),
}

/// What the client does next.
pub enum SendAction {
    /// Drop the current connection and run the exchange once more over a
    /// brand-new one.
    DiscardAndRetry,
    /// Hand this reply to the caller.
    ReturnReply(Vec<u8>),
    /// Surface this error to the caller.
    ReturnError(Vec<u8>),
}

/// The state of one `send` call: how many exchanges have been started and
/// whether the call has concluded.
pub struct SendState {
    pub attempts: u64,
    pub done: bool,
}

impl SendState {
    /// A send never starts more than two exchanges.
    pub open spec fn wf(self) -> bool {
        self.attempts <= 2
    }
}

/// How a send call steps: a reply concludes it; the first failure asks for
/// the single retry; a failure of the retry concludes it with the error.
pub open spec fn spec_send_step(s: SendState, r: ExchangeResult) -> (SendState, SendAction) {
    match r {
        ExchangeResult::Reply(p) => (
            SendState { attempts: s.attempts, done: true },
            SendAction::ReturnReply(p),
        ),
        ExchangeResult::IoFailure(m) => {
            if s.attempts <= 1 {
                (SendState { attempts: 2, done: false }, SendAction::DiscardAndRetry)
            } else {
                (SendState { attempts: s.attempts, done: true }, SendAction::ReturnError(m))
            }
        },
    }
}

/// Begins a `send` call: the first exchange is under way.
pub fn send_begin() -> (s: SendState)
    ensures
        s.wf(),
        s.attempts == 1,
        !s.done,
{
    SendState { attempts: 1, done: false }
}

/// Feeds one exchange's outcome in and decides what to do next: a reply is
/// returned as is; an I/O failure on the first exchange asks the caller to
/// discard the connection and retry exactly once; an I/O failure on the
/// retry is surfaced — never a further attempt.
pub fn send_step(s: &mut SendState, r: ExchangeResult) -> (a: SendAction)
    requires
        old(s).wf(),
        !old(s).done,
        old(s).attempts >= 1,
    ensures
        final(s).wf(),
        (*final(s), a) == spec_send_step(*old(s), r),
        r matches ExchangeResult::Reply(p) ==> a == SendAction::ReturnReply(p) && final(s).done,
        r is IoFailure && old(s).attempts == 1 ==> a == SendAction::DiscardAndRetry
            && !final(s).done && final(s).attempts == 2,
        r matches ExchangeResult::IoFailure(m) ==> (old(s).attempts == 2 ==> a
            == SendAction::ReturnError(m) && final(s).done),
        final(s).done ==> final(s).attempts == old(s).attempts,
{
    match r {
        ExchangeResult::Reply(p) => {
            s.done = true;
            SendAction::ReturnReply(p)
        },
        ExchangeResult::IoFailure(m) => {
            if s.attempts <= 1 {
                s.attempts = 2;
                SendAction::DiscardAndRetry
            } else {
                s.done = true;
                SendAction::ReturnError(m)
            }
        },
    }
}

/// At-most-one-reconnect: whatever the outcomes of the first exchange and
/// of the retry are, a send that begins with one exchange asks for a retry
/// at most once — the step after a retry either returns the reply or
/// surfaces the error, never a third exchange.
pub proof fn lemma_at_most_one_retry(r1: ExchangeResult, r2: ExchangeResult)
    ensures
        ({
            let s0 = SendState { attempts: 1, done: false };
            let (s1, a1) = spec_send_step(s0, r1);
            let (s2, a2) = spec_send_step(s1, r2);
            &&& a1 is DiscardAndRetry ==> r1 is IoFailure
            &&& a1 is DiscardAndRetry ==> !(a2 is DiscardAndRetry) && s2.done
            &&& !(a1 is DiscardAndRetry) ==> s1.done
        }),
{
}

} // verus!
