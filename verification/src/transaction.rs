//! Transactions: frames that the server applies together or not at all.
use vstd::prelude::*;
use crate::frame::{bodiless, Command, Frame, TransmissionView};
use crate::session::{after_send, Session, SessionStateView, SessionView};
use crate::text::{decimal, push_decimal};

verus! {

/// The identifier of a session's `n`th transaction.
pub open spec fn transaction_id_text(n: u32) -> Seq<char> {
    "tx/"@ + decimal(n as nat)
}

/// A transaction of a session, under its identifier.
pub struct Transaction<'a> {
    pub id: String,
    pub session: &'a mut Session,
}

impl<'a> Transaction<'a> {
    /// A transaction under the session's next transaction identifier.
    pub fn new(session: &'a mut Session) -> (t: Transaction<'a>)
        requires
            old(session)@.state.next_transaction_id < u32::MAX,
        ensures
            t.id@ == transaction_id_text(old(session)@.state.next_transaction_id),
            t.session@ == (SessionView {
                state: SessionStateView {
                    next_transaction_id: (old(session)@.state.next_transaction_id + 1) as u32,
                    ..old(session)@.state
                },
                ..old(session)@
            }),
            *final(session) == *final(t.session),
    {
        let n = session.generate_transaction_id();
        let mut id = "tx/".to_owned();
        push_decimal(&mut id, n as u64);
        Transaction { id, session }
    }

    /// Opens the transaction.
    pub fn begin(&mut self)
        ensures
            final(self).id == old(self).id,
            *final(final(self).session) == *final(old(self).session),
            final(self).session@ == after_send(old(self).session@,
                TransmissionView::CompleteFrame(bodiless(Command::Begin, seq![("transaction"@, old(self).id@)]))),
    {
        let begin_frame = Frame::begin(self.id.as_str());
        self.session.send_frame(begin_frame);
    }

    /// Applies the transaction.
    pub fn commit(self)
        ensures
            final(self.session)@ == after_send(old(self.session)@,
                TransmissionView::CompleteFrame(bodiless(Command::Commit, seq![("transaction"@, self.id@)]))),
    {
        let commit_frame = Frame::commit(self.id.as_str());
        self.session.send_frame(commit_frame);
    }

    /// Drops the transaction.
    pub fn abort(self)
        ensures
            final(self.session)@ == after_send(old(self.session)@,
                TransmissionView::CompleteFrame(bodiless(Command::Abort, seq![("transaction"@, self.id@)]))),
    {
        let abort_frame = Frame::abort(self.id.as_str());
        self.session.send_frame(abort_frame);
    }
}

} // verus!
