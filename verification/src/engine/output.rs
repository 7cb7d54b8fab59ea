//! Asking for actions.

use vstd::prelude::*;
use vstd::string::*;

use crate::engine::state::{Action, Engine, EngineModel, Moment};
use crate::geom::clone_displays;
use crate::identity::DeviceId;
use crate::keyed::position;
use crate::lists::{empty_list, push_item};
use crate::protocol::Message;
use crate::view::Notice;

verus! {

impl Engine {
    /// Takes what was asked for since the last call.
    pub fn take_actions(&mut self) -> (out: Vec<Action>)
        ensures
            out.deep_view() == old(self).deep_view().out,
            final(self).deep_view() == (EngineModel {
                out: Seq::empty(),
                ..old(self).deep_view()
            }),
    {
        let mut out: Vec<Action> = empty_list();
        std::mem::swap(&mut self.out, &mut out);
        out
    }

    pub(crate) fn emit(&mut self, action: Action)
        ensures
            final(self).deep_view() == old(self).deep_view().does(action.deep_view()),
    {
        push_item(&mut self.out, action);
    }

    pub(crate) fn inform(&mut self, message: &str)
        ensures
            final(self).deep_view() == old(self).deep_view().informs(message@),
    {
        self.emit(Action::Notify(Notice::info(message)));
    }

    pub(crate) fn warn(&mut self, message: &str)
        ensures
            final(self).deep_view() == old(self).deep_view().warns(message@),
    {
        self.emit(Action::Notify(Notice::warning(message)));
    }

    pub(crate) fn alarm(&mut self, message: &str)
        ensures
            final(self).deep_view() == old(self).deep_view().alarms(message@),
    {
        self.emit(Action::Notify(Notice::error(message)));
    }

    pub(crate) fn publish(&mut self, at: Moment)
        ensures
            final(self).deep_view() == old(self).deep_view().publishes(at),
    {
        let snapshot = self.snapshot(at.unix);
        self.emit(Action::Publish(Box::new(snapshot)));
    }

    pub(crate) fn send(&mut self, peer: &DeviceId, message: Message)
        ensures
            final(self).deep_view() == old(self).deep_view().sends(peer@, message.deep_view()),
    {
        let at: usize = position(&self.sessions, peer);
        if at < self.sessions.len() {
            let connection: u64 = self.sessions[at].connection;
            self.emit(Action::Send { connection, message });
        }
    }

    pub(crate) fn send_to(&mut self, peer: &DeviceId, message: Message)
        ensures
            final(self).deep_view() == old(self).deep_view().sends_either(
                peer@,
                message.deep_view(),
            ),
    {
        let at: usize = position(&self.sessions, peer);
        if at < self.sessions.len() {
            let connection: u64 = self.sessions[at].connection;
            self.emit(Action::SendEither { connection, message });
        }
    }

    pub(crate) fn send_displays(&mut self, peer: &DeviceId)
        ensures
            final(self).deep_view() == old(self).deep_view().sends_displays(peer@),
    {
        let displays = clone_displays(&self.displays);
        self.send(peer, Message::Displays { displays });
    }
}

} // verus!
