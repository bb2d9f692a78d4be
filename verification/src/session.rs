use vstd::prelude::*;
use crate::backend::Backend;
use crate::error::ArconStateError;
use crate::handles::{Handle, Metakey, StateType};
use crate::model::Store;
use crate::ops::StateStore;

verus! {

/// The one way to a backend while it lasts. A session starts in its
/// registration phase, in which the registration token can be drawn, once;
/// the first activation or operation ends that phase for good.
pub struct Session<B: Backend> {
    backend: B,
    token_drawn: bool,
    activated: bool,
}

/// The right to register states, drawn from a fresh session. It holds the
/// session until it is handed back.
pub struct RegistrationToken<B: Backend> {
    session: Session<B>,
}

/// What a backend is shown when it is asked to register a state. Only a
/// registration token can make one, so that states are registered through
/// tokens and in no other way.
pub struct RegistrationPermit {
    seal: (),
}

impl<B: Backend> Session<B> {
    pub closed spec fn backend(&self) -> B {
        self.backend
    }

    pub closed spec fn token_drawn(&self) -> bool {
        self.token_drawn
    }

    pub closed spec fn activated(&self) -> bool {
        self.activated
    }

    pub open spec fn inv(&self) -> bool {
        self.backend().inv()
    }

    pub open spec fn store(&self) -> Store {
        self.backend().store()
    }

    /// Opens a session on the backend.
    pub fn new(backend: B) -> (session: Self)
        ensures
            session.backend() == backend,
            !session.token_drawn(),
            !session.activated(),
    {
        Session { backend, token_drawn: false, activated: false }
    }

    pub fn has_drawn_token(&self) -> (drawn: bool)
        ensures
            drawn == self.token_drawn(),
    {
        self.token_drawn
    }

    pub fn is_activated(&self) -> (activated: bool)
        ensures
            activated == self.activated(),
    {
        self.activated
    }

    /// Draws the registration token. A session whose token was drawn before,
    /// or on which anything was activated, refuses and comes back as it was.
    pub fn registration_token(self) -> (r: Result<RegistrationToken<B>, Session<B>>)
        ensures
            match r {
                Ok(token) => {
                    &&& !self.token_drawn()
                    &&& !self.activated()
                    &&& token.backend() == self.backend()
                    &&& self.inv() ==> token.inv()
                },
                Err(session) => {
                    &&& self.token_drawn() || self.activated()
                    &&& session == self
                },
            },
    {
        if self.token_drawn || self.activated {
            Err(self)
        } else {
            let mut session = self;
            session.token_drawn = true;
            Ok(RegistrationToken { session })
        }
    }

    /// Ends the registration phase: a bundle was bound to the session.
    pub fn mark_activated(&mut self)
        ensures
            final(self).backend() == old(self).backend(),
            final(self).token_drawn() == old(self).token_drawn(),
            final(self).activated(),
    {
        self.activated = true;
    }

    /// The backend, for the operations on registered states. This ends the
    /// registration phase.
    pub fn ops(&mut self) -> (backend: &mut B)
        ensures
            *backend == old(self).backend(),
            final(self).backend() == *final(backend),
            final(self).token_drawn() == old(self).token_drawn(),
            final(self).activated(),
    {
        self.activated = true;
        &mut self.backend
    }

    /// The backend, for looking at what it holds.
    pub fn peek(&self) -> (backend: &B)
        ensures
            *backend == self.backend(),
    {
        &self.backend
    }

    /// Ends the session and hands the backend out, as the session left it.
    pub fn close(self) -> (backend: B)
        ensures
            backend == self.backend(),
    {
        self.backend
    }
}

impl<B: Backend> RegistrationToken<B> {
    pub closed spec fn backend(&self) -> B {
        self.session.backend
    }

    /// The backend is consistent, and the session is in its registration phase.
    pub closed spec fn inv(&self) -> bool {
        self.session.backend.inv() && self.session.token_drawn && !self.session.activated
    }

    pub open spec fn store(&self) -> Store {
        self.backend().store()
    }

    pub proof fn inv_gives_backend_inv(&self)
        requires
            self.inv(),
        ensures
            self.backend().inv(),
    {
    }

    /// Registers the state that the handle declares with the session's backend.
    pub fn register<S: StateType, IK: Metakey, N: Metakey>(
        &mut self,
        handle: &mut Handle<S, IK, N>,
    ) -> (r: Result<(), ArconStateError>)
        requires
            old(self).inv(),
        ensures
            final(self).inv(),
            final(handle).name() == old(handle).name(),
            final(handle).state() == old(handle).state(),
            final(handle).item_key() == old(handle).item_key(),
            final(handle).namespace() == old(handle).namespace(),
            match r {
                Ok(()) => {
                    &&& old(self).store().accepts(old(handle).name(), S::kind())
                    &&& final(self).store() == old(self).store().with_kind(
                        old(handle).name(),
                        S::kind(),
                    )
                    &&& final(handle).registered()
                },
                Err(_) => {
                    &&& !old(self).store().accepts(old(handle).name(), S::kind())
                    &&& final(self).store() == old(self).store()
                    &&& final(handle).registered() == old(handle).registered()
                },
            },
    {
        let permit = RegistrationPermit { seal: () };
        self.session.backend.register(&permit, handle)
    }

    /// Hands the session back. Its token is spent.
    pub fn finish(self) -> (session: Session<B>)
        requires
            self.inv(),
        ensures
            session.inv(),
            session.backend() == self.backend(),
            session.token_drawn(),
            !session.activated(),
    {
        self.session
    }
}

} // verus!
