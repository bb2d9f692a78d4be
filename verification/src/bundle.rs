use vstd::prelude::*;
use crate::backend::Backend;
use crate::error::ArconStateError;
use crate::handles::{Handle, Metakey, StateType};
use crate::model::StateKind;
use crate::session::{RegistrationToken, Session};

verus! {

/// The handles of one operator, registered and activated together. A handle
/// is a bundle; so is a pair of bundles.
pub trait Bundle {
    /// Whether every handle of the bundle is registered.
    spec fn registered(&self) -> bool;

    /// The states that the bundle declares, in the order in which they are
    /// registered.
    spec fn declared(&self) -> Seq<(Seq<char>, StateKind)>;

    fn is_registered(&self) -> (registered: bool)
        ensures
            registered == self.registered(),
    ;

    /// Binds the bundle to the session for operating on its states, which
    /// are then reached through the session. A bundle with a handle that is
    /// not registered cannot be used: the call tells so and binds nothing.
    fn activate<B: Backend>(&self, session: &mut Session<B>) -> (usable: bool)
        ensures
            usable == self.registered(),
            final(session).backend() == old(session).backend(),
            final(session).token_drawn() == old(session).token_drawn(),
            final(session).activated() == (old(session).activated() || usable),
    {
        let usable = self.is_registered();
        if usable {
            session.mark_activated();
        }
        usable
    }

    /// Registers the declared states one after the other, up to the first
    /// that the backend refuses.
    fn register_states<B: Backend>(&mut self, token: &mut RegistrationToken<B>) -> (r: Result<
        (),
        ArconStateError,
    >)
        requires
            old(token).inv(),
        ensures
            final(token).inv(),
            final(self).declared() == old(self).declared(),
            match r {
                Ok(()) => {
                    &&& old(token).store().accepts_all(old(self).declared())
                    &&& final(token).store() == old(token).store().with_kinds(old(self).declared())
                    &&& final(self).registered()
                },
                Err(_) => {
                    &&& !old(token).store().accepts_all(old(self).declared())
                    &&& final(token).store() == old(token).store().with_kinds(
                        old(self).declared().take(
                            old(token).store().first_refused(old(self).declared()),
                        ),
                    )
                },
            },
    ;
}

impl<S: StateType, IK: Metakey, N: Metakey> Bundle for Handle<S, IK, N> {
    open spec fn registered(&self) -> bool {
        Handle::registered(self)
    }

    open spec fn declared(&self) -> Seq<(Seq<char>, StateKind)> {
        seq![(self.name(), S::kind())]
    }

    fn is_registered(&self) -> (registered: bool) {
        Handle::is_registered(self)
    }

    fn register_states<B: Backend>(&mut self, token: &mut RegistrationToken<B>) -> (r: Result<
        (),
        ArconStateError,
    >) {
        proof {
            let declared = self.declared();
            let store = token.store();
            let next = store.with_kind(self.name(), S::kind());
            assert(declared.drop_first() =~= Seq::empty());
            assert(declared.first() == (self.name(), S::kind()));
            assert(next.with_kinds(Seq::empty()) == next);
            assert(next.accepts_all(Seq::empty()));
            assert(declared.take(0) =~= Seq::empty());
            assert(store.with_kinds(Seq::empty()) == store);
        }
        token.register(self)
    }
}

impl<X: Bundle, Y: Bundle> Bundle for (X, Y) {
    open spec fn registered(&self) -> bool {
        self.0.registered() && self.1.registered()
    }

    open spec fn declared(&self) -> Seq<(Seq<char>, StateKind)> {
        self.0.declared() + self.1.declared()
    }

    fn is_registered(&self) -> (registered: bool) {
        self.0.is_registered() && self.1.is_registered()
    }

    fn register_states<B: Backend>(&mut self, token: &mut RegistrationToken<B>) -> (r: Result<
        (),
        ArconStateError,
    >) {
        let ghost fst = self.0.declared();
        let ghost snd = self.1.declared();
        let ghost store = token.store();
        proof {
            store.lemma_declared_in_turn(fst, snd);
            store.with_kinds(fst).lemma_refused_in_range(snd);
        }
        match self.0.register_states(token) {
            Ok(()) => {},
            Err(e) => {
                assert((fst + snd).take(store.first_refused(fst)) =~= fst.take(
                    store.first_refused(fst),
                ));
                return Err(e);
            },
        }
        match self.1.register_states(token) {
            Ok(()) => Ok(()),
            Err(e) => {
                proof {
                    let k = store.with_kinds(fst).first_refused(snd);
                    assert((fst + snd).take(fst.len() + k) =~= fst + snd.take(k));
                    store.lemma_declared_in_turn(fst, snd.take(k));
                }
                Err(e)
            },
        }
    }
}

} // verus!
