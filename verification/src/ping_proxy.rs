//! The clock collaborator's decision core: who may ask it for a tick-back,
//! and where the tick is delivered.
//!
//! The engine, when a round is open but not yet due, asks this collaborator
//! to deliver a tick later. The collaborator accepts such a request only
//! from its one configured caller, and always delivers the tick back to
//! that caller. The asynchronous delivery itself is the host's work; this
//! type holds the configuration and takes the decision.

use vstd::prelude::*;

use crate::errors::GameError;
use crate::storage::Address;

verus! {

/// The clock collaborator's state: the single contract allowed to request
/// tick-backs, which is also where every tick is delivered.
pub struct PingProxy {
    pub caller_address: Address,
}

impl PingProxy {
    /// A fresh proxy with no caller configured (`0` sentinel).
    pub fn init() -> (s: PingProxy)
        ensures
            s.caller_address == 0,
    {
        PingProxy { caller_address: 0 }
    }

    /// Decides a tick-back request from `caller`: authorized exactly when
    /// `caller` is the configured one, and then the tick is owed to that
    /// configured address.
    pub fn pong(&self, caller: Address) -> (r: Result<Address, GameError>)
        ensures
            r is Ok <==> caller == self.caller_address,
            r matches Ok(target) ==> target == self.caller_address,
            r matches Err(e) ==> e == GameError::Unauthorized,
    {
        if caller == self.caller_address {
            Ok(self.caller_address)
        } else {
            Err(GameError::Unauthorized)
        }
    }

    /// Configures the one address allowed to request tick-backs.
    pub fn set_caller(&mut self, caller: Address)
        ensures
            final(self).caller_address == caller,
    {
        self.caller_address = caller;
    }
}

} // verus!
