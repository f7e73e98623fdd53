//! The per-request context: who is asking.
//!
//! The *root* context is reserved for the system itself; its user id is 0,
//! and no ordinary user may carry that id.

use vstd::prelude::*;

verus! {

/// Why a request context could not be built.
#[derive(Clone, Copy, Debug, PartialEq, Eq)]
pub enum Error {
    /// User id 0 belongs to the root context alone.
    CannotUseRootContext,
}

/// The authenticated subject of one request.
pub struct RequestContext {
    user_id: i64,
}

impl RequestContext {
    /// The user id this context speaks for.
    pub closed spec fn spec_user_id(&self) -> i64 {
        self.user_id
    }

    /// The root context, used internally by the system: always id 0.
    pub fn root_context() -> (ctx: Self)
        ensures
            ctx.spec_user_id() == 0,
    {
        RequestContext { user_id: 0 }
    }

    /// A context for an ordinary user: any id but the root's 0.
    pub fn new(user_id: i64) -> (res: Result<Self, Error>)
        ensures
            res is Err <==> user_id == 0,
            res matches Ok(ctx) ==> ctx.spec_user_id() == user_id,
            res is Err ==> res == Err::<Self, Error>(Error::CannotUseRootContext),
    {
        if user_id == 0 {
            Err(Error::CannotUseRootContext)
        } else {
            Ok(Self { user_id })
        }
    }

    /// The id this context carries.
    pub fn user_id(&self) -> (id: i64)
        ensures
            id == self.spec_user_id(),
    {
        self.user_id
    }
}

} // verus!
