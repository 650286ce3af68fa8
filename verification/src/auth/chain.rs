//! How several resolvers settle who a caller is.
//!
//! The resolvers are asked in turn. One that does not know the kind of credential
//! passes; the first that does not pass decides. Asking is for the caller of this
//! module: it follows the actions and hands back what each resolver said.

use crate::auth::resolver::{AuthError, ResolvedIdentity};
use crate::error::MacpError;
use crate::security::AuthIdentity;
use vstd::prelude::*;
use vstd::std_specs::convert::FromSpec;

verus! {

/// What to do next.
#[derive(Debug)]
pub enum ChainAction {
    /// Ask the resolver at this place.
    Ask(usize),
    /// Stop with this result.
    Done(Result<AuthIdentity, MacpError>),
}

/// What follows once the resolvers before `next` have passed.
pub open spec fn asks_next(resolvers: nat, next: int) -> ChainAction {
    if next < resolvers {
        ChainAction::Ask(next as usize)
    } else {
        ChainAction::Done(Err(MacpError::Unauthenticated))
    }
}

/// What follows once the resolver at a place has spoken.
pub open spec fn follows(
    resolvers: nat,
    asked: int,
    outcome: Result<Option<ResolvedIdentity>, AuthError>,
) -> ChainAction {
    match outcome {
        Ok(Some(identity)) => ChainAction::Done(Ok(AuthIdentity::from_spec(identity))),
        Ok(None) => asks_next(resolvers, asked + 1),
        Err(_) => ChainAction::Done(Err(MacpError::Unauthenticated)),
    }
}

/// What to do first.
pub fn begin(resolvers: usize) -> (r: ChainAction)
    ensures
        r == asks_next(resolvers as nat, 0),
{
    if resolvers > 0 {
        ChainAction::Ask(0)
    } else {
        ChainAction::Done(Err(MacpError::Unauthenticated))
    }
}

/// What to do once the resolver at a place has spoken.
pub fn advance(
    resolvers: usize,
    asked: usize,
    outcome: Result<Option<ResolvedIdentity>, AuthError>,
) -> (r: ChainAction)
    requires
        asked < resolvers,
    ensures
        r == follows(resolvers as nat, asked as int, outcome),
{
    match outcome {
        Ok(Some(identity)) => ChainAction::Done(Ok(AuthIdentity::from(identity))),
        Ok(None) => {
            if asked + 1 < resolvers {
                ChainAction::Ask(asked + 1)
            } else {
                ChainAction::Done(Err(MacpError::Unauthenticated))
            }
        },
        Err(_) => ChainAction::Done(Err(MacpError::Unauthenticated)),
    }
}

/// What the chain comes to from a place on, given what each resolver would say.
pub open spec fn settles(
    outcomes: Seq<Result<Option<ResolvedIdentity>, AuthError>>,
    from: int,
) -> Result<AuthIdentity, MacpError>
    decreases outcomes.len() - from,
{
    if 0 <= from < outcomes.len() {
        match follows(outcomes.len(), from, outcomes[from]) {
            ChainAction::Done(result) => result,
            ChainAction::Ask(_) => settles(outcomes, from + 1),
        }
    } else {
        Err(MacpError::Unauthenticated)
    }
}

/// The first resolver that does not pass decides: an identity that it found is
/// the caller, and a credential that it refused makes no one else's guess good.
pub proof fn first_to_speak_decides(
    outcomes: Seq<Result<Option<ResolvedIdentity>, AuthError>>,
    from: int,
    first: int,
)
    requires
        0 <= from <= first < outcomes.len() <= usize::MAX,
        forall|i: int| from <= i < first ==> #[trigger] outcomes[i] == Ok::<
            Option<ResolvedIdentity>,
            AuthError,
        >(None),
        outcomes[first] != Ok::<Option<ResolvedIdentity>, AuthError>(None),
    ensures
        settles(outcomes, from) == match outcomes[first] {
            Ok(Some(identity)) => Ok::<AuthIdentity, MacpError>(AuthIdentity::from_spec(identity)),
            _ => Err(MacpError::Unauthenticated),
        },
    decreases first - from,
{
    if from < first {
        first_to_speak_decides(outcomes, from + 1, first);
    }
}

/// Where every resolver passes, no one is identified.
pub proof fn no_one_without_a_claim(
    outcomes: Seq<Result<Option<ResolvedIdentity>, AuthError>>,
    from: int,
)
    requires
        0 <= from <= outcomes.len() <= usize::MAX,
        forall|i: int| from <= i < outcomes.len() ==> #[trigger] outcomes[i] == Ok::<
            Option<ResolvedIdentity>,
            AuthError,
        >(None),
    ensures
        settles(outcomes, from) == Err::<AuthIdentity, MacpError>(MacpError::Unauthenticated),
    decreases outcomes.len() - from,
{
    if from < outcomes.len() {
        no_one_without_a_claim(outcomes, from + 1);
    }
}

/// A resolver that found an identity settles the matter with it as it is, one that
/// refuses settles it too, and one that passes hands on to the next, until there is
/// none.
pub proof fn resolvers_speak_in_turn(
    resolvers: nat,
    asked: int,
    outcome: Result<Option<ResolvedIdentity>, AuthError>,
)
    requires
        0 <= asked < resolvers <= usize::MAX,
    ensures
        outcome is Err ==> follows(resolvers, asked, outcome) == ChainAction::Done(
            Err(MacpError::Unauthenticated),
        ),
        outcome matches Ok(Some(found)) ==> (follows(resolvers, asked, outcome) matches
            ChainAction::Done(Ok(identity)) && {
            &&& identity.sender == found.sender
            &&& identity.allowed_modes == found.allowed_modes
            &&& identity.can_start_sessions == found.can_start_sessions
            &&& identity.max_open_sessions == found.max_open_sessions
            &&& identity.can_manage_mode_registry == found.can_manage_mode_registry
            &&& identity.is_observer == found.is_observer
        }),
        outcome matches Ok(None) ==> asked + 1 < resolvers ==> (follows(
            resolvers,
            asked,
            outcome,
        ) matches ChainAction::Ask(next) && next == asked + 1),
        outcome matches Ok(None) ==> asked + 1 == resolvers ==> follows(resolvers, asked, outcome)
            == ChainAction::Done(Err(MacpError::Unauthenticated)),
        asks_next(resolvers, 0) == ChainAction::Ask(0),
        asks_next(0, 0) == ChainAction::Done(Err(MacpError::Unauthenticated)),
{
}

} // verus!
