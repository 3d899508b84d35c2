use vstd::prelude::*;

verus! {

/// The depth budget of a secondary ray (reflected or refracted) cast from a
/// surface hit with budget `remaining`, or none when no such ray is cast:
/// the surface does not pass that kind of light on (`contributes` is false)
/// or the budget is spent.
pub open spec fn next_depth(contributes: bool, remaining: u8) -> Option<u8> {
    if contributes && remaining > 0 {
        Some((remaining - 1) as u8)
    } else {
        None
    }
}

/// The budget left after a chain of nested secondary rays that starts with
/// budget `start`, where `contributes[i]` says whether the `i`-th surface
/// on the chain passes light on; none once a surface ends the chain.
pub open spec fn budget_after(start: u8, contributes: Seq<bool>) -> Option<u8>
    decreases contributes.len(),
{
    if contributes.len() == 0 {
        Some(start)
    } else {
        match budget_after(start, contributes.drop_last()) {
            Some(d) => next_depth(contributes.last(), d),
            None => None,
        }
    }
}

/// Decides whether a reflected or refracted ray is cast from a surface hit
/// with budget `remaining`, and with which budget.
pub fn secondary_depth(contributes: bool, remaining: u8) -> (r: Option<u8>)
    ensures
        r == next_depth(contributes, remaining),
        r matches Some(d) ==> d < remaining,
{
    if contributes && remaining > 0 {
        Some(remaining - 1)
    } else {
        None
    }
}

/// With the budget spent, no secondary ray is cast, whatever the surface.
pub proof fn spent_budget_casts_nothing(contributes: bool)
    ensures
        next_depth(contributes, 0) is None,
{
}

/// Secondary rays cannot nest without bound, even between two facing
/// mirrors: each level costs one unit of budget, so a chain that starts with
/// budget `start` holds at most `start` secondary rays.
pub proof fn secondary_chains_are_bounded(start: u8, contributes: Seq<bool>)
    ensures
        budget_after(start, contributes) matches Some(d) ==> d == start - contributes.len(),
        contributes.len() > start ==> budget_after(start, contributes) is None,
    decreases contributes.len(),
{
    if contributes.len() > 0 {
        secondary_chains_are_bounded(start, contributes.drop_last());
    }
}

} // verus!
