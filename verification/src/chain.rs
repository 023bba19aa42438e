//! The redirect driver's state: the ordered chain of locators visited in
//! one load, used for cycle detection and for bounding the number of hops.
//! The chain is discarded when the load completes.

use vstd::prelude::*;

use crate::errors::FetchError;
use crate::url::{spec_follow, Url, UrlView};

verus! {

/// The most locators one load may visit: the starting one and at most
/// eight followers; reaching the bound fails the load.
pub const MAX_REDIRECTS: usize = 10;

/// The chain as mathematics: each visited locator's view, in order.
pub open spec fn chain_view(c: Seq<Url>) -> Seq<UrlView> {
    c.map_values(|u: Url| u@)
}

/// `u` is already a member of the chain.
pub open spec fn spec_chain_contains(c: Seq<UrlView>, u: UrlView) -> bool {
    exists|i: int| 0 <= i < c.len() && c[i] == u
}

/// What one redirect step does to the chain: resolve the location against
/// the last member; fail on a locator already visited, then on a chain
/// that would reach the bound; otherwise append the follower.
pub open spec fn spec_chain_push(c: Seq<UrlView>, loc: Seq<char>) -> Result<
    Seq<UrlView>,
    FetchError,
>
    recommends
        c.len() > 0,
{
    match spec_follow(c.last(), loc) {
        Err(e) => Err(e),
        Ok(next) => {
            if spec_chain_contains(c, next) {
                Err(FetchError::RedirectCycle)
            } else if c.len() + 1 >= MAX_REDIRECTS {
                Err(FetchError::TooManyRedirects)
            } else {
                Ok(c.push(next))
            }
        },
    }
}

/// Start a chain at the locator a load was asked for.
pub fn chain_start(url: Url) -> (c: Vec<Url>)
    ensures
        c@.len() == 1,
        c@[0] == url,
{
    let mut c = Vec::new();
    c.push(url);
    c
}

/// The chain already holds this locator.
fn chain_contains(chain: &Vec<Url>, u: &Url) -> (r: bool)
    ensures
        r == spec_chain_contains(chain_view(chain@), u@),
{
    let n = chain.len();
    let mut i: usize = 0;
    while i < n
        invariant
            0 <= i <= n,
            n == chain@.len(),
            forall|j: int| 0 <= j < i ==> chain_view(chain@)[j] != u@,
        decreases n - i,
    {
        if &chain[i] == u {
            proof {
                assert(chain_view(chain@)[i as int] == u@);
            }
            return true;
        }
        i += 1;
    }
    false
}

/// Perform one redirect step on the chain. On success the follower is
/// appended; on any failure the chain is left as it was.
pub fn chain_push(chain: &mut Vec<Url>, location: String) -> (r: Result<(), FetchError>)
    requires
        old(chain)@.len() > 0,
    ensures
        ({
            let step = spec_chain_push(chain_view(old(chain)@), location@);
            match r {
                Ok(_) => step matches Ok(v) && chain_view(final(chain)@) == v,
                Err(e) => step == Err::<Seq<UrlView>, FetchError>(e) && final(chain)@ == old(
                    chain,
                )@,
            }
        }),
{
    proof {
        assert(chain_view(chain@).last() == chain@.last()@);
    }
    let last = &chain[chain.len() - 1];
    match last.follow(location) {
        Err(e) => Err(e),
        Ok(next) => {
            if chain_contains(chain, &next) {
                Err(FetchError::RedirectCycle)
            } else if chain.len() >= MAX_REDIRECTS - 1 {
                Err(FetchError::TooManyRedirects)
            } else {
                let ghost before = chain_view(chain@);
                chain.push(next);
                proof {
                    assert(chain_view(chain@) =~= before.push(chain@.last()@));
                }
                Ok(())
            }
        },
    }
}

/// A redirect whose follower is already on the chain fails with
/// `RedirectCycle`, whatever else holds.
pub proof fn lemma_cycle_detected(c: Seq<UrlView>, loc: Seq<char>)
    requires
        c.len() > 0,
        spec_follow(c.last(), loc) matches Ok(next) && spec_chain_contains(c, next),
    ensures
        spec_chain_push(c, loc) == Err::<Seq<UrlView>, FetchError>(FetchError::RedirectCycle),
{
}

/// A chain that has grown to the bound fails its next redirect with
/// `TooManyRedirects` when the follower is new.
pub proof fn lemma_chain_bounded(c: Seq<UrlView>, loc: Seq<char>)
    requires
        c.len() > 0,
        c.len() + 1 >= MAX_REDIRECTS,
        spec_follow(c.last(), loc) matches Ok(next) && !spec_chain_contains(c, next),
    ensures
        spec_chain_push(c, loc) == Err::<Seq<UrlView>, FetchError>(FetchError::TooManyRedirects),
{
}

/// A successful redirect step appends exactly the follower and keeps the
/// chain strictly under the bound; so every chain reachable from a start
/// has fewer than `MAX_REDIRECTS` members.
pub proof fn lemma_chain_growth(c: Seq<UrlView>, loc: Seq<char>)
    requires
        c.len() > 0,
        spec_chain_push(c, loc) is Ok,
    ensures
        spec_chain_push(c, loc) matches Ok(d) && d.len() == c.len() + 1 && d.len() < MAX_REDIRECTS
            && d == c.push(spec_follow(c.last(), loc)->Ok_0) && !spec_chain_contains(
            c,
            spec_follow(c.last(), loc)->Ok_0,
        ),
{
}

} // verus!
