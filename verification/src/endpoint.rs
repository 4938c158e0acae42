use vstd::prelude::*;

verus! {

/// The lifecycle of the process-wide cached broadcast endpoint. `Unset`
/// means nothing is cached yet; `Resolving` means one caller holds the claim
/// to look the endpoint up or create it; `Ready` holds the resolved URL.
pub enum EndpointState {
    Unset,
    Resolving,
    Ready(String),
}

/// What one caller of the resolve-or-create path is told to do.
pub enum ResolveStep {
    /// The endpoint is cached: use this URL, make no further lookups.
    UseReady(String),
    /// This caller holds the claim: look the endpoint up upstream, create it
    /// only if none exists, then report back.
    Claim,
    /// Another caller holds the claim: await its result and retry.
    AwaitWinner,
}

/// The cached broadcast endpoint with its single-flight guard: concurrent
/// first-time publishers cannot both create an endpoint, because only the one
/// that moves the state out of `Unset` is handed the creation claim.
pub struct EndpointCache {
    state: EndpointState,
}

impl View for EndpointCache {
    type V = EndpointState;

    closed spec fn view(&self) -> EndpointState {
        self.state
    }
}

impl EndpointCache {
    /// Start from durable configuration: a stored URL, if any, is the initial
    /// cache value.
    pub fn new(initial: Option<String>) -> (r: Self)
        ensures
            r@ == (match initial {
                Option::Some(url) => EndpointState::Ready(url),
                Option::None => EndpointState::Unset,
            }),
    {
        match initial {
            Option::Some(url) => EndpointCache { state: EndpointState::Ready(url) },
            Option::None => EndpointCache { state: EndpointState::Unset },
        }
    }

    /// Enter the resolve-or-create path. Exactly the caller that finds the
    /// state unset receives the claim; everyone else reuses the cached URL or
    /// awaits the claim holder.
    pub fn begin_resolve(&mut self) -> (r: ResolveStep)
        ensures
            (r is Claim) == (old(self)@ is Unset),
            final(self)@ == (if old(self)@ is Unset {
                EndpointState::Resolving
            } else {
                old(self)@
            }),
            (match old(self)@ {
                EndpointState::Ready(url) => r == ResolveStep::UseReady(url),
                EndpointState::Resolving => r == ResolveStep::AwaitWinner,
                EndpointState::Unset => r == ResolveStep::Claim,
            }),
    {
        match &self.state {
            EndpointState::Unset => {
                self.state = EndpointState::Resolving;
                ResolveStep::Claim
            },
            EndpointState::Resolving => ResolveStep::AwaitWinner,
            EndpointState::Ready(url) => ResolveStep::UseReady(url.clone()),
        }
    }

    /// The claim holder resolved the endpoint: cache its URL for the rest of
    /// the process.
    pub fn complete_resolve(&mut self, url: String)
        requires
            old(self)@ is Resolving,
        ensures
            final(self)@ == EndpointState::Ready(url),
    {
        self.state = EndpointState::Ready(url);
    }

    /// The claim holder failed (a transport error): release the claim so a
    /// later submission attempt can resolve again.
    pub fn fail_resolve(&mut self)
        requires
            old(self)@ is Resolving,
        ensures
            final(self)@ == EndpointState::Unset,
    {
        self.state = EndpointState::Unset;
    }

    /// The cached URL, once resolved.
    pub fn cached_url(&self) -> (r: Option<&String>)
        ensures
            match r {
                Option::Some(url) => self@ == EndpointState::Ready(*url),
                Option::None => !(self@ is Ready),
            },
    {
        match &self.state {
            EndpointState::Ready(url) => Option::Some(url),
            _ => Option::None,
        }
    }
}

/// One successful step of the resolve-or-create protocol: a `begin_resolve`
/// (grant the claim, reuse the cache, or await) or a `complete_resolve`.
pub open spec fn resolver_step(s1: EndpointState, s2: EndpointState) -> bool {
    ||| (s1 is Unset && s2 is Resolving)
    ||| (!(s1 is Unset) && s2 == s1)
    ||| (s1 is Resolving && s2 is Ready)
}

/// Idempotence of endpoint resolution, first half: along any sequence of
/// successful resolve-or-create steps, the unset state is passed through at
/// most once, so the creation claim is handed out at most once and at most
/// one endpoint is created.
pub proof fn lemma_single_flight(trace: Seq<EndpointState>, i: int, j: int)
    requires
        forall|k: int| 0 <= k < trace.len() - 1 ==> resolver_step(#[trigger] trace[k], trace[k + 1]),
        0 <= i < j < trace.len(),
        trace[i] is Unset,
    ensures
        !(trace[j] is Unset),
    decreases j - i,
{
    if j == i + 1 {
        assert(resolver_step(trace[i], trace[i + 1]));
    } else {
        assert(resolver_step(trace[i], trace[i + 1]));
        lemma_no_return_to_unset(trace, i + 1, j);
    }
}

/// No successful step leads back to the unset state.
proof fn lemma_no_return_to_unset(trace: Seq<EndpointState>, i: int, j: int)
    requires
        forall|k: int| 0 <= k < trace.len() - 1 ==> resolver_step(#[trigger] trace[k], trace[k + 1]),
        0 <= i <= j < trace.len(),
        !(trace[i] is Unset),
    ensures
        !(trace[j] is Unset),
    decreases j - i,
{
    if i < j {
        assert(resolver_step(trace[i], trace[i + 1]));
        lemma_no_return_to_unset(trace, i + 1, j);
    }
}

/// Idempotence of endpoint resolution, second half: once the cache is ready,
/// every later caller observes the same cached handle.
pub proof fn lemma_cached_handle_stable(trace: Seq<EndpointState>, i: int, j: int)
    requires
        forall|k: int| 0 <= k < trace.len() - 1 ==> resolver_step(#[trigger] trace[k], trace[k + 1]),
        0 <= i <= j < trace.len(),
        trace[i] is Ready,
    ensures
        trace[j] == trace[i],
    decreases j - i,
{
    if i < j {
        assert(resolver_step(trace[i], trace[i + 1]));
        lemma_cached_handle_stable(trace, i + 1, j);
    }
}

} // verus!
