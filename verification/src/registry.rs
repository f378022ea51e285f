//! The registry of what plugins claim: for each source type, the plugins
//! that parse it, in the order in which they were registered.

use crate::module::SourceType;
use crate::plugin::Plugin;
use vstd::prelude::*;

verus! {

/// What one plugin answered when asked which source types it parses: the
/// types it claims, or nothing.
pub open spec fn claim_view(claim: Option<Vec<SourceType>>) -> Option<Seq<SourceType>> {
    match claim {
        Some(kinds) => Some(kinds@),
        None => None,
    }
}

/// Whether an answer claims `kind`.
pub open spec fn claims_kind(claim: Option<Seq<SourceType>>, kind: SourceType) -> bool {
    match claim {
        Some(kinds) => kinds.contains(kind),
        None => false,
    }
}

/// The plugins among `claims` that claim `kind`, by their places, in
/// ascending order.
pub open spec fn claimants_of(claims: Seq<Option<Seq<SourceType>>>, kind: SourceType) -> Seq<int>
    decreases claims.len(),
{
    if claims.len() == 0 {
        Seq::empty()
    } else {
        let rest = claimants_of(claims.drop_last(), kind);
        if claims_kind(claims.last(), kind) {
            rest.push(claims.len() - 1)
        } else {
            rest
        }
    }
}

/// The places that `places` holds, as numbers.
pub open spec fn as_ints(places: Seq<usize>) -> Seq<int> {
    Seq::new(places.len(), |i: int| places[i] as int)
}

/// The answers of the registered plugins, in the order of registration.
pub struct PluginRegistry {
    claims: Vec<Option<Vec<SourceType>>>,
}

impl View for PluginRegistry {
    type V = Seq<Option<Seq<SourceType>>>;

    closed spec fn view(&self) -> Seq<Option<Seq<SourceType>>> {
        Seq::new(self.claims@.len(), |i: int| claim_view(self.claims@[i]))
    }
}

/// Whether `kind` is among `kinds`.
fn has_kind(kinds: &Vec<SourceType>, kind: SourceType) -> (found: bool)
    ensures
        found == kinds@.contains(kind),
{
    let mut i: usize = 0;
    while i < kinds.len()
        invariant
            i <= kinds@.len(),
            forall|k: int| 0 <= k < i ==> kinds@[k] != kind,
        decreases kinds@.len() - i,
    {
        if kinds[i] == kind {
            return true;
        }
        i = i + 1;
    }
    false
}

impl PluginRegistry {
    /// A registry without plugins.
    pub fn new() -> (registry: Self)
        ensures
            registry@ == Seq::<Option<Seq<SourceType>>>::empty(),
    {
        PluginRegistry { claims: Vec::new() }
    }

    /// Registers a plugin by what it answered, and returns its place.
    pub fn register(&mut self, claim: Option<Vec<SourceType>>) -> (place: usize)
        ensures
            place == old(self)@.len(),
            final(self)@ == old(self)@.push(claim_view(claim)),
    {
        let place = self.claims.len();
        self.claims.push(claim);
        place
    }

    /// Asks `plugin` what it claims, registers it by its answer, and returns
    /// its place.
    pub fn register_plugin<P: Plugin>(&mut self, plugin: &P) -> (place: usize)
        ensures
            place == old(self)@.len(),
            exists|claim: Option<Vec<SourceType>>|
                call_ensures(P::register_parse_module, (plugin,), claim) && final(self)@ == old(
                    self,
                )@.push(#[trigger] claim_view(claim)),
    {
        let claim = plugin.register_parse_module();
        self.register(claim)
    }

    /// The plugins that claim `kind`, in the order of registration.
    pub fn claimants(&self, kind: SourceType) -> (places: Vec<usize>)
        ensures
            as_ints(places@) == claimants_of(self@, kind),
    {
        let mut places: Vec<usize> = Vec::new();
        let mut i: usize = 0;
        while i < self.claims.len()
            invariant
                i <= self.claims@.len(),
                as_ints(places@) == claimants_of(self@.take(i as int), kind),
            decreases self.claims@.len() - i,
        {
            proof {
                assert(self@.take(i + 1).drop_last() == self@.take(i as int));
            }
            let claimed = match &self.claims[i] {
                Some(kinds) => has_kind(kinds, kind),
                None => false,
            };
            if claimed {
                places.push(i);
            }
            i = i + 1;
        }
        proof {
            assert(self@.take(i as int) == self@);
        }
        places
    }
}

/// The claimants of a source type are the plugins that claim it, each once,
/// in the order of registration.
pub proof fn lemma_claimants(claims: Seq<Option<Seq<SourceType>>>, kind: SourceType)
    ensures
        forall|a: int|
            0 <= a < claimants_of(claims, kind).len() ==> {
                let place = #[trigger] claimants_of(claims, kind)[a];
                0 <= place < claims.len() && claims_kind(claims[place], kind)
            },
        forall|a: int, b: int|
            0 <= a < b < claimants_of(claims, kind).len() ==> claimants_of(claims, kind)[a]
                < claimants_of(claims, kind)[b],
        forall|place: int|
            0 <= place < claims.len() && claims_kind(#[trigger] claims[place], kind)
                ==> claimants_of(claims, kind).contains(place),
    decreases claims.len(),
{
    if claims.len() > 0 {
        let front = claims.drop_last();
        let rest = claimants_of(front, kind);
        let all = claimants_of(claims, kind);
        lemma_claimants(front, kind);
        assert forall|a: int| 0 <= a < all.len() implies {
            let place = #[trigger] all[a];
            0 <= place < claims.len() && claims_kind(claims[place], kind)
        } by {}
        assert forall|a: int, b: int| 0 <= a < b < all.len() implies all[a] < all[b] by {}
        assert forall|place: int|
            0 <= place < claims.len() && claims_kind(#[trigger] claims[place], kind) implies all.contains(
            place,
        ) by {
            if place < front.len() {
                assert(front[place] == claims[place]);
                let a = choose|a: int| 0 <= a < rest.len() && rest[a] == place;
                assert(all[a] == place);
            } else {
                assert(all[all.len() - 1] == place);
            }
        }
    }
}

} // verus!
