//! Sources of resources, and several sources taken as one.

use vstd::prelude::*;
use crate::error::OneClickLaunchError;
use crate::resource::{GenericResource, GenericResourceView, generic_views};

verus! {

/// The outcome of asking a source, as a mathematical value.
pub open spec fn outcome_view(fetched: Result<Vec<GenericResource>, OneClickLaunchError>) -> Result<
    Seq<GenericResourceView>,
    OneClickLaunchError,
> {
    match fetched {
        Ok(resources) => Ok(generic_views(resources@)),
        Err(e) => Err(e),
    }
}

/// A source of resources. What a source hands out, and whether it fails,
/// is its own affair: each source says for itself which outcomes it may
/// come to, and may say that it may come to any.
pub trait ResourceProvider {
    /// Whether asking the source may end in `outcome`. A source that does
    /// not say may come to any outcome.
    open spec fn may_fetch(&self, outcome: Result<Seq<GenericResourceView>, OneClickLaunchError>) -> bool {
        true
    }

    /// All resources of the source.
    fn fetch_resources(&self) -> (fetched: Result<Vec<GenericResource>, OneClickLaunchError>)
        ensures
            self.may_fetch(outcome_view(fetched)),
    ;
}

/// Several sources taken as one: its resources are those of its sources,
/// in the order in which the sources were added.
pub struct CompositeResourceProvider {
    providers: Vec<Box<dyn ResourceProvider>>,
}

/// What is had after a source came to the outcome `next`: the resources
/// had before and then those of the source, or the error of the source.
pub open spec fn merged_outcome(
    all: Seq<GenericResourceView>,
    next: Result<Seq<GenericResourceView>, OneClickLaunchError>,
) -> Result<Seq<GenericResourceView>, OneClickLaunchError> {
    match next {
        Ok(more) => Ok(all + more),
        Err(e) => Err(e),
    }
}

/// What the outcomes of the sources asked, in order, come to together:
/// nothing where no source was asked; the error of a source where one
/// failed; else the resources of all of them, in order.
pub open spec fn collected(
    outcomes: Seq<Result<Seq<GenericResourceView>, OneClickLaunchError>>,
) -> Result<Seq<GenericResourceView>, OneClickLaunchError>
    decreases outcomes.len(),
{
    if outcomes.len() == 0 {
        Ok(Seq::empty())
    } else {
        match collected(outcomes.drop_last()) {
            Ok(all) => merged_outcome(all, outcomes.last()),
            Err(e) => Err(e),
        }
    }
}

/// Whether `outcomes` are outcomes of asking `sources` in order: one for
/// each source asked, each an outcome that its source may come to; every
/// source is asked unless one before it failed, and none is asked after a
/// failure.
pub open spec fn asked_in_order<P: ResourceProvider + ?Sized>(
    sources: Seq<Box<P>>,
    outcomes: Seq<Result<Seq<GenericResourceView>, OneClickLaunchError>>,
) -> bool {
    &&& outcomes.len() <= sources.len()
    &&& forall|i: int| 0 <= i < outcomes.len() ==> sources[i].may_fetch(#[trigger] outcomes[i])
    &&& forall|i: int| 0 <= i < outcomes.len() - 1 ==> (#[trigger] outcomes[i]) is Ok
    &&& (outcomes.len() == sources.len() || (outcomes.len() > 0 && outcomes.last() is Err))
}

/// Whether asking `sources` in order may end in `outcome`: there are
/// outcomes of asking them in order that come to `outcome` together.
pub open spec fn may_collect<P: ResourceProvider + ?Sized>(
    sources: Seq<Box<P>>,
    outcome: Result<Seq<GenericResourceView>, OneClickLaunchError>,
) -> bool {
    exists|outcomes: Seq<Result<Seq<GenericResourceView>, OneClickLaunchError>>| #[trigger]
        asked_in_order(sources, outcomes) && outcome == collected(outcomes)
}

/// Puts what a source handed out behind the resources had so far; the
/// error of a source is handed on.
pub fn merge(all: Vec<GenericResource>, fetched: Result<Vec<GenericResource>, OneClickLaunchError>) -> (
    together: Result<Vec<GenericResource>, OneClickLaunchError>)
    ensures
        outcome_view(together) == merged_outcome(generic_views(all@), outcome_view(fetched)),
{
    match fetched {
        Ok(more) => {
            let mut all = all;
            let mut more = more;
            let ghost first = all@;
            let ghost second = more@;
            all.append(&mut more);
            proof {
                assert(generic_views(all@) =~= generic_views(first) + generic_views(second));
            }
            Ok(all)
        },
        Err(e) => Err(e),
    }
}

impl CompositeResourceProvider {
    /// The sources, in the order in which they were added.
    pub closed spec fn sources(&self) -> Seq<Box<dyn ResourceProvider>> {
        self.providers@
    }

    /// A provider without sources.
    pub fn new() -> (provider: Self)
        ensures
            provider.sources().len() == 0,
    {
        CompositeResourceProvider { providers: Vec::new() }
    }

    /// Adds `provider` behind the sources added before: there is one
    /// source more, and the others stand as they stood.
    pub fn add_provider(&mut self, provider: Box<dyn ResourceProvider>)
        ensures
            final(self).sources() == old(self).sources().push(provider),
            final(self).sources().len() == old(self).sources().len() + 1,
            forall|i: int|
                0 <= i < old(self).sources().len() ==> #[trigger] final(self).sources()[i] == old(
                    self,
                ).sources()[i],
    {
        let ghost before = self.providers@;
        proof {
            vstd::seq::axiom_seq_push_len(before, provider);
            assert forall|i: int| 0 <= i < before.len() implies #[trigger] before.push(provider)[i]
                == before[i] by {
                vstd::seq::axiom_seq_push_index_different(before, provider, i);
            }
        }
        self.providers.push(provider);
    }

    /// The number of sources.
    pub fn len(&self) -> (n: usize)
        ensures
            n == self.sources().len(),
    {
        self.providers.len()
    }
}

impl ResourceProvider for CompositeResourceProvider {
    /// Asking the sources in order and stopping at the first that fails.
    open spec fn may_fetch(&self, outcome: Result<Seq<GenericResourceView>, OneClickLaunchError>) -> bool {
        may_collect(self.sources(), outcome)
    }

    /// Asks the sources in order and stops at the first that fails. What
    /// comes back is what the outcomes of the sources asked come to
    /// together; without sources that is success with no resource.
    fn fetch_resources(&self) -> (fetched: Result<Vec<GenericResource>, OneClickLaunchError>)
        ensures
            self.sources().len() == 0 ==> fetched is Ok && fetched->Ok_0@.len() == 0,
    {
        let ghost sources = self.sources();
        let ghost mut outcomes = Seq::<Result<Seq<GenericResourceView>, OneClickLaunchError>>::empty();
        let mut all: Vec<GenericResource> = Vec::new();
        let n = self.providers.len();
        let mut i: usize = 0;
        proof {
            assert(generic_views(all@) =~= Seq::<GenericResourceView>::empty());
        }
        while i < n
            invariant
                n == self.providers.len(),
                sources == self.providers@,
                i <= n,
                outcomes.len() == i,
                forall|k: int| 0 <= k < i ==> sources[k].may_fetch(#[trigger] outcomes[k]),
                forall|k: int| 0 <= k < i ==> (#[trigger] outcomes[k]) is Ok,
                collected(outcomes) == Ok::<Seq<GenericResourceView>, OneClickLaunchError>(
                    generic_views(all@),
                ),
            decreases n - i,
        {
            let next = self.providers[i].fetch_resources();
            let ghost last = outcome_view(next);
            let ghost asked = outcomes;
            let together = merge(all, next);
            proof {
                outcomes = asked.push(last);
                assert(outcomes.drop_last() =~= asked);
                assert(outcomes.last() == last);
                assert(sources[i as int].may_fetch(last));
                assert(collected(outcomes) == outcome_view(together));
                assert forall|k: int| 0 <= k < i + 1 implies sources[k].may_fetch(
                    #[trigger] outcomes[k],
                ) by {
                    if k < i {
                        assert(outcomes[k] == asked[k]);
                    }
                }
            }
            match together {
                Ok(more) => {
                    proof {
                        assert forall|k: int| 0 <= k < i + 1 implies (#[trigger] outcomes[k]) is Ok by {
                            if k < i {
                                assert(outcomes[k] == asked[k]);
                            }
                        }
                    }
                    all = more;
                },
                Err(e) => {
                    proof {
                        assert forall|k: int| 0 <= k < outcomes.len() - 1 implies (
                        #[trigger] outcomes[k]) is Ok by {
                            assert(outcomes[k] == asked[k]);
                        }
                        assert(asked_in_order(sources, outcomes));
                    }
                    return Err(e);
                },
            }
            i = i + 1;
        }
        proof {
            assert(asked_in_order(sources, outcomes));
            assert(generic_views(all@).len() == all@.len());
        }
        Ok(all)
    }
}

} // verus!
