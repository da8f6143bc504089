//! Builders that hand their product to a parent builder.

use vstd::prelude::*;

verus! {

/// A builder that takes in what a child builder of type `Builder` made.
/// It is what a `ChainedBuilder` hands the child to when the chain is
/// completed.
pub trait ConsumeBuilder<Builder>: Sized {
    /// Whether `parent` is this builder after it has taken `target` in.
    spec fn consumes(self, target: Builder, parent: Self) -> bool;

    fn consume(self, target: Builder) -> (parent: Self)
        ensures
            self.consumes(target, parent),
    ;
}

/// A child builder on its way back to its parent. It dereferences to the
/// child, so the child is configured through it; completing the chain hands
/// the child to the parent and gives the parent back.
pub struct ChainedBuilder<Builder, Parent> where Parent: ConsumeBuilder<Builder> {
    builder: Builder,
    result: Parent,
}

impl<Builder, Parent> ChainedBuilder<Builder, Parent> where Parent: ConsumeBuilder<Builder> {
    /// The child as it is configured so far.
    pub closed spec fn child(self) -> Builder {
        self.builder
    }

    /// The parent that waits for the child.
    pub closed spec fn parent(self) -> Parent {
        self.result
    }

    pub fn new(builder: Builder, result: Parent) -> (chain: Self)
        ensures
            chain.child() == builder,
            chain.parent() == result,
    {
        ChainedBuilder { builder, result }
    }

    /// Ends the configuration of the child: the parent consumes it.
    pub fn complete_chain(self) -> (parent: Parent)
        ensures
            self.parent().consumes(self.child(), parent),
    {
        self.result.consume(self.builder)
    }
}

impl<Builder, Parent> std::ops::Deref for ChainedBuilder<Builder, Parent> where
    Parent: ConsumeBuilder<Builder>,
 {
    type Target = Builder;

    fn deref(&self) -> (child: &Builder)
        ensures
            *child == self.child(),
    {
        &self.builder
    }
}

impl<Builder, Parent> std::ops::DerefMut for ChainedBuilder<Builder, Parent> where
    Parent: ConsumeBuilder<Builder>,
 {
    fn deref_mut(&mut self) -> (child: &mut Builder)
        ensures
            *child == old(self).child(),
            final(self).child() == *final(child),
            final(self).parent() == old(self).parent(),
    {
        &mut self.builder
    }
}

} // verus!
