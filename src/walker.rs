use vstd::prelude::*;
use crate::node::{Node, RawBlock, WalkError, all_decode, decode_all_spec, decode_children};

verus! {

/// What the walker asks its driver to do next.
#[derive(Debug, Clone, PartialEq, Eq)]
pub enum Action {
    /// Fetch the children of the block with this identifier.
    Fetch(String),
    /// Set the checked flag of the block with this identifier.
    Update { id: String, checked: bool },
    /// The traversal is complete.
    Finished,
    /// The traversal stopped on this error.
    Abort(WalkError),
}

/// What the driver reports back after performing an action.
#[derive(Debug, PartialEq, Eq)]
pub enum Event {
    /// The answer to a fetch: the response's child list, `None` where the
    /// response had none, or the request's failure.
    Fetched(Result<Option<Vec<RawBlock>>, WalkError>),
    /// The answer to an update.
    Updated(Result<(), WalkError>),
}

/// A depth-first, left-to-right traversal of a block tree, driven one
/// remote call at a time. `stack` holds the blocks still to visit, the next
/// one last; once `halted`, the walker asks for nothing more.
pub struct Walker {
    pub stack: Vec<Node>,
    pub halted: bool,
}

/// The blocks of `kids` on a stack, so that the first of them is popped first.
pub open spec fn push_children(stack: Seq<Node>, kids: Seq<Node>) -> Seq<Node> {
    stack + kids.reverse()
}

/// Pops blocks off `stack` until one needs a remote call: a container is
/// fetched, a checked checklist item is cleared, any other block is passed
/// over. Gives the stack that is left and the action.
pub open spec fn next_spec(stack: Seq<Node>) -> (Seq<Node>, Action)
    decreases stack.len(),
{
    if stack.len() == 0 {
        (stack, Action::Finished)
    } else {
        let rest = stack.drop_last();
        match stack.last() {
            Node::Container { id } => (rest, Action::Fetch(id)),
            Node::ChecklistItem { id, checked } => if checked {
                (rest, Action::Update { id, checked: false })
            } else {
                next_spec(rest)
            },
            Node::Other => next_spec(rest),
        }
    }
}

/// The action that answers `event` on a running walker with `stack`, and
/// the stack that follows.
pub open spec fn step_spec(stack: Seq<Node>, event: Event) -> (Seq<Node>, Action) {
    match event {
        Event::Fetched(Err(e)) => (Seq::empty(), Action::Abort(e)),
        Event::Fetched(Ok(None)) => (Seq::empty(), Action::Abort(WalkError::Protocol)),
        Event::Fetched(Ok(Some(raws))) => if all_decode(raws@) {
            next_spec(push_children(stack, decode_all_spec(raws@)))
        } else {
            (Seq::empty(), Action::Abort(WalkError::Protocol))
        },
        Event::Updated(Err(e)) => (Seq::empty(), Action::Abort(e)),
        Event::Updated(Ok(())) => next_spec(stack),
    }
}

/// Whether an action stops the traversal.
pub open spec fn is_abort(a: Action) -> bool {
    a is Abort
}

impl Walker {
    /// A walker whose first action fetches the children of the root block.
    pub fn new(root_id: String) -> (w: Walker)
        ensures
            w.stack@ == seq![Node::Container { id: root_id }],
            !w.halted,
    {
        let mut stack: Vec<Node> = Vec::new();
        stack.push(Node::Container { id: root_id });
        Walker { stack, halted: false }
    }

    /// The next remote call: see `next_spec`. A halted walker asks for none.
    pub fn advance(&mut self) -> (r: Action)
        ensures
            old(self).halted ==> r == Action::Finished && final(self).stack@ == old(self).stack@,
            !old(self).halted ==> (final(self).stack@, r) == next_spec(old(self).stack@),
            final(self).halted == old(self).halted,
            !is_abort(r),
    {
        if self.halted {
            return Action::Finished;
        }
        loop
            invariant
                !self.halted,
                !old(self).halted,
                next_spec(self.stack@) == next_spec(old(self).stack@),
            decreases self.stack@.len(),
        {
            match self.stack.pop() {
                None => {
                    return Action::Finished;
                },
                Some(n) => match n {
                    Node::Container { id } => {
                        return Action::Fetch(id);
                    },
                    Node::ChecklistItem { id, checked } => {
                        if checked {
                            return Action::Update { id, checked: false };
                        }
                    },
                    Node::Other => {},
                },
            }
        }
    }

    fn push_all(&mut self, kids: Vec<Node>)
        ensures
            final(self).stack@ == push_children(old(self).stack@, kids@),
            final(self).halted == old(self).halted,
    {
        let mut kids = kids;
        let ghost orig = kids@;
        let ghost base = self.stack@;
        while kids.len() > 0
            invariant
                self.halted == old(self).halted,
                base == old(self).stack@,
                kids@ == orig.subrange(0, kids@.len() as int),
                kids@.len() <= orig.len(),
                self.stack@ == base + orig.subrange(kids@.len() as int, orig.len() as int).reverse(),
            decreases kids@.len(),
        {
            let n = kids.pop().unwrap();
            self.stack.push(n);
            assert(orig.subrange(kids@.len() as int, orig.len() as int).reverse() =~= orig.subrange(
                (kids@.len() + 1) as int,
                orig.len() as int,
            ).reverse().push(n));
        }
        assert(orig.subrange(0, orig.len() as int) =~= orig);
    }

    /// Takes in the answer to the last action and gives the next one. Any
    /// error, and any child list that does not decode, halts the walker:
    /// a halted walker asks for nothing more.
    pub fn step(&mut self, event: Event) -> (r: Action)
        ensures
            old(self).halted ==> r == Action::Finished && final(self).stack@ == old(self).stack@
                && final(self).halted,
            !old(self).halted ==> (final(self).stack@, r) == step_spec(old(self).stack@, event),
            final(self).halted == (old(self).halted || is_abort(r)),
    {
        if self.halted {
            return Action::Finished;
        }
        match event {
            Event::Fetched(Err(e)) => self.halt(e),
            Event::Updated(Err(e)) => self.halt(e),
            Event::Updated(Ok(())) => self.advance(),
            Event::Fetched(Ok(results)) => match decode_children(results) {
                Err(e) => self.halt(e),
                Ok(kids) => {
                    self.push_all(kids);
                    self.advance()
                },
            },
        }
    }

    fn halt(&mut self, e: WalkError) -> (r: Action)
        ensures
            final(self).stack@ == Seq::<Node>::empty(),
            final(self).halted,
            r == Action::Abort(e),
    {
        self.stack = Vec::new();
        self.halted = true;
        Action::Abort(e)
    }
}

} // verus!
