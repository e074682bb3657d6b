use vstd::prelude::*;
use crate::node::{Node, RawBlock, checklist_tag, decode_spec};
use crate::walker::{Action, next_spec};

verus! {

/// A block that reports children decodes to a container whatever its type
/// tag and checked flag say, and the walker only fetches its children: it
/// never issues an update for it.
pub proof fn lemma_container_only_descends(a: RawBlock, b: RawBlock, rest: Seq<Node>, id: String)
    requires
        a.has_children == Some(true),
        b.has_children == Some(true),
        a.id == b.id,
    ensures
        decode_spec(a) == decode_spec(b),
        a.id is Some ==> decode_spec(a) == Some(Node::Container { id: a.id.unwrap() }),
        next_spec(rest.push(Node::Container { id })) == (rest, Action::Fetch(id)),
{
    assert(rest.push(Node::Container { id }).drop_last() =~= rest);
}

/// A checked checklist item leaf is answered by exactly one update, which
/// clears it, and is then gone from the walk; an unchecked one gives no call.
pub proof fn lemma_checklist_item_cleared_once(rest: Seq<Node>, id: String)
    ensures
        next_spec(rest.push(Node::ChecklistItem { id, checked: true })) == (
            rest,
            Action::Update { id, checked: false },
        ),
        next_spec(rest.push(Node::ChecklistItem { id, checked: false })) == next_spec(rest),
{
    assert(rest.push(Node::ChecklistItem { id, checked: true }).drop_last() =~= rest);
    assert(rest.push(Node::ChecklistItem { id, checked: false }).drop_last() =~= rest);
}

/// A leaf whose type tag is not that of a checklist item decodes to a block
/// that the walker passes over without any call, whatever checked flag it
/// carries.
pub proof fn lemma_other_leaf_untouched(raw: RawBlock, rest: Seq<Node>)
    requires
        raw.has_children != Some(true),
        raw.kind is None || raw.kind.unwrap()@ != checklist_tag(),
    ensures
        decode_spec(raw) == Some(Node::Other),
        next_spec(rest.push(Node::Other)) == next_spec(rest),
{
    assert(rest.push(Node::Other).drop_last() =~= rest);
}

} // verus!
