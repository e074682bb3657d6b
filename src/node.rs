use vstd::prelude::*;
use vstd::string::*;

verus! {

/// The fields of one block of the content API, as the response carried them.
/// A field is `None` where the response lacked it or held another JSON type.
#[derive(Debug, Clone, PartialEq, Eq)]
pub struct RawBlock {
    pub id: Option<String>,
    pub has_children: Option<bool>,
    pub kind: Option<String>,
    pub checked: Option<bool>,
}

/// A decoded block: what the walker needs to know of it.
#[derive(Debug, Clone, PartialEq, Eq)]
pub enum Node {
    /// A block with children: the walker descends into it.
    Container { id: String },
    /// A checklist item that has no children.
    ChecklistItem { id: String, checked: bool },
    /// Any other leaf: the walker leaves it alone.
    Other,
}

/// Why a traversal stopped.
#[derive(Debug, Clone, PartialEq, Eq)]
pub enum WalkError {
    /// A required setting was missing at startup.
    Config,
    /// The request did not reach the API or its answer was lost.
    Transport,
    /// The API rejected the credential.
    Auth,
    /// A response did not have the expected shape.
    Protocol,
}

/// The type tag of a checklist item.
pub open spec fn checklist_tag() -> Seq<char> {
    seq!['t', 'o', '_', 'd', 'o']
}

/// What a raw block decodes to, or `None` where it is malformed.
pub open spec fn decode_spec(raw: RawBlock) -> Option<Node> {
    if raw.has_children == Some(true) {
        match raw.id {
            Some(id) => Some(Node::Container { id }),
            None => None,
        }
    } else if raw.kind.is_some() && raw.kind.unwrap()@ == checklist_tag() {
        match raw.id {
            Some(id) => Some(Node::ChecklistItem { id, checked: raw.checked == Some(true) }),
            None => None,
        }
    } else {
        Some(Node::Other)
    }
}

/// Whether every block of `raws` decodes.
pub open spec fn all_decode(raws: Seq<RawBlock>) -> bool {
    forall|i: int| 0 <= i < raws.len() ==> (#[trigger] decode_spec(raws[i])).is_some()
}

/// The decoded blocks of `raws`, in order, where all of them decode.
pub open spec fn decode_all_spec(raws: Seq<RawBlock>) -> Seq<Node> {
    raws.map_values(|r: RawBlock| decode_spec(r).unwrap())
}

fn is_checklist_tag(s: &String) -> (r: bool)
    ensures
        r == (s@ == checklist_tag()),
{
    let tag = String::from_str("to_do");
    proof {
        reveal_strlit("to_do");
        assert(tag@ =~= checklist_tag());
    }
    *s == tag
}

/// Decodes one block: a block with children is a container; a childless
/// block tagged as a checklist item is one, checked only where its flag says
/// so; any other block is left alone. A container or checklist item without
/// an identifier is a protocol error.
pub fn decode_block(raw: &RawBlock) -> (r: Result<Node, WalkError>)
    ensures
        decode_spec(*raw) is Some ==> r == Ok::<Node, WalkError>(decode_spec(*raw).unwrap()),
        decode_spec(*raw) is None ==> r == Err::<Node, WalkError>(WalkError::Protocol),
{
    let container = match raw.has_children {
        Some(b) => b,
        None => false,
    };
    if container {
        match &raw.id {
            Some(id) => Ok(Node::Container { id: id.clone() }),
            None => Err(WalkError::Protocol),
        }
    } else {
        let todo = match &raw.kind {
            Some(k) => is_checklist_tag(k),
            None => false,
        };
        if todo {
            let checked = match raw.checked {
                Some(b) => b,
                None => false,
            };
            match &raw.id {
                Some(id) => Ok(Node::ChecklistItem { id: id.clone(), checked }),
                None => Err(WalkError::Protocol),
            }
        } else {
            Ok(Node::Other)
        }
    }
}

/// Decodes a list of blocks in order; any block that does not decode makes
/// the whole list a protocol error.
pub fn decode_list(raws: &Vec<RawBlock>) -> (r: Result<Vec<Node>, WalkError>)
    ensures
        all_decode(raws@) ==> r is Ok && r.unwrap()@ == decode_all_spec(raws@),
        !all_decode(raws@) ==> r == Err::<Vec<Node>, WalkError>(WalkError::Protocol),
{
    let mut out: Vec<Node> = Vec::new();
    let mut i: usize = 0;
    while i < raws.len()
        invariant
            i <= raws@.len(),
            out@.len() == i,
            forall|j: int| 0 <= j < i ==> (#[trigger] decode_spec(raws@[j])).is_some(),
            forall|j: int| 0 <= j < i ==> out@[j] == decode_spec(#[trigger] raws@[j]).unwrap(),
        decreases raws@.len() - i,
    {
        match decode_block(&raws[i]) {
            Ok(n) => out.push(n),
            Err(_) => {
                assert(decode_spec(raws@[i as int]) is None);
                return Err(WalkError::Protocol);
            },
        }
        i = i + 1;
    }
    assert(out@ =~= decode_all_spec(raws@));
    Ok(out)
}

/// Decodes the child list of a fetch response. `None` stands for a response
/// without a child list, which is a protocol error and not an empty list.
pub fn decode_children(results: Option<Vec<RawBlock>>) -> (r: Result<Vec<Node>, WalkError>)
    ensures
        results is None ==> r == Err::<Vec<Node>, WalkError>(WalkError::Protocol),
        results is Some && all_decode(results.unwrap()@) ==> r is Ok && r.unwrap()@
            == decode_all_spec(results.unwrap()@),
        results is Some && !all_decode(results.unwrap()@) ==> r == Err::<Vec<Node>, WalkError>(
            WalkError::Protocol,
        ),
{
    match results {
        None => Err(WalkError::Protocol),
        Some(raws) => decode_list(&raws),
    }
}

} // verus!
