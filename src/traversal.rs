use vstd::prelude::*;
use crate::node::Node;
use crate::walker::{Action, next_spec, push_children};

verus! {

/// Whether a block is a checklist item whose flag is set.
pub open spec fn is_checked_item(n: Node) -> bool {
    n is ChecklistItem && n->ChecklistItem_checked
}

/// Whether the walker passes over a block without a call.
pub open spec fn idle(n: Node) -> bool {
    n is Other || (n is ChecklistItem && !n->ChecklistItem_checked)
}

/// A block with its checked flag cleared: what stays of it across updates.
pub open spec fn shape(n: Node) -> Node {
    match n {
        Node::ChecklistItem { id, checked } => Node::ChecklistItem { id, checked: false },
        _ => n,
    }
}

/// Whether two lists of blocks agree but for checked flags.
pub open spec fn same_shape(a: Seq<Node>, b: Seq<Node>) -> bool {
    a.len() == b.len() && forall|i: int| 0 <= i < a.len() ==> shape(#[trigger] a[i]) == shape(b[i])
}

/// Whether no block of a list is a checked checklist item.
pub open spec fn quiet(s: Seq<Node>) -> bool {
    forall|i: int| 0 <= i < s.len() ==> !is_checked_item(#[trigger] s[i])
}

/// Whether a list holds a checked checklist item with this identifier.
pub open spec fn has_checked_id(s: Seq<Node>, id: Seq<char>) -> bool {
    exists|i: int| 0 <= i < s.len() && is_checked_item(#[trigger] s[i]) && s[i]->ChecklistItem_id@ == id
}

/// A block after an update that clears the item with identifier `id`.
pub open spec fn clear_node(n: Node, id: Seq<char>) -> Node {
    if n is ChecklistItem && n->ChecklistItem_id@ == id {
        Node::ChecklistItem { id: n->ChecklistItem_id, checked: false }
    } else {
        n
    }
}

/// The remote tree, as the child list of each block by its identifier,
/// after an update that clears the item with identifier `id`.
pub open spec fn clear_remote(remote: Map<Seq<char>, Seq<Node>>, id: Seq<char>) -> Map<
    Seq<char>,
    Seq<Node>,
> {
    Map::new(
        |k: Seq<char>| remote.contains_key(k),
        |k: Seq<char>| remote[k].map_values(|n: Node| clear_node(n, id)),
    )
}

/// Whether `after` is `before` with some checked flags cleared and nothing else changed.
pub open spec fn remote_le(after: Map<Seq<char>, Seq<Node>>, before: Map<Seq<char>, Seq<Node>>) -> bool {
    &&& after.dom() == before.dom()
    &&& forall|k: Seq<char>| #[trigger] before.contains_key(k) ==> {
        &&& same_shape(after[k], before[k])
        &&& forall|j: int| 0 <= j < after[k].len() && is_checked_item(#[trigger] after[k][j])
            ==> is_checked_item(before[k][j])
    }
}

/// A walk over a remote tree, from the walker's stack, for at most `fuel`
/// calls: the number of updates issued, the remote tree that is left, and
/// whether the walk finished. A fetch of a block that the remote does not
/// list fails and ends the walk.
pub open spec fn run(stack: Seq<Node>, remote: Map<Seq<char>, Seq<Node>>, fuel: nat) -> (
    nat,
    Map<Seq<char>, Seq<Node>>,
    bool,
)
    decreases fuel,
{
    if fuel == 0 {
        (0, remote, false)
    } else {
        let (rest, a) = next_spec(stack);
        match a {
            Action::Finished => (0, remote, true),
            Action::Fetch(id) => if remote.contains_key(id@) {
                run(push_children(rest, remote[id@]), remote, (fuel - 1) as nat)
            } else {
                (0, remote, false)
            },
            Action::Update { id, checked } => {
                let r = run(rest, clear_remote(remote, id@), (fuel - 1) as nat);
                (r.0 + 1, r.1, r.2)
            },
            Action::Abort(_) => (0, remote, false),
        }
    }
}

proof fn lemma_pop(s: Seq<Node>)
    ensures
        ({
            let (r, a) = next_spec(s);
            &&& r.len() <= s.len()
            &&& r == s.subrange(0, r.len() as int)
            &&& !(a is Abort)
            &&& a is Finished ==> r.len() == 0 && forall|i: int| 0 <= i < s.len() ==> idle(#[trigger] s[i])
            &&& a is Fetch ==> r.len() < s.len() && s[r.len() as int] == Node::Container { id: a->Fetch_0 }
                && forall|i: int| r.len() < i < s.len() ==> idle(#[trigger] s[i])
            &&& a is Update ==> r.len() < s.len() && s[r.len() as int] == Node::ChecklistItem {
                id: a->Update_id,
                checked: true,
            } && !a->Update_checked && forall|i: int| r.len() < i < s.len() ==> idle(#[trigger] s[i])
        }),
    decreases s.len(),
{
    if s.len() > 0 {
        let t = s.drop_last();
        assert(t =~= s.subrange(0, s.len() - 1));
        match s.last() {
            Node::Container { id } => {},
            Node::ChecklistItem { id, checked } => {
                if !checked {
                    lemma_pop(t);
                    let (r, a) = next_spec(t);
                    assert(r =~= s.subrange(0, r.len() as int));
                    assert(idle(s[s.len() - 1]));
                    assert forall|i: int| r.len() < i < s.len() implies idle(#[trigger] s[i]) by {
                        if i < t.len() {
                            assert(t[i] == s[i]);
                        }
                    }
                    assert(a is Finished ==> forall|i: int| 0 <= i < s.len() ==> idle(#[trigger] s[i]));
                }
            },
            Node::Other => {
                lemma_pop(t);
                let (r, a) = next_spec(t);
                assert(r =~= s.subrange(0, r.len() as int));
                assert(idle(s[s.len() - 1]));
                assert forall|i: int| r.len() < i < s.len() implies idle(#[trigger] s[i]) by {
                    if i < t.len() {
                        assert(t[i] == s[i]);
                    }
                }
                assert(a is Finished ==> forall|i: int| 0 <= i < s.len() ==> idle(#[trigger] s[i]));
            },
        }
    } else {
        assert(s =~= s.subrange(0, 0));
    }
}

proof fn lemma_skip_idle(s: Seq<Node>, m: int)
    requires
        0 <= m <= s.len(),
        forall|i: int| m <= i < s.len() ==> idle(#[trigger] s[i]),
    ensures
        next_spec(s) == next_spec(s.subrange(0, m)),
    decreases s.len(),
{
    if s.len() > m {
        let t = s.drop_last();
        assert(idle(s[s.len() - 1]));
        assert(t.subrange(0, m) =~= s.subrange(0, m));
        lemma_skip_idle(t, m);
    } else {
        assert(s =~= s.subrange(0, m));
    }
}

proof fn lemma_le_refl(r: Map<Seq<char>, Seq<Node>>)
    ensures
        remote_le(r, r),
{
}

proof fn lemma_le_trans(a: Map<Seq<char>, Seq<Node>>, b: Map<Seq<char>, Seq<Node>>, c: Map<Seq<char>, Seq<Node>>)
    requires
        remote_le(a, b),
        remote_le(b, c),
    ensures
        remote_le(a, c),
{
    assert forall|k: Seq<char>| #[trigger] c.contains_key(k) implies {
        &&& same_shape(a[k], c[k])
        &&& forall|j: int| 0 <= j < a[k].len() && is_checked_item(#[trigger] a[k][j])
            ==> is_checked_item(c[k][j])
    } by {
        assert(b.contains_key(k));
        assert forall|j: int| 0 <= j < a[k].len() implies shape(#[trigger] a[k][j]) == shape(c[k][j]) by {
            assert(shape(a[k][j]) == shape(b[k][j]));
        }
    }
}

proof fn lemma_clear_le(r: Map<Seq<char>, Seq<Node>>, id: Seq<char>)
    ensures
        remote_le(clear_remote(r, id), r),
{
    let c = clear_remote(r, id);
    assert(c.dom() =~= r.dom());
}

/// A finished walk only clears flags, and clears every checked item of the
/// remote tree whose identifier a checked item on the stack carries.
proof fn lemma_run_clears(s: Seq<Node>, remote: Map<Seq<char>, Seq<Node>>, fuel: nat)
    requires
        run(s, remote, fuel).2,
    ensures
        remote_le(run(s, remote, fuel).1, remote),
        forall|k: Seq<char>, j: int|
            remote.contains_key(k) && 0 <= j < remote[k].len() && is_checked_item(#[trigger] remote[k][j])
                && has_checked_id(s, remote[k][j]->ChecklistItem_id@) ==> !is_checked_item(
                run(s, remote, fuel).1[k][j],
            ),
    decreases fuel,
{
    lemma_pop(s);
    let (r, a) = next_spec(s);
    let out = run(s, remote, fuel).1;
    match a {
        Action::Finished => {
            lemma_le_refl(remote);
            assert forall|k: Seq<char>, j: int|
                remote.contains_key(k) && 0 <= j < remote[k].len() && is_checked_item(#[trigger] remote[k][j])
                    && has_checked_id(s, remote[k][j]->ChecklistItem_id@) implies !is_checked_item(out[k][j]) by {
                let i = choose|i: int| 0 <= i < s.len() && is_checked_item(#[trigger] s[i])
                    && s[i]->ChecklistItem_id@ == remote[k][j]->ChecklistItem_id@;
                assert(idle(s[i]));
            }
        },
        Action::Fetch(id) => {
            let s2 = push_children(r, remote[id@]);
            lemma_run_clears(s2, remote, (fuel - 1) as nat);
            assert forall|k: Seq<char>, j: int|
                remote.contains_key(k) && 0 <= j < remote[k].len() && is_checked_item(#[trigger] remote[k][j])
                    && has_checked_id(s, remote[k][j]->ChecklistItem_id@) implies !is_checked_item(out[k][j]) by {
                let i = choose|i: int| 0 <= i < s.len() && is_checked_item(#[trigger] s[i])
                    && s[i]->ChecklistItem_id@ == remote[k][j]->ChecklistItem_id@;
                if i > r.len() {
                    assert(idle(s[i]));
                }
                assert(i < r.len());
                assert(s2[i] == r[i]);
                assert(has_checked_id(s2, remote[k][j]->ChecklistItem_id@));
            }
        },
        Action::Update { id, checked } => {
            let r1 = clear_remote(remote, id@);
            lemma_run_clears(r, r1, (fuel - 1) as nat);
            lemma_clear_le(remote, id@);
            lemma_le_trans(out, r1, remote);
            assert forall|k: Seq<char>, j: int|
                remote.contains_key(k) && 0 <= j < remote[k].len() && is_checked_item(#[trigger] remote[k][j])
                    && has_checked_id(s, remote[k][j]->ChecklistItem_id@) implies !is_checked_item(out[k][j]) by {
                let i = choose|i: int| 0 <= i < s.len() && is_checked_item(#[trigger] s[i])
                    && s[i]->ChecklistItem_id@ == remote[k][j]->ChecklistItem_id@;
                if i > r.len() {
                    assert(idle(s[i]));
                }
                assert(r1.contains_key(k));
                assert(r1[k][j] == clear_node(remote[k][j], id@));
                if i < r.len() {
                    assert(s[i] == r[i]);
                    if is_checked_item(r1[k][j]) {
                        assert(has_checked_id(r, r1[k][j]->ChecklistItem_id@));
                    }
                } else {
                    assert(!is_checked_item(r1[k][j]));
                }
                assert(remote_le(out, r1));
                assert(0 <= j < out[k].len());
            }
        },
        Action::Abort(_) => {},
    }
}

proof fn lemma_shape_idle(a: Node, b: Node)
    requires
        shape(a) == shape(b),
        idle(a),
        !is_checked_item(b),
    ensures
        idle(b),
{
}

/// A walk that shadows a finished one, over the remote tree that the
/// finished one left, from a stack of the same shape with no checked item,
/// issues no update.
proof fn lemma_shadow_run_quiet(
    s1: Seq<Node>,
    remote: Map<Seq<char>, Seq<Node>>,
    f: nat,
    s2: Seq<Node>,
    g: nat,
)
    requires
        run(s1, remote, f).2,
        same_shape(s1, s2),
        quiet(s2),
    ensures
        run(s2, run(s1, remote, f).1, g).0 == 0,
    decreases f,
{
    let out = run(s1, remote, f).1;
    if g == 0 {
        return;
    }
    lemma_pop(s1);
    let (r1, a1) = next_spec(s1);
    let m = r1.len() as int;
    let r2 = s2.subrange(0, m);
    assert(same_shape(r1, r2)) by {
        assert forall|i: int| 0 <= i < r1.len() implies shape(#[trigger] r1[i]) == shape(r2[i]) by {
            assert(r1[i] == s1[i]);
        }
    }
    assert(quiet(r2)) by {
        assert forall|i: int| 0 <= i < r2.len() implies !is_checked_item(#[trigger] r2[i]) by {
            assert(r2[i] == s2[i]);
        }
    }
    match a1 {
        Action::Finished => {
            assert forall|i: int| 0 <= i < s2.len() implies idle(#[trigger] s2[i]) by {
                lemma_shape_idle(s1[i], s2[i]);
            }
            lemma_skip_idle(s2, 0);
            assert(s2.subrange(0, 0) =~= Seq::<Node>::empty());
        },
        Action::Fetch(k) => {
            assert forall|i: int| m < i < s2.len() implies idle(#[trigger] s2[i]) by {
                lemma_shape_idle(s1[i], s2[i]);
            }
            assert(shape(s1[m]) == shape(s2[m]));
            assert(s2[m] == Node::Container { id: k });
            lemma_skip_idle(s2, m + 1);
            let p2 = s2.subrange(0, m + 1);
            assert(p2.drop_last() =~= r2);
            assert(next_spec(s2) == (r2, Action::Fetch(k)));
            let kids1 = remote[k@];
            let s1n = push_children(r1, kids1);
            lemma_run_clears(s1n, remote, (f - 1) as nat);
            assert(out == run(s1n, remote, (f - 1) as nat).1);
            assert(remote.contains_key(k@));
            assert(out.contains_key(k@));
            let kids2 = out[k@];
            assert(same_shape(kids2, kids1));
            assert(quiet(kids2)) by {
                assert forall|j: int| 0 <= j < kids2.len() implies !is_checked_item(#[trigger] kids2[j]) by {
                    if is_checked_item(kids1[j]) {
                        let i = m + (kids1.len() - 1 - j);
                        assert(s1n[i] == kids1[j]);
                        assert(has_checked_id(s1n, kids1[j]->ChecklistItem_id@));
                    }
                }
            }
            let s2n = push_children(r2, kids2);
            assert(same_shape(s1n, s2n)) by {
                assert forall|i: int| 0 <= i < s1n.len() implies shape(#[trigger] s1n[i]) == shape(s2n[i]) by {
                    if i >= m {
                        let j = kids1.len() - 1 - (i - m);
                        assert(s1n[i] == kids1[j]);
                        assert(s2n[i] == kids2[j]);
                    }
                }
            }
            assert(quiet(s2n)) by {
                assert forall|i: int| 0 <= i < s2n.len() implies !is_checked_item(#[trigger] s2n[i]) by {
                    if i >= m {
                        let j = kids2.len() - 1 - (i - m);
                        assert(s2n[i] == kids2[j]);
                    }
                }
            }
            lemma_shadow_run_quiet(s1n, remote, (f - 1) as nat, s2n, (g - 1) as nat);
        },
        Action::Update { id, checked } => {
            assert forall|i: int| m <= i < s2.len() implies idle(#[trigger] s2[i]) by {
                if i > m {
                    lemma_shape_idle(s1[i], s2[i]);
                } else {
                    assert(shape(s1[m]) == shape(s2[m]));
                }
            }
            lemma_skip_idle(s2, m);
            let r = clear_remote(remote, id@);
            assert(out == run(r1, r, (f - 1) as nat).1);
            lemma_shadow_run_quiet(r1, r, (f - 1) as nat, r2, g);
            assert(run(s2, out, g) == run(r2, out, g));
        },
        Action::Abort(_) => {},
    }
}

/// Walking a tree twice from the same root, with nothing else changing it in
/// between, issues no update the second time once the first walk finished:
/// the first walk cleared every checked item that either walk visits.
pub proof fn lemma_traversal_idempotent(
    root: String,
    remote: Map<Seq<char>, Seq<Node>>,
    first_fuel: nat,
    second_fuel: nat,
)
    requires
        run(seq![Node::Container { id: root }], remote, first_fuel).2,
    ensures
        run(
            seq![Node::Container { id: root }],
            run(seq![Node::Container { id: root }], remote, first_fuel).1,
            second_fuel,
        ).0 == 0,
{
    let s = seq![Node::Container { id: root }];
    assert(quiet(s));
    lemma_shadow_run_quiet(s, remote, first_fuel, s, second_fuel);
}

} // verus!
