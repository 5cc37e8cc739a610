//! Geometry of the regular 5-cell (pentachoron) overlay: its edge list.

use vstd::prelude::*;

verus! {

/// Number of vertices of the pentachoron.
pub open spec fn vertex_count() -> int {
    5
}

/// The edge list as a sequence of 20 vertex indices, one pair per edge:
/// every unordered pair `(a, b)` with `a < b`, in lexicographic order.
pub open spec fn edge_list() -> Seq<u16> {
    seq![0u16, 1, 0, 2, 0, 3, 0, 4, 1, 2, 1, 3, 1, 4, 2, 3, 2, 4, 3, 4]
}

/// All 10 edges of the pentachoron (20 `u16` indices, one pair per edge).
pub fn edge_indices() -> (r: [u16; 20])
    ensures
        r@ == edge_list(),
{
    let r: [u16; 20] = [0, 1, 0, 2, 0, 3, 0, 4, 1, 2, 1, 3, 1, 4, 2, 3, 2, 4, 3, 4];
    assert(r@ =~= edge_list());
    r
}

/// Position, in the edge list, of the edge joining vertices `a < b`.
pub open spec fn edge_position(a: int, b: int) -> int {
    let row = if a == 0 { 0int } else if a == 1 { 4int } else if a == 2 { 7int } else { 9int };
    row + (b - a - 1)
}

/// Every vertex pair of the edge list at position `e` (for `0 <= e < 10`).
pub open spec fn edge_at(e: int) -> (int, int) {
    (edge_list()[2 * e] as int, edge_list()[2 * e + 1] as int)
}

/// Whether some edge of the list joins `a` and `b` (in that order).
pub open spec fn has_edge(a: int, b: int) -> bool {
    exists|e: int| 0 <= e < 10 && #[trigger] edge_at(e) == (a, b)
}

proof fn lemma_edge_positions()
    ensures
        forall|e: int| #![trigger edge_at(e)] 0 <= e < 10 ==> {
            let (a, b) = edge_at(e);
            &&& 0 <= a < b < vertex_count()
            &&& edge_position(a, b) == e
        },
{
    assert forall|e: int| #![trigger edge_at(e)] 0 <= e < 10 implies {
        let (a, b) = edge_at(e);
        &&& 0 <= a < b < vertex_count()
        &&& edge_position(a, b) == e
    } by {
        if e == 0 {} else if e == 1 {} else if e == 2 {} else if e == 3 {} else if e == 4 {}
        else if e == 5 {} else if e == 6 {} else if e == 7 {} else if e == 8 {} else {}
    }
}

/// The index buffer describes the complete graph on the five vertices:
/// it holds ten edges, each joining two distinct vertices `a < b < 5`,
/// every pair of distinct vertices is joined by an edge, and no edge
/// occurs twice.
pub proof fn lemma_edges_form_complete_graph()
    ensures
        edge_list().len() == 20,
        forall|k: int| 0 <= k < 20 ==> #[trigger] edge_list()[k] < vertex_count(),
        forall|e: int| 0 <= e < 10 ==> (#[trigger] edge_at(e)).0 < edge_at(e).1,
        forall|a: int, b: int| 0 <= a < b < vertex_count() ==> #[trigger] has_edge(a, b),
        forall|e1: int, e2: int|
            0 <= e1 < 10 && 0 <= e2 < 10 && e1 != e2 ==> #[trigger] edge_at(e1) != #[trigger] edge_at(e2),
{
    lemma_edge_positions();
    assert forall|k: int| 0 <= k < 20 implies #[trigger] edge_list()[k] < vertex_count() by {
        let e = k / 2;
        assert(edge_at(e) == edge_at(e));
    }
    assert forall|a: int, b: int| 0 <= a < b < vertex_count() implies #[trigger] has_edge(a, b) by {
        let e = edge_position(a, b);
        if a == 0 {
            if b == 1 {} else if b == 2 {} else if b == 3 {} else {}
        } else if a == 1 {
            if b == 2 {} else if b == 3 {} else {}
        } else if a == 2 {
            if b == 3 {} else {}
        } else {}
        assert(edge_at(e) == (a, b));
    }
}

} // verus!
