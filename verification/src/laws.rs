//! What holds of every resolution, whatever the table and the positions.
use vstd::prelude::*;
use crate::model::{declared, Handler, InhibitionView, Operation, RegistryView};
use crate::resolver::observed;
use crate::selection::Best;

verus! {

/// What a scan holds after the first `k` entries, with the entry that is
/// selected among them.
proof fn scan_prefix(
    registry: RegistryView,
    positions: Seq<i64>,
    operation: Operation,
    k: int,
) -> (held: (Best, Option<int>))
    requires
        0 <= k <= registry.table.len(),
    ensures
        registry.standing(positions, operation, k, held.0, held.1),
    decreases k,
{
    if k == 0 {
        (Best::spec_none(), None)
    } else {
        let (best, lead) = scan_prefix(registry, positions, operation, k - 1);
        let next = registry.scan_step(positions, operation, k - 1, best, lead);
        (registry.after_entry(positions, operation, k - 1, best), next)
    }
}

/// An entry is selected exactly when some entry can answer the request.
pub proof fn selected_when_any_can_answer(
    registry: RegistryView,
    positions: Seq<i64>,
    operation: Operation,
)
    ensures
        registry.winner(positions, operation) is Some <==> exists|i: int|
            registry.candidate(positions, operation, i),
        registry.winner(positions, operation) matches Some(w) ==> registry.wins(
            positions,
            operation,
            w,
        ),
{
    let (best, lead) = scan_prefix(registry, positions, operation, registry.table.len() as int);
    registry.scan_end(positions, operation, best, lead);
    match lead {
        Some(w) => {
            assert(registry.candidate(positions, operation, w));
        },
        None => {},
    }
}

/// The entry that wins is the one that `winner` names, and its handler is the
/// resolution.
pub proof fn winning_entry_is_selected(
    registry: RegistryView,
    positions: Seq<i64>,
    operation: Operation,
    i: int,
)
    requires
        registry.wins(positions, operation, i),
    ensures
        registry.winner(positions, operation) == Some(i),
        registry.resolution(positions, operation) == registry.table[i].handler,
{
    let w = choose|w: int| registry.wins(positions, operation, w);
    registry.lead_is_unique(positions, operation, registry.table.len() as int, i, w);
}

/// A handler other than the empty sentinel is returned only for an entry
/// whose pattern is a string that matched the name at a position of zero or
/// more, and whose handler supports the operation and is not inhibited.
pub proof fn resolution_comes_from_a_match(
    registry: RegistryView,
    positions: Seq<i64>,
    operation: Operation,
)
    ensures
        registry.resolution(positions, operation) != Handler::Nil ==> exists|i: int|
            #[trigger] registry.candidate(positions, operation, i) && registry.table[i].handler
                == registry.resolution(positions, operation),
{
    if registry.resolution(positions, operation) != Handler::Nil {
        let w = choose|w: int| registry.wins(positions, operation, w);
        assert(registry.candidate(positions, operation, w));
    }
}

/// Two registries with the same table, in which the same entries can answer
/// with the same positions, resolve alike.
pub proof fn same_candidates_resolve_alike(
    a: RegistryView,
    p: Seq<i64>,
    b: RegistryView,
    q: Seq<i64>,
    operation: Operation,
)
    requires
        a.table == b.table,
        forall|j: int| a.candidate(p, operation, j) <==> b.candidate(q, operation, j),
        forall|j: int| a.candidate(p, operation, j) ==> p[j] == q[j],
    ensures
        a.winner(p, operation) == b.winner(q, operation),
        a.resolution(p, operation) == b.resolution(q, operation),
{
    assert forall|i: int| a.wins(p, operation, i) implies b.wins(q, operation, i) by {
        assert(b.candidate(q, operation, i));
        assert forall|j: int|
            0 <= j < b.table.len() && #[trigger] b.candidate(q, operation, j) implies {
            &&& q[j] <= q[i]
            &&& j < i ==> q[j] < q[i]
        } by {
            assert(a.candidate(p, operation, j));
        }
    }
    assert forall|i: int| b.wins(q, operation, i) implies a.wins(p, operation, i) by {
        assert(a.candidate(p, operation, i));
        assert forall|j: int|
            0 <= j < a.table.len() && #[trigger] a.candidate(p, operation, j) implies {
            &&& p[j] <= p[i]
            &&& j < i ==> p[j] < p[i]
        } by {
            assert(b.candidate(q, operation, j));
        }
    }
    if exists|i: int| a.wins(p, operation, i) {
        let i = choose|i: int| a.wins(p, operation, i);
        winning_entry_is_selected(b, q, operation, i);
    } else {
        assert forall|i: int| !b.wins(q, operation, i) by {
            if b.wins(q, operation, i) {
                assert(a.wins(p, operation, i));
            }
        }
    }
}

/// The resolution reads only the positions of the entries about which the
/// matcher is asked.
pub proof fn resolution_reads_consulted_positions(
    registry: RegistryView,
    p: Seq<i64>,
    q: Seq<i64>,
    operation: Operation,
)
    requires
        p.len() == q.len(),
        forall|i: int| 0 <= i < p.len() && registry.consults(operation, i) ==> p[i] == q[i],
    ensures
        registry.resolution(p, operation) == registry.resolution(q, operation),
{
    same_candidates_resolve_alike(registry, p, registry, q, operation);
}

/// An empty table resolves to the empty sentinel, whatever the operation.
pub proof fn empty_table_has_no_handler(
    registry: RegistryView,
    positions: Seq<i64>,
    operation: Operation,
)
    requires
        registry.table.len() == 0,
    ensures
        registry.resolution(positions, operation) == Handler::Nil,
{
    assert forall|i: int| !registry.wins(positions, operation, i) by {}
}

/// An entry that can answer and whose position is strictly higher than that
/// of every other entry that can answer is selected, wherever it stands in
/// the table.
pub proof fn highest_position_is_selected(
    registry: RegistryView,
    positions: Seq<i64>,
    operation: Operation,
    b: int,
)
    requires
        registry.candidate(positions, operation, b),
        forall|j: int|
            j != b && registry.candidate(positions, operation, j) ==> positions[j] < positions[b],
    ensures
        registry.resolution(positions, operation) == registry.table[b].handler,
{
    assert(registry.wins(positions, operation, b));
    winning_entry_is_selected(registry, positions, operation, b);
}

/// In a table of one pair whose pattern matches and whose handler declares
/// no operations, that handler is returned for every operation for which it
/// is not inhibited.
pub proof fn single_match_is_selected(
    registry: RegistryView,
    positions: Seq<i64>,
    operation: Operation,
)
    requires
        registry.table.len() == 1,
        registry.table[0].text is Some,
        registry.table[0].handler matches Handler::Named(name)
            ==> declared(registry.capabilities, name).is_empty(),
        positions.len() == 1,
        positions[0] >= 0,
        !registry.inhibition.blocks(operation, registry.table[0].handler),
    ensures
        registry.resolution(positions, operation) == registry.table[0].handler,
{
    highest_position_is_selected(registry, positions, operation, 0);
}

/// Of two pairs that both match, the one that matches at the higher position
/// is selected, whether it comes first or second, where its handler supports
/// the operation and is not inhibited.
pub proof fn higher_of_two_is_selected(
    registry: RegistryView,
    positions: Seq<i64>,
    operation: Operation,
    a: int,
    b: int,
)
    requires
        registry.table.len() == 2,
        0 <= a < 2,
        0 <= b < 2,
        a != b,
        positions.len() == 2,
        registry.table[a].text is Some,
        0 <= positions[a] < positions[b],
        registry.candidate(positions, operation, b),
    ensures
        registry.resolution(positions, operation) == registry.table[b].handler,
{
    highest_position_is_selected(registry, positions, operation, b);
}

/// An entry is never selected over an earlier one that can answer with the
/// same position.
pub proof fn earlier_of_equals_is_preferred(
    registry: RegistryView,
    positions: Seq<i64>,
    operation: Operation,
    i: int,
    j: int,
)
    requires
        i < j,
        registry.candidate(positions, operation, i),
        registry.candidate(positions, operation, j),
        positions[i] == positions[j],
    ensures
        registry.winner(positions, operation) != Some(j),
{
    if registry.winner(positions, operation) == Some(j) {
        assert(registry.wins(positions, operation, j));
    }
}

/// Of two pairs that match at the same position, the first is selected where
/// its handler supports the operation and is not inhibited.
pub proof fn first_of_two_equals_is_selected(
    registry: RegistryView,
    positions: Seq<i64>,
    operation: Operation,
)
    requires
        registry.table.len() == 2,
        positions.len() == 2,
        registry.table[1].text is Some,
        positions[0] == positions[1],
        registry.candidate(positions, operation, 0),
    ensures
        registry.resolution(positions, operation) == registry.table[0].handler,
{
    assert(registry.wins(positions, operation, 0));
    winning_entry_is_selected(registry, positions, operation, 0);
}

/// A named handler that declares operations, none of them the requested one,
/// is never returned for the request.
pub proof fn undeclared_operation_is_never_served(
    registry: RegistryView,
    positions: Seq<i64>,
    operation: Operation,
    name: u64,
)
    requires
        !declared(registry.capabilities, name).is_empty(),
        !declared(registry.capabilities, name).contains(operation),
    ensures
        registry.resolution(positions, operation) != Handler::Named(name),
{
    if registry.resolution(positions, operation) == Handler::Named(name) {
        let w = choose|w: int| registry.wins(positions, operation, w);
        assert(registry.candidate(positions, operation, w));
    }
}

/// The positions with every entry counted as unmatched whose handler is
/// passed over for `operation`.
pub open spec fn without_inhibited(
    registry: RegistryView,
    positions: Seq<i64>,
    operation: Operation,
) -> Seq<i64> {
    Seq::new(
        positions.len(),
        |i: int|
            if 0 <= i < registry.table.len() && registry.inhibition.blocks(
                operation,
                registry.table[i].handler,
            ) {
                -1i64
            } else {
                positions[i]
            },
    )
}

/// The registry with the guard taken off.
pub open spec fn unguarded(registry: RegistryView) -> RegistryView {
    RegistryView {
        table: registry.table,
        capabilities: registry.capabilities,
        inhibition: InhibitionView { operation: None, handlers: registry.inhibition.handlers },
    }
}

/// While the guard is set for the requested operation, a handler in the
/// guarded set is never returned, and the lookup resolves as if the entries
/// of all such handlers had not matched: to the best of the others, or to the
/// empty sentinel where none of them can answer.
pub proof fn inhibited_handler_is_skipped(
    registry: RegistryView,
    positions: Seq<i64>,
    operation: Operation,
    handler: Handler,
)
    requires
        registry.inhibition.guards(operation),
        registry.inhibition.handlers.contains(handler),
    ensures
        handler != Handler::Nil ==> registry.resolution(positions, operation) != handler,
        registry.resolution(positions, operation) == unguarded(registry).resolution(
            without_inhibited(registry, positions, operation),
            operation,
        ),
{
    if registry.resolution(positions, operation) == handler && handler != Handler::Nil {
        let w = choose|w: int| registry.wins(positions, operation, w);
        assert(registry.candidate(positions, operation, w));
    }
    let free = unguarded(registry);
    let masked = without_inhibited(registry, positions, operation);
    assert forall|j: int|
        registry.candidate(positions, operation, j) <==> free.candidate(
            masked,
            operation,
            j,
        ) by {}
    same_candidates_resolve_alike(registry, positions, free, masked, operation);
}

/// While the guard is not set for the requested operation, the guarded set
/// has no effect: the lookup resolves as it does with any other set.
pub proof fn guard_for_another_operation_has_no_effect(
    registry: RegistryView,
    other: RegistryView,
    positions: Seq<i64>,
    operation: Operation,
)
    requires
        !registry.inhibition.guards(operation),
        !other.inhibition.guards(operation),
        other.table == registry.table,
        other.capabilities == registry.capabilities,
    ensures
        registry.resolution(positions, operation) == other.resolution(positions, operation),
{
    same_candidates_resolve_alike(registry, positions, other, positions, operation);
}

/// An element of the table that is not a pair with a string pattern is never
/// selected, and the position held for it changes nothing.
pub proof fn entry_without_text_is_never_selected(
    registry: RegistryView,
    positions: Seq<i64>,
    operation: Operation,
    i: int,
    position: i64,
)
    requires
        0 <= i < registry.table.len(),
        registry.table[i].text is None,
    ensures
        !registry.consults(operation, i),
        registry.winner(positions, operation) != Some(i),
        i < positions.len() ==> registry.resolution(positions.update(i, position), operation)
            == registry.resolution(positions, operation),
{
    if registry.winner(positions, operation) == Some(i) {
        assert(registry.wins(positions, operation, i));
    }
    if i < positions.len() {
        resolution_reads_consulted_positions(
            registry,
            positions,
            positions.update(i, position),
            operation,
        );
    }
}

/// Where the matcher has one answer for each pattern and this name, every
/// lookup that runs to its end returns the same handler.
pub proof fn one_answer_gives_one_handler<E, M: Fn(&str, &str) -> Result<i64, E>>(
    registry: RegistryView,
    matcher: M,
    name: &str,
    operation: Operation,
    p: Seq<i64>,
    q: Seq<i64>,
)
    requires
        forall|s: &str, t: &str, x: i64, y: i64|
            s@ == t@ && #[trigger] call_ensures(matcher, (s, name), Ok::<i64, E>(x))
                && #[trigger] call_ensures(matcher, (t, name), Ok::<i64, E>(y)) ==> x == y,
        observed(registry, matcher, name, operation, p),
        observed(registry, matcher, name, operation, q),
    ensures
        registry.resolution(p, operation) == registry.resolution(q, operation),
{
    assert forall|i: int| 0 <= i < p.len() && registry.consults(operation, i) implies p[i]
        == q[i] by {
        let pattern = registry.table[i].text->0;
        let s = choose|s: &str|
            s@ == pattern && call_ensures(matcher, (s, name), Ok::<i64, E>(p[i]));
        let t = choose|t: &str|
            t@ == pattern && call_ensures(matcher, (t, name), Ok::<i64, E>(q[i]));
        assert(call_ensures(matcher, (s, name), Ok::<i64, E>(p[i])));
        assert(call_ensures(matcher, (t, name), Ok::<i64, E>(q[i])));
    }
    resolution_reads_consulted_positions(registry, p, q, operation);
}

} // verus!
