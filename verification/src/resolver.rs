//! The lookup itself: a scan of the table that asks a matcher for the position
//! of each pattern in the file name and stops when the host asks it to.
use vstd::prelude::*;
use crate::model::{Handler, Operation, Registry, RegistryView};
use crate::selection::Best;

verus! {

/// Why a lookup ended without a handler being selected.
#[derive(Clone, Copy, Debug, PartialEq, Eq)]
pub enum Abandoned<E> {
    /// The host asked at a checkpoint that the lookup be given up.
    Interrupted,
    /// The matcher failed; its error is handed on as it came.
    MatcherFailed(E),
}

/// Whether `position` is something the matcher may answer when it is asked
/// where a pattern with these characters matches `name`.
pub open spec fn reports<E, M: Fn(&str, &str) -> Result<i64, E>>(
    matcher: M,
    pattern: Seq<char>,
    name: &str,
    position: i64,
) -> bool {
    exists|text: &str|
        text@ == pattern && call_ensures(matcher, (text, name), Ok::<i64, E>(position))
}

/// Whether the matcher may fail with `error` when it is asked where a pattern
/// with these characters matches `name`.
pub open spec fn fails<E, M: Fn(&str, &str) -> Result<i64, E>>(
    matcher: M,
    pattern: Seq<char>,
    name: &str,
    error: E,
) -> bool {
    exists|text: &str|
        text@ == pattern && call_ensures(matcher, (text, name), Err::<i64, E>(error))
}

/// Whether a lookup of `operation` hands a pattern with these characters to
/// the matcher.
pub open spec fn asks(registry: RegistryView, operation: Operation, pattern: Seq<char>) -> bool {
    exists|i: int| registry.consults(operation, i) && registry.table[i].text == Some(pattern)
}

/// Whether `positions` holds, for each entry about which the matcher is asked,
/// an answer that the matcher may give for that entry's pattern and `name`.
pub open spec fn observed<E, M: Fn(&str, &str) -> Result<i64, E>>(
    registry: RegistryView,
    matcher: M,
    name: &str,
    operation: Operation,
    positions: Seq<i64>,
) -> bool {
    &&& positions.len() == registry.table.len()
    &&& forall|i: int|
        registry.consults(operation, i) ==> reports(
            matcher,
            registry.table[i].text->0,
            name,
            #[trigger] positions[i],
        )
}

/// The handler that is to serve `operation` on the file `name`, or the empty
/// sentinel where the file has none.
///
/// The table is scanned in its order. `matcher` is called with a pattern and
/// `name` for each pair whose pattern is a string and whose handler supports
/// the operation, and for no other element. It answers with the position of
/// the match, or with a negative number where there is none; where it fails,
/// the lookup ends at once with its error. After each element of the table
/// `checkpoint` is called; when it answers `true` the lookup ends at once as
/// interrupted. A lookup that runs to its end returns the resolution of the
/// table for the positions that the matcher gave. The registry is only read.
pub fn find_file_name_handler<E, M, C>(
    name: &str,
    operation: Operation,
    registry: &Registry,
    matcher: M,
    checkpoint: C,
) -> (result: Result<Handler, Abandoned<E>>) where
    M: Fn(&str, &str) -> Result<i64, E>,
    C: Fn() -> bool,

    requires
        forall|text: &str|
            asks(registry@, operation, text@) ==> call_requires(matcher, (text, name)),
        registry.table@.len() > 0 ==> call_requires(checkpoint, ()),
    ensures
        match result {
            Ok(handler) => {
                &&& exists|positions: Seq<i64>|
                    #[trigger] observed(registry@, matcher, name, operation, positions) && handler
                        == registry@.resolution(positions, operation)
                &&& registry.table@.len() > 0 ==> call_ensures(checkpoint, (), false)
            },
            Err(Abandoned::Interrupted) => {
                &&& registry.table@.len() > 0
                &&& call_ensures(checkpoint, (), true)
            },
            Err(Abandoned::MatcherFailed(error)) => exists|i: int|
                #[trigger] registry@.consults(operation, i) && fails(
                    matcher,
                    registry@.table[i].text->0,
                    name,
                    error,
                ),
        },
        registry.table@.len() == 0 ==> result == Ok::<Handler, Abandoned<E>>(Handler::Nil),
{
    let mut best = Best::none();
    let ghost mut lead: Option<int> = None;
    let ghost mut positions: Seq<i64> = Seq::empty();
    let mut k: usize = 0;
    while k < registry.table.len()
        invariant
            forall|text: &str|
                asks(registry@, operation, text@) ==> call_requires(matcher, (text, name)),
            registry.table@.len() > 0 ==> call_requires(checkpoint, ()),
            k <= registry.table@.len(),
            positions.len() == k,
            forall|i: int|
                0 <= i < k && registry@.consults(operation, i) ==> reports(
                    matcher,
                    registry@.table[i].text->0,
                    name,
                    #[trigger] positions[i],
                ),
            registry@.standing(positions, operation, k as int, best, lead),
            k > 0 ==> call_ensures(checkpoint, (), false),
        decreases registry.table@.len() - k,
    {
        let entry = &registry.table[k];
        let ghost seen = positions;
        let ghost held = best;
        match registry.pattern_for(entry, operation) {
            Some(pattern) => {
                assert(registry@.consults(operation, k as int));
                assert(asks(registry@, operation, pattern@));
                match matcher(pattern, name) {
                    Ok(position) => {
                        proof {
                            positions = seen.push(position);
                            assert(reports(matcher, pattern@, name, position));
                        }
                        best = registry.offer(best, entry.handler(), position, operation);
                    },
                    Err(error) => {
                        assert(fails(matcher, pattern@, name, error));
                        return Err(Abandoned::MatcherFailed(error));
                    },
                }
            },
            None => {
                proof {
                    positions = seen.push(-1i64);
                }
            },
        }
        proof {
            registry@.standing_agrees(seen, positions, operation, k as int, held, lead);
            lead = registry@.scan_step(positions, operation, k as int, held, lead);
        }
        if checkpoint() {
            return Err(Abandoned::Interrupted);
        }
        k += 1;
    }
    proof {
        registry@.scan_end(positions, operation, best, lead);
        assert(observed(registry@, matcher, name, operation, positions));
        if registry.table@.len() == 0 {
            assert(lead is None);
        }
    }
    Ok(best.handler)
}

} // verus!
