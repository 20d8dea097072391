//! Which entry of the table answers a request, given the position at which
//! each pattern matched the file name.
//!
//! A position below zero means that the pattern did not match. Among the
//! entries that can answer, the one with the highest position is selected, and
//! among several with that position the one that comes first in the table.
use vstd::prelude::*;
use crate::model::{supports, Entry, Handler, Operation, Pattern, Registry, RegistryView};

verus! {

/// The best match that a scan has found so far.
#[derive(Clone, Copy, Debug, PartialEq, Eq, Structural)]
pub struct Best {
    /// The position of the match, or -1 where nothing matched yet.
    pub position: i64,
    /// The handler of the matching entry.
    pub handler: Handler,
}

impl Best {
    /// The state of a scan that has found no match.
    pub open spec fn spec_none() -> Best {
        Best { position: -1i64, handler: Handler::Nil }
    }

    /// The state of a scan that has found no match.
    pub fn none() -> (best: Best)
        ensures
            best == Best::spec_none(),
    {
        Best { position: -1, handler: Handler::Nil }
    }
}

impl RegistryView {
    /// Whether the matcher is asked about entry `i`: the entry is a pair, its
    /// pattern is a string and its handler supports the operation.
    pub open spec fn consults(self, operation: Operation, i: int) -> bool {
        &&& 0 <= i < self.table.len()
        &&& self.table[i].text is Some
        &&& supports(self.capabilities, self.table[i].handler, operation)
    }

    /// Whether entry `i` can answer the request: the matcher was asked about
    /// it and reported a match, and its handler is not inhibited. An entry for
    /// which `positions` holds nothing counts as unmatched.
    pub open spec fn candidate(self, positions: Seq<i64>, operation: Operation, i: int) -> bool {
        &&& self.consults(operation, i)
        &&& i < positions.len()
        &&& positions[i] >= 0
        &&& !self.inhibition.blocks(operation, self.table[i].handler)
    }

    /// Whether entry `i` is selected among the first `upto` entries: it can
    /// answer, no entry there that can answer matched at a higher position,
    /// and none before `i` matched at the same one.
    pub open spec fn leads(
        self,
        positions: Seq<i64>,
        operation: Operation,
        upto: int,
        i: int,
    ) -> bool {
        &&& i < upto
        &&& self.candidate(positions, operation, i)
        &&& forall|j: int|
            0 <= j < upto && #[trigger] self.candidate(positions, operation, j) ==> {
                &&& positions[j] <= positions[i]
                &&& j < i ==> positions[j] < positions[i]
            }
    }

    /// Whether entry `i` is selected in the whole table.
    pub open spec fn wins(self, positions: Seq<i64>, operation: Operation, i: int) -> bool {
        self.leads(positions, operation, self.table.len() as int, i)
    }

    /// The place of the selected entry, if any entry can answer.
    pub open spec fn winner(self, positions: Seq<i64>, operation: Operation) -> Option<int> {
        if exists|i: int| self.wins(positions, operation, i) {
            Some(choose|i: int| self.wins(positions, operation, i))
        } else {
            None
        }
    }

    /// The handler that answers the request: that of the selected entry, or
    /// the empty sentinel where no entry can answer.
    pub open spec fn resolution(self, positions: Seq<i64>, operation: Operation) -> Handler {
        match self.winner(positions, operation) {
            Some(i) => self.table[i].handler,
            None => Handler::Nil,
        }
    }

    /// What becomes of `best` when a position is reported for an entry with
    /// this handler: a strictly higher position replaces it, unless the
    /// handler is inhibited for the operation.
    pub open spec fn offer(
        self,
        best: Best,
        handler: Handler,
        position: i64,
        operation: Operation,
    ) -> Best {
        if position > best.position && !self.inhibition.blocks(operation, handler) {
            Best { position, handler }
        } else {
            best
        }
    }

    /// What becomes of `best` at entry `k`: the position held for it is
    /// offered where the matcher is asked about the entry, and nothing
    /// changes where it is not.
    pub open spec fn after_entry(
        self,
        positions: Seq<i64>,
        operation: Operation,
        k: int,
        best: Best,
    ) -> Best {
        if self.consults(operation, k) && k < positions.len() {
            self.offer(best, self.table[k].handler, positions[k], operation)
        } else {
            best
        }
    }

    /// What a scan holds after the first `upto` entries: the match of the
    /// entry selected among them, or nothing where none of them can answer.
    pub open spec fn standing(
        self,
        positions: Seq<i64>,
        operation: Operation,
        upto: int,
        best: Best,
        lead: Option<int>,
    ) -> bool {
        match lead {
            Some(i) => {
                &&& self.leads(positions, operation, upto, i)
                &&& best.position == positions[i]
                &&& best.handler == self.table[i].handler
            },
            None => {
                &&& best == Best::spec_none()
                &&& forall|j: int| 0 <= j < upto ==> !self.candidate(positions, operation, j)
            },
        }
    }

    /// At most one entry is selected among the first `upto`.
    pub proof fn lead_is_unique(
        self,
        positions: Seq<i64>,
        operation: Operation,
        upto: int,
        i: int,
        j: int,
    )
        requires
            self.leads(positions, operation, upto, i),
            self.leads(positions, operation, upto, j),
        ensures
            i == j,
    {
    }

    /// Selection among the first `upto` entries reads only the positions of
    /// the entries there that can answer.
    pub proof fn leads_agree(
        self,
        p: Seq<i64>,
        q: Seq<i64>,
        operation: Operation,
        upto: int,
        i: int,
    )
        requires
            forall|j: int|
                0 <= j < upto ==> (self.candidate(p, operation, j) <==> self.candidate(
                    q,
                    operation,
                    j,
                )),
            forall|j: int| 0 <= j < upto && self.candidate(p, operation, j) ==> p[j] == q[j],
            self.leads(p, operation, upto, i),
        ensures
            self.leads(q, operation, upto, i),
    {
        assert forall|j: int| 0 <= j < upto && #[trigger] self.candidate(q, operation, j) implies {
            &&& q[j] <= q[i]
            &&& j < i ==> q[j] < q[i]
        } by {
            assert(self.candidate(p, operation, j));
        }
    }

    /// What a scan holds after the first `upto` entries does not depend on
    /// the positions that follow them.
    pub proof fn standing_agrees(
        self,
        p: Seq<i64>,
        q: Seq<i64>,
        operation: Operation,
        upto: int,
        best: Best,
        lead: Option<int>,
    )
        requires
            upto <= p.len(),
            upto <= q.len(),
            forall|j: int| 0 <= j < upto ==> p[j] == q[j],
            self.standing(p, operation, upto, best, lead),
        ensures
            self.standing(q, operation, upto, best, lead),
    {
        assert forall|j: int| 0 <= j < upto implies (self.candidate(p, operation, j)
            <==> self.candidate(q, operation, j)) by {
            assert(p[j] == q[j]);
        }
        match lead {
            Some(i) => {
                self.leads_agree(p, q, operation, upto, i);
                assert(p[i] == q[i]);
            },
            None => {},
        }
    }

    /// A scan that holds the selection among the first `k` entries holds the
    /// selection among the first `k + 1` after entry `k`.
    pub proof fn scan_step(
        self,
        positions: Seq<i64>,
        operation: Operation,
        k: int,
        best: Best,
        lead: Option<int>,
    ) -> (next: Option<int>)
        requires
            0 <= k < self.table.len(),
            self.standing(positions, operation, k, best, lead),
        ensures
            self.standing(
                positions,
                operation,
                k + 1,
                self.after_entry(positions, operation, k, best),
                next,
            ),
    {
        let after = self.after_entry(positions, operation, k, best);
        if self.candidate(positions, operation, k) && positions[k] > best.position {
            assert(self.leads(positions, operation, k + 1, k));
            Some(k)
        } else {
            assert(after == best);
            match lead {
                Some(i) => {
                    assert(self.leads(positions, operation, k + 1, i));
                },
                None => {},
            }
            lead
        }
    }

    /// A scan that has passed over the whole table holds the resolution.
    pub proof fn scan_end(
        self,
        positions: Seq<i64>,
        operation: Operation,
        best: Best,
        lead: Option<int>,
    )
        requires
            self.standing(positions, operation, self.table.len() as int, best, lead),
        ensures
            lead == self.winner(positions, operation),
            best.handler == self.resolution(positions, operation),
    {
        match lead {
            Some(i) => {
                assert(self.wins(positions, operation, i));
                let w = choose|w: int| self.wins(positions, operation, w);
                self.lead_is_unique(positions, operation, self.table.len() as int, i, w);
            },
            None => {
                assert forall|i: int| !self.wins(positions, operation, i) by {
                    if self.wins(positions, operation, i) {
                        assert(self.candidate(positions, operation, i));
                    }
                }
            },
        }
    }
}

impl Registry {
    /// The pattern to hand to the matcher for `entry`, or nothing where the
    /// entry is passed over without a match being tried: where it is not a
    /// pair, its pattern is not a string, or its handler does not support the
    /// operation.
    pub fn pattern_for<'a>(&self, entry: &'a Entry, operation: Operation) -> (text: Option<&'a str>)
        ensures
            text is Some <==> entry@.text is Some && supports(
                self@.capabilities,
                entry@.handler,
                operation,
            ),
            text matches Some(pattern) ==> entry@.text == Some(pattern@),
    {
        match entry {
            Entry::Pair { pattern: Pattern::Text(text), handler } => {
                if self.capabilities.supports(*handler, operation) {
                    Some(text.as_str())
                } else {
                    None
                }
            },
            _ => None,
        }
    }

    /// Takes the position that the matcher reported for an entry with this
    /// handler into account.
    pub fn offer(&self, best: Best, handler: Handler, position: i64, operation: Operation) -> (next:
        Best)
        ensures
            next == self@.offer(best, handler, position, operation),
    {
        if position > best.position && !self.inhibition.blocks(operation, handler) {
            Best { position, handler }
        } else {
            best
        }
    }
}

/// The handler that answers a request for `operation`, where `positions`
/// holds, in table order, the position at which each pattern matched the file
/// name. Positions of entries about which the matcher is not asked are not
/// read, and an entry for which `positions` holds nothing counts as unmatched.
pub fn select_handler(registry: &Registry, positions: &[i64], operation: Operation) -> (handler:
    Handler)
    ensures
        handler == registry@.resolution(positions@, operation),
        registry.table@.len() == 0 ==> handler == Handler::Nil,
{
    let mut best = Best::none();
    let ghost mut lead: Option<int> = None;
    let mut k: usize = 0;
    while k < registry.table.len()
        invariant
            k <= registry.table@.len(),
            registry@.standing(positions@, operation, k as int, best, lead),
        decreases registry.table@.len() - k,
    {
        let entry = &registry.table[k];
        proof {
            lead = registry@.scan_step(positions@, operation, k as int, best, lead);
        }
        if k < positions.len() && registry.pattern_for(entry, operation).is_some() {
            best = registry.offer(best, entry.handler(), positions[k], operation);
        }
        k += 1;
    }
    proof {
        registry@.scan_end(positions@, operation, best, lead);
        if registry.table@.len() == 0 {
            assert(lead is None);
        }
    }
    best.handler
}

} // verus!
