//! The data that a lookup reads: handlers, operations, the handler table, the
//! declared capabilities of named handlers and the inhibition guard, each with
//! the mathematical value that the contracts speak of.
use vstd::prelude::*;

verus! {

/// The identity of a kind of file operation. Two operations are the same
/// exactly when their identities are equal.
#[derive(Clone, Copy, Debug, PartialEq, Eq, Hash, Structural)]
pub struct Operation(pub u64);

/// A handler value as it stands in the table: the empty sentinel, a handler
/// known by a name, or a callable without one. Handlers are compared by
/// identity.
#[derive(Clone, Copy, Debug, PartialEq, Eq, Hash, Structural)]
pub enum Handler {
    /// No handler.
    Nil,
    /// A handler that resolves to a named identity.
    Named(u64),
    /// A callable that has no name.
    Anonymous(u64),
}

/// The first half of a table pair.
#[derive(Clone, Debug)]
pub enum Pattern {
    /// A string that the matcher understands as a pattern.
    Text(String),
    /// Any value that is not a string; it is never handed to the matcher.
    Other,
}

/// One element of the handler table.
#[derive(Clone, Debug)]
pub enum Entry {
    /// A pattern with the handler registered for it.
    Pair { pattern: Pattern, handler: Handler },
    /// An element that is not a pair; a lookup passes over it.
    Malformed,
}

/// The operations that a named handler declares support for.
#[derive(Clone, Debug)]
pub struct Declaration {
    pub handler: u64,
    pub operations: Vec<Operation>,
}

/// The store of declarations. Where a name is declared more than once, the
/// first declaration counts.
#[derive(Clone, Debug)]
pub struct Capabilities {
    pub declarations: Vec<Declaration>,
}

/// The guard against recursive dispatch: while `operation` is being handled,
/// the handlers in `handlers` are passed over for that operation.
#[derive(Clone, Debug)]
pub struct Inhibition {
    pub operation: Option<Operation>,
    pub handlers: Vec<Handler>,
}

/// Everything a lookup reads besides the file name and the operation.
#[derive(Clone, Debug)]
pub struct Registry {
    pub table: Vec<Entry>,
    pub capabilities: Capabilities,
    pub inhibition: Inhibition,
}

/// What a lookup reads of a table element: the characters of its pattern,
/// where the element is a pair whose pattern is a string, and its handler.
pub struct EntryView {
    pub text: Option<Seq<char>>,
    pub handler: Handler,
}

/// The guard as a value: the guarded operation and the set of handlers that
/// are passed over for it.
pub struct InhibitionView {
    pub operation: Option<Operation>,
    pub handlers: Set<Handler>,
}

/// The registry as a value: the table in its order, the set of operations
/// declared for each name that has a declaration, and the guard.
pub struct RegistryView {
    pub table: Seq<EntryView>,
    pub capabilities: Map<u64, Set<Operation>>,
    pub inhibition: InhibitionView,
}

/// The operations declared for `name`; the empty set where none are declared.
pub open spec fn declared(capabilities: Map<u64, Set<Operation>>, name: u64) -> Set<Operation> {
    if capabilities.dom().contains(name) {
        capabilities[name]
    } else {
        Set::empty()
    }
}

/// A handler supports an operation unless it is named and declares a set of
/// operations that is not empty and does not hold this one.
pub open spec fn supports(
    capabilities: Map<u64, Set<Operation>>,
    handler: Handler,
    operation: Operation,
) -> bool {
    match handler {
        Handler::Named(name) => declared(capabilities, name).is_empty() || declared(
            capabilities,
            name,
        ).contains(operation),
        _ => true,
    }
}

impl InhibitionView {
    /// Whether the guard is set for `operation`.
    pub open spec fn guards(self, operation: Operation) -> bool {
        self.operation == Some(operation)
    }

    /// Whether `handler` is passed over when `operation` is requested.
    pub open spec fn blocks(self, operation: Operation, handler: Handler) -> bool {
        self.guards(operation) && self.handlers.contains(handler)
    }
}

impl View for Entry {
    type V = EntryView;

    open spec fn view(&self) -> EntryView {
        match self {
            Entry::Pair { pattern: Pattern::Text(text), handler } => EntryView {
                text: Some(text@),
                handler: *handler,
            },
            Entry::Pair { pattern: Pattern::Other, handler } => EntryView {
                text: None,
                handler: *handler,
            },
            Entry::Malformed => EntryView { text: None, handler: Handler::Nil },
        }
    }
}

impl View for Capabilities {
    type V = Map<u64, Set<Operation>>;

    open spec fn view(&self) -> Map<u64, Set<Operation>> {
        Map::new(
            |name: u64|
                exists|i: int|
                    0 <= i < self.declarations@.len() && self.declarations@[i].handler == name,
            |name: u64| self.declarations@[self.first_place(name)].operations@.to_set(),
        )
    }
}

impl View for Inhibition {
    type V = InhibitionView;

    open spec fn view(&self) -> InhibitionView {
        InhibitionView { operation: self.operation, handlers: self.handlers@.to_set() }
    }
}

impl View for Registry {
    type V = RegistryView;

    open spec fn view(&self) -> RegistryView {
        RegistryView {
            table: self.table@.map_values(|entry: Entry| entry@),
            capabilities: self.capabilities@,
            inhibition: self.inhibition@,
        }
    }
}

impl Entry {
    /// The handler of a pair; the empty sentinel for an element without one.
    pub fn handler(&self) -> (handler: Handler)
        ensures
            handler == self@.handler,
    {
        match self {
            Entry::Pair { handler, .. } => *handler,
            Entry::Malformed => Handler::Nil,
        }
    }
}

impl Capabilities {
    /// `i` is the place of the first declaration made for `name`.
    pub open spec fn declares_at(&self, name: u64, i: int) -> bool {
        &&& 0 <= i < self.declarations@.len()
        &&& self.declarations@[i].handler == name
        &&& forall|j: int| 0 <= j < i ==> self.declarations@[j].handler != name
    }

    /// The place of the first declaration made for `name`, where there is one.
    pub open spec fn first_place(&self, name: u64) -> int {
        choose|i: int| self.declares_at(name, i)
    }

    /// The first declaration made for a name stands at one place only, and the
    /// value of the store holds that declaration's operations for the name.
    pub proof fn first_place_is_unique(&self, name: u64, i: int)
        requires
            self.declares_at(name, i),
        ensures
            self.first_place(name) == i,
            self@.dom().contains(name),
            self@[name] == self.declarations@[i].operations@.to_set(),
    {
        let first = self.first_place(name);
        assert(self.declares_at(name, first));
    }

    /// The place of the first declaration made for `name`, if there is one.
    pub fn first_declaration(&self, name: u64) -> (place: Option<usize>)
        ensures
            match place {
                Some(i) => self.declares_at(name, i as int),
                None => !self@.dom().contains(name),
            },
    {
        let mut i: usize = 0;
        while i < self.declarations.len()
            invariant
                i <= self.declarations@.len(),
                forall|j: int| 0 <= j < i ==> self.declarations@[j].handler != name,
            decreases self.declarations@.len() - i,
        {
            if self.declarations[i].handler == name {
                return Some(i);
            }
            i += 1;
        }
        None
    }

    /// Whether `handler` may serve `operation`.
    pub fn supports(&self, handler: Handler, operation: Operation) -> (supported: bool)
        ensures
            supported == supports(self@, handler, operation),
    {
        match handler {
            Handler::Named(name) => match self.first_declaration(name) {
                Some(i) => {
                    let operations = &self.declarations[i].operations;
                    proof {
                        self.first_place_is_unique(name, i as int);
                        if operations@.len() > 0 {
                            assert(operations@.to_set().contains(operations@[0]));
                        }
                    }
                    operations.len() == 0 || holds(operations, operation)
                },
                None => true,
            },
            _ => true,
        }
    }
}

/// Whether `operation` occurs among `operations`.
pub fn holds(operations: &Vec<Operation>, operation: Operation) -> (found: bool)
    ensures
        found == operations@.to_set().contains(operation),
{
    let mut i: usize = 0;
    while i < operations.len()
        invariant
            i <= operations@.len(),
            forall|j: int| 0 <= j < i ==> operations@[j] != operation,
        decreases operations@.len() - i,
    {
        if operations[i] == operation {
            assert(operations@[i as int] == operation);
            return true;
        }
        i += 1;
    }
    false
}

impl Inhibition {
    /// Whether the guard is set for `operation`.
    pub fn guards(&self, operation: Operation) -> (guarded: bool)
        ensures
            guarded == self@.guards(operation),
    {
        match self.operation {
            Some(inhibited) => inhibited == operation,
            None => false,
        }
    }

    /// Whether `handler` is passed over when `operation` is requested.
    pub fn blocks(&self, operation: Operation, handler: Handler) -> (blocked: bool)
        ensures
            blocked == self@.blocks(operation, handler),
    {
        if !self.guards(operation) {
            return false;
        }
        let mut i: usize = 0;
        while i < self.handlers.len()
            invariant
                self@.guards(operation),
                i <= self.handlers@.len(),
                forall|j: int| 0 <= j < i ==> self.handlers@[j] != handler,
            decreases self.handlers@.len() - i,
        {
            if self.handlers[i] == handler {
                assert(self.handlers@[i as int] == handler);
                return true;
            }
            i += 1;
        }
        false
    }
}

} // verus!
