//! Registering the built-in tools with a dispatcher.
use vstd::prelude::*;
use crate::tools::dispatcher::{ToolDispatcher, ToolDispatcherError, ToolSchema};

verus! {

/// What registering `schemas` in order does to the tools `m`: each is
/// added until one whose name is taken, whose name is then the error; the
/// tools added before it stay.
pub open spec fn registered(
    m: Map<Seq<char>, (Seq<char>, Seq<char>)>,
    schemas: Seq<ToolSchema>,
) -> (Map<Seq<char>, (Seq<char>, Seq<char>)>, Option<Seq<char>>)
    decreases schemas.len(),
{
    if schemas.len() == 0 {
        (m, None)
    } else {
        let (before, failed) = registered(m, schemas.drop_last());
        let s = schemas.last();
        if failed is Some {
            (before, failed)
        } else if before.contains_key(s.name@) {
            (before, Some(s.name@))
        } else {
            (before.insert(s.name@, (s.description@, s.parameters@)), None)
        }
    }
}

proof fn lemma_registered_stops(
    m: Map<Seq<char>, (Seq<char>, Seq<char>)>,
    schemas: Seq<ToolSchema>,
    i: int,
)
    requires
        0 <= i <= schemas.len(),
        registered(m, schemas.take(i)).1 is Some,
    ensures
        registered(m, schemas) == registered(m, schemas.take(i)),
    decreases schemas.len() - i,
{
    if i < schemas.len() {
        assert(schemas.take(i + 1).drop_last() =~= schemas.take(i));
        lemma_registered_stops(m, schemas, i + 1);
    } else {
        assert(schemas.take(i) =~= schemas);
    }
}

/// Registers the built-in tools, given their schemas, in order; the first
/// whose name is already registered stops it with `DuplicateName`.
pub fn register_builtin_tools(dispatcher: &mut ToolDispatcher, schemas: &[ToolSchema]) -> (r: Result<(), ToolDispatcherError>)
    requires
        old(dispatcher).wf(),
    ensures
        final(dispatcher).wf(),
        final(dispatcher).confirms() == old(dispatcher).confirms(),
        final(dispatcher).tools() == registered(old(dispatcher).tools(), schemas@).0,
        match registered(old(dispatcher).tools(), schemas@).1 {
            Some(n) => (r matches Err(ToolDispatcherError::DuplicateName(e)) && e@ == n),
            None => r is Ok,
        },
{
    let ghost start = dispatcher.tools();
    let mut i: usize = 0;
    while i < schemas.len()
        invariant
            i <= schemas@.len(),
            dispatcher.wf(),
            dispatcher.confirms() == old(dispatcher).confirms(),
            start == old(dispatcher).tools(),
            registered(start, schemas@.take(i as int)) == (dispatcher.tools(), None::<Seq<char>>),
        decreases schemas@.len() - i,
    {
        let s = &schemas[i];
        let schema = ToolSchema { name: s.name.clone(), description: s.description.clone(), parameters: s.parameters.clone() };
        proof { assert(schemas@.take(i + 1).drop_last() =~= schemas@.take(i as int)); }
        match dispatcher.register(schema) {
            Ok(()) => {},
            Err(e) => {
                proof { lemma_registered_stops(start, schemas@, i + 1); }
                return Err(e);
            },
        }
        i = i + 1;
    }
    proof { assert(schemas@.take(schemas@.len() as int) =~= schemas@); }
    Ok(())
}

} // verus!
