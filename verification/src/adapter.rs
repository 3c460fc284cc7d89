//! Which GPU adapter a renderer runs on: the one whose name holds the name
//! asked for, or else an integrated GPU, a discrete one, or whatever comes
//! first.

use vstd::prelude::*;

verus! {

/// The kinds of adapter the choice tells apart.
#[derive(Clone, Copy, Debug, PartialEq, Eq, Structural)]
pub enum AdapterKind {
    IntegratedGpu,
    DiscreteGpu,
    Other,
}

/// Whether `pattern` occurs in `text`, as a run of consecutive characters.
pub open spec fn occurs_in(text: Seq<char>, pattern: Seq<char>) -> bool {
    exists|i: int| 0 <= i && i + pattern.len() <= text.len() && #[trigger] text.subrange(i, i + pattern.len()) == pattern
}

/// `str::contains` with a string pattern: whether `pattern` matches a part
/// of `text`, as std documents it.
#[verifier::external_body]
fn str_contains(text: &str, pattern: &str) -> (found: bool)
    ensures
        found == occurs_in(text@, pattern@),
{
    text.contains(pattern)
}

/// Whether an adapter's name holds `name`.
pub open spec fn named(name: Seq<char>) -> spec_fn((String, AdapterKind)) -> bool {
    |entry: (String, AdapterKind)| occurs_in(entry.0@, name)
}

/// Whether an adapter is of the kind `kind`.
pub open spec fn of_kind(kind: AdapterKind) -> spec_fn((String, AdapterKind)) -> bool {
    |entry: (String, AdapterKind)| entry.1 == kind
}

/// The position of the first of `adapters` that satisfies `wanted`, if any.
pub open spec fn first_such(adapters: Seq<(String, AdapterKind)>, wanted: spec_fn((String, AdapterKind)) -> bool) -> Option<int> {
    if exists|i: int| 0 <= i < adapters.len() && wanted(adapters[i]) {
        Some(choose|i: int| 0 <= i < adapters.len() && wanted(adapters[i]) && forall|j: int| 0 <= j < i ==> !wanted(adapters[j]))
    } else {
        None
    }
}

/// When `i` is the first position that satisfies `wanted`, `first_such`
/// names it.
proof fn lemma_first_such(adapters: Seq<(String, AdapterKind)>, wanted: spec_fn((String, AdapterKind)) -> bool, i: int)
    requires
        0 <= i < adapters.len(),
        wanted(adapters[i]),
        forall|j: int| 0 <= j < i ==> !wanted(#[trigger] adapters[j]),
    ensures
        first_such(adapters, wanted) == Some(i),
{
    let k = choose|k: int| 0 <= k < adapters.len() && wanted(adapters[k]) && forall|j: int| 0 <= j < k ==> !wanted(adapters[j]);
    assert(0 <= k < adapters.len() && wanted(adapters[k]) && forall|j: int| 0 <= j < k ==> !wanted(adapters[j]));
    if k < i {
        assert(!wanted(adapters[k]));
    } else if k > i {
        assert(!wanted(adapters[i]));
    }
}

/// The position of the first adapter whose name holds `name`.
fn first_named(adapters: &[(String, AdapterKind)], name: &str) -> (found: Option<usize>)
    ensures
        match found {
            Some(i) => first_such(adapters@, named(name@)) == Some(i as int),
            None => first_such(adapters@, named(name@)) is None,
        },
{
    let mut i: usize = 0;
    while i < adapters.len()
        invariant
            i <= adapters@.len(),
            forall|j: int| 0 <= j < i ==> !named(name@)(#[trigger] adapters@[j]),
        decreases adapters@.len() - i,
    {
        if str_contains(adapters[i].0.as_str(), name) {
            proof {
                lemma_first_such(adapters@, named(name@), i as int);
            }
            return Some(i);
        }
        i = i + 1;
    }
    None
}

/// The position of the first adapter of the kind `kind`.
fn first_of_kind(adapters: &[(String, AdapterKind)], kind: AdapterKind) -> (found: Option<usize>)
    ensures
        match found {
            Some(i) => first_such(adapters@, of_kind(kind)) == Some(i as int),
            None => first_such(adapters@, of_kind(kind)) is None,
        },
{
    let mut i: usize = 0;
    while i < adapters.len()
        invariant
            i <= adapters@.len(),
            forall|j: int| 0 <= j < i ==> !of_kind(kind)(#[trigger] adapters@[j]),
        decreases adapters@.len() - i,
    {
        if adapters[i].1 == kind {
            proof {
                lemma_first_such(adapters@, of_kind(kind), i as int);
            }
            return Some(i);
        }
        i = i + 1;
    }
    None
}

/// The adapter to run on, by position among `adapters` (each a name and a
/// kind): with a name asked for, the first adapter whose name holds it, and
/// none otherwise; without, the first integrated GPU, else the first
/// discrete one, else the first adapter there is. The error carries the
/// name asked for, if one was.
pub fn choose_adapter(adapters: &[(String, AdapterKind)], wanted: Option<&str>) -> (choice: Result<usize, Option<String>>)
    ensures
        match wanted {
            Some(name) => match first_such(adapters@, named(name@)) {
                Some(i) => choice == Ok::<usize, Option<String>>(i as usize),
                None => choice matches Err(Some(asked)) && asked@ == name@,
            },
            None => match first_such(adapters@, of_kind(AdapterKind::IntegratedGpu)) {
                Some(i) => choice == Ok::<usize, Option<String>>(i as usize),
                None => match first_such(adapters@, of_kind(AdapterKind::DiscreteGpu)) {
                    Some(i) => choice == Ok::<usize, Option<String>>(i as usize),
                    None => if adapters@.len() > 0 {
                        choice == Ok::<usize, Option<String>>(0)
                    } else {
                        choice == Err::<usize, Option<String>>(None)
                    },
                },
            },
        },
{
    match wanted {
        Some(name) => match first_named(adapters, name) {
            Some(i) => Ok(i),
            None => Err(Some(name.to_owned())),
        },
        None => {
            if let Some(i) = first_of_kind(adapters, AdapterKind::IntegratedGpu) {
                return Ok(i);
            }
            if let Some(i) = first_of_kind(adapters, AdapterKind::DiscreteGpu) {
                return Ok(i);
            }
            if adapters.len() > 0 {
                Ok(0)
            } else {
                Err(None)
            }
        },
    }
}

} // verus!
