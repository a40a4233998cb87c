//! Filesystem types that can be mounted by name.
use vstd::prelude::*;
use vstd::string::*;

use crate::error::{VfsError, VfsResult};
use crate::text::same_text;

verus! {

/// The filesystem types known to the kernel. `C` is what makes a filesystem of
/// a type.
pub struct FsRegistry<C> {
    entries: Vec<(String, C)>,
}

impl<C> View for FsRegistry<C> {
    type V = Map<Seq<char>, C>;

    closed spec fn view(&self) -> Map<Seq<char>, C> {
        contents(self.entries@)
    }
}

/// Some entry has this name.
spec fn listed<C>(entries: Seq<(String, C)>, name: Seq<char>) -> bool {
    exists|i: int| 0 <= i < entries.len() && (#[trigger] entries[i]).0@ == name
}

/// The place of the entry with this name.
spec fn place<C>(entries: Seq<(String, C)>, name: Seq<char>) -> int {
    choose|i: int| 0 <= i < entries.len() && (#[trigger] entries[i]).0@ == name
}

/// What each name stands for.
spec fn contents<C>(entries: Seq<(String, C)>) -> Map<Seq<char>, C> {
    Map::new(|n: Seq<char>| listed(entries, n), |n: Seq<char>| entries[place(entries, n)].1)
}

/// No name stands twice.
spec fn distinct<C>(entries: Seq<(String, C)>) -> bool {
    forall|i: int, j: int|
        0 <= i < j < entries.len() ==> (#[trigger] entries[i]).0@ != (#[trigger] entries[j]).0@
}

/// The types after one was registered. A name that is taken stays with the type
/// that has it.
pub open spec fn registered<C>(types: Map<Seq<char>, C>, name: Seq<char>, creator: C) -> Map<
    Seq<char>,
    C,
> {
    if types.contains_key(name) {
        types
    } else {
        types.insert(name, creator)
    }
}

/// The types after one was unregistered.
pub open spec fn unregistered<C>(types: Map<Seq<char>, C>, name: Seq<char>) -> Map<Seq<char>, C> {
    types.remove(name)
}

/// What makes a filesystem of the type with this name.
pub open spec fn creator_of<C>(types: Map<Seq<char>, C>, name: Seq<char>) -> Option<C> {
    if types.contains_key(name) {
        Some(types[name])
    } else {
        None
    }
}

/// A type is found exactly if its name is known, and it is the one known by it.
pub proof fn law_found_by_name<C>(types: Map<Seq<char>, C>, name: Seq<char>)
    ensures
        creator_of(types, name) is Some <==> types.contains_key(name),
        types.contains_key(name) ==> creator_of(types, name) == Some(types[name]),
{
}

/// A registered type is found under its name, unless another had the name
/// first; types with other names are found as before.
pub proof fn law_registered_is_found<C>(
    types: Map<Seq<char>, C>,
    name: Seq<char>,
    creator: C,
    other: Seq<char>,
)
    ensures
        creator_of(registered(types, name, creator), name) == (match creator_of(types, name) {
            Some(first) => Some(first),
            None => Some(creator),
        }),
        other != name ==> creator_of(registered(types, name, creator), other) == creator_of(
            types,
            other,
        ),
{
}

/// An unregistered type is found no more; types with other names are found as
/// before.
pub proof fn law_unregistered_is_gone<C>(
    types: Map<Seq<char>, C>,
    name: Seq<char>,
    other: Seq<char>,
)
    ensures
        creator_of(unregistered(types, name), name) is None,
        other != name ==> creator_of(unregistered(types, name), other) == creator_of(types, other),
{
}

/// Unregistering undoes the registration of a name that was free.
pub proof fn law_unregister_undoes_register<C>(
    types: Map<Seq<char>, C>,
    name: Seq<char>,
    creator: C,
)
    requires
        !types.contains_key(name),
    ensures
        unregistered(registered(types, name, creator), name) == types,
{
    assert(unregistered(registered(types, name, creator), name) =~= types);
}

impl<C> FsRegistry<C> {
    /// No name stands twice.
    pub closed spec fn wf(&self) -> bool {
        distinct(self.entries@)
    }

    /// A registry without types.
    pub fn new() -> (registry: FsRegistry<C>)
        ensures
            registry.wf(),
            registry@ == Map::<Seq<char>, C>::empty(),
    {
        let registry = FsRegistry { entries: Vec::new() };
        assert(registry@ =~= Map::<Seq<char>, C>::empty());
        registry
    }

    /// Finds the entry with this name.
    fn find(&self, name: &str) -> (found: Option<usize>)
        ensures
            match found {
                Some(i) => i < self.entries@.len() && self.entries@[i as int].0@ == name@,
                None => !listed(self.entries@, name@),
            },
    {
        let mut i: usize = 0;
        while i < self.entries.len()
            invariant
                i <= self.entries@.len(),
                forall|k: int| 0 <= k < i ==> (#[trigger] self.entries@[k]).0@ != name@,
            decreases self.entries@.len() - i,
        {
            if same_text(self.entries[i].0.as_str(), name) {
                return Some(i);
            }
            i = i + 1;
        }
        None
    }
}

/// Register a filesystem type at runtime.
///
/// A name that is taken stays with the type that has it.
pub fn register_filesystem<C>(
    registry: &mut FsRegistry<C>,
    name: &str,
    creator: C,
) -> (result: VfsResult<()>)
    requires
        old(registry).wf(),
    ensures
        final(registry).wf(),
        final(registry)@ == registered(old(registry)@, name@, creator),
        result == (if old(registry)@.contains_key(name@) {
            Err::<(), VfsError>(VfsError::AlreadyExists)
        } else {
            Ok(())
        }),
{
    if registry.find(name).is_some() {
        return Err(VfsError::AlreadyExists);
    }
    let ghost before = registry.entries@;
    registry.entries.push((name.to_owned(), creator));
    proof {
        let after = registry.entries@;
        assert forall|n: Seq<char>| n != name@ implies listed(after, n) == listed(before, n) by {
            if listed(before, n) {
                assert(after[place(before, n)].0@ == n);
            }
            if listed(after, n) {
                assert(before[place(after, n)].0@ == n);
            }
        }
        assert(after[before.len() as int].0@ == name@);
        assert(distinct(after)) by {
            assert forall|i: int| 0 <= i < before.len() implies (#[trigger] before[i]).0@
                != name@ by {}
            assert forall|i: int, j: int| 0 <= i < j < after.len() implies (
            #[trigger] after[i]).0@ != (#[trigger] after[j]).0@ by {
                assert(after[i] == before[i]);
                if j < before.len() {
                    assert(after[j] == before[j]);
                }
            }
        }
        assert forall|n: Seq<char>| listed(before, n) && n != name@ implies place(after, n) == place(
            before,
            n,
        ) by {
            assert(after[place(before, n)].0@ == n);
            assert(after[place(after, n)].0@ == n);
        }
        assert(contents(after) =~= contents(before).insert(name@, creator));
    }
    Ok(())
}

/// Get a filesystem creator by its type name.
pub fn get_filesystem_creator<'a, C>(registry: &'a FsRegistry<C>, name: &str) -> (creator: Option<
    &'a C,
>)
    requires
        registry.wf(),
    ensures
        match creator {
            Some(c) => creator_of(registry@, name@) == Some(*c),
            None => creator_of(registry@, name@) is None,
        },
{
    match registry.find(name) {
        Some(i) => {
            proof {
                assert(registry.entries@[place(registry.entries@, name@)].0@ == name@);
            }
            Some(&registry.entries[i].1)
        },
        None => None,
    }
}

/// Unregister a filesystem type.
///
/// A name that no type has is left alone.
pub fn unregister_filesystem<C>(registry: &mut FsRegistry<C>, name: &str)
    requires
        old(registry).wf(),
    ensures
        final(registry).wf(),
        final(registry)@ == unregistered(old(registry)@, name@),
{
    match registry.find(name) {
        Some(i) => {
            let ghost before = registry.entries@;
            registry.entries.remove(i);
            proof {
                let after = registry.entries@;
                assert forall|k: int| 0 <= k < after.len() implies #[trigger] after[k] == before[if k
                    < i {
                    k
                } else {
                    k + 1
                }] by {}
                assert(distinct(after));
                assert forall|n: Seq<char>| listed(after, n) == (listed(before, n) && n
                    != name@) by {
                    if listed(after, n) {
                        let k = place(after, n);
                        assert(after[k].0@ == n);
                        assert(before[if k < i {
                            k
                        } else {
                            k + 1
                        }].0@ == n);
                    }
                    if listed(before, n) && n != name@ {
                        let k = place(before, n);
                        assert(after[if k < i {
                            k
                        } else {
                            k - 1
                        }].0@ == n);
                    }
                }
                assert forall|n: Seq<char>| listed(after, n) implies after[place(after, n)]
                    == before[place(before, n)] by {
                    let k = place(after, n);
                    let from = if k < i {
                        k
                    } else {
                        k + 1
                    };
                    assert(after[k] == before[from]);
                    assert(before[place(before, n)].0@ == n);
                }
                assert(contents(after) =~= contents(before).remove(name@));
            }
        },
        None => {
            assert(registry@.remove(name@) =~= registry@);
        },
    }
}

} // verus!
