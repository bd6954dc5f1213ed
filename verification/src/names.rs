//! The global index-to-name table of a blueprint library: eight namespaces,
//! each a sparse array from index to name, with unused entries holding the
//! empty string.

use vstd::prelude::*;

use crate::strutil::{str_eq, view_strs};

verus! {

/// What a lookup or an insertion can fail with.
#[derive(Debug, PartialEq, Eq, Structural, Clone, Copy)]
pub enum NameError {
    /// The index was already taken in its namespace.
    DuplicateIndex,
    /// The index lies beyond the namespace's entries.
    IndexOutOfRange,
    /// The entry at the index is unused.
    IndexInvalid,
}

/// The namespace a prototype name sorts its entries into: items, recipes,
/// entities, tiles, virtual signals, fluids, qualities and planets, in that
/// order; everything unrecognized is an entity.
pub open spec fn namespace_of(proto: Seq<char>) -> int {
    if proto == "capsule"@ || proto == "gun"@ || proto == "module"@ || proto == "blueprint"@
        || proto == "upgrade-item"@ || proto == "deconstruction-item"@ || proto == "rail-planner"@
        || proto == "repair-tool"@ || proto == "tool"@ || proto == "item-with-entity-data"@
        || proto == "item"@ {
        0
    } else if proto == "recipe"@ {
        1
    } else if proto == "virtual-signal"@ {
        4
    } else if proto == "tile"@ {
        3
    } else if proto == "fluid"@ {
        5
    } else if proto == "quality"@ {
        6
    } else if proto == "planet"@ {
        7
    } else {
        2
    }
}

/// A namespace grown to hold at least `n` entries, new entries empty.
pub open spec fn pad_to(s: Seq<Seq<char>>, n: int) -> Seq<Seq<char>> {
    if s.len() >= n {
        s
    } else {
        s + Seq::new((n - s.len()) as nat, |i: int| Seq::<char>::empty())
    }
}

/// The eight namespaces of names, borrowed from the decoded buffer.
pub struct Names<'a> {
    names: Vec<Vec<&'a str>>,
}

impl<'a> Names<'a> {
    /// The table always holds exactly eight namespaces.
    pub closed spec fn wf(&self) -> bool {
        self.names@.len() == 8
    }

    /// The table as sequences of names, one per namespace.
    pub closed spec fn table(&self) -> Seq<Seq<Seq<char>>> {
        self.names@.map_values(|v: Vec<&'a str>| view_strs(v@))
    }

    /// An empty table.
    pub fn new() -> (r: Self)
        ensures
            r.wf(),
            r.table().len() == 8,
            forall|k: int| 0 <= k < 8 ==> #[trigger] r.table()[k].len() == 0,
    {
        let mut names: Vec<Vec<&'a str>> = Vec::new();
        let mut k: usize = 0;
        while k < 8
            invariant
                k <= 8,
                names@.len() == k,
                forall|j: int| 0 <= j < k ==> #[trigger] names@[j]@.len() == 0,
            decreases 8 - k,
        {
            names.push(Vec::new());
            k = k + 1;
        }
        let r = Self { names };
        proof {
            assert forall|j: int| 0 <= j < 8 implies #[trigger] r.table()[j].len() == 0 by {
                assert(r.table()[j] == view_strs(r.names@[j]@));
            }
        }
        r
    }

    /// Registers `name` under `index` in the namespace of `prototype_name`.
    /// The namespace grows to reach the index, and an index already taken is
    /// refused — though the growth stays.
    pub fn add(&mut self, index: usize, name: &'a str, prototype_name: &'a str) -> (r: Result<
        (),
        NameError,
    >)
        requires
            old(self).wf(),
            index < usize::MAX,
        ensures
            final(self).wf(),
            ({
                let ns = namespace_of(prototype_name@);
                let t = old(self).table();
                let grown = pad_to(t[ns], index + 1);
                if grown[index as int].len() == 0 {
                    r is Ok && final(self).table() == t.update(
                        ns,
                        grown.update(index as int, name@),
                    )
                } else {
                    r == Err::<(), NameError>(NameError::DuplicateIndex) && final(self).table()
                        == t.update(ns, grown)
                }
            }),
    {
        let ns = if str_eq(prototype_name, "capsule") || str_eq(prototype_name, "gun") || str_eq(
            prototype_name,
            "module",
        ) || str_eq(prototype_name, "blueprint") || str_eq(prototype_name, "upgrade-item")
            || str_eq(prototype_name, "deconstruction-item") || str_eq(
            prototype_name,
            "rail-planner",
        ) || str_eq(prototype_name, "repair-tool") || str_eq(prototype_name, "tool") || str_eq(
            prototype_name,
            "item-with-entity-data",
        ) || str_eq(prototype_name, "item") {
            0
        } else if str_eq(prototype_name, "recipe") {
            1
        } else if str_eq(prototype_name, "virtual-signal") {
            4
        } else if str_eq(prototype_name, "tile") {
            3
        } else if str_eq(prototype_name, "fluid") {
            5
        } else if str_eq(prototype_name, "quality") {
            6
        } else if str_eq(prototype_name, "planet") {
            7
        } else {
            2
        };
        let ghost t = self.table();
        let ghost orig = t[ns as int];
        let mut bucket = self.names.remove(ns);
        proof {
            assert(view_strs(bucket@) == orig);
        }
        while bucket.len() < index + 1
            invariant
                index < usize::MAX,
                view_strs(bucket@) == pad_to(orig, bucket@.len() as int),
                bucket@.len() <= index + 1 || view_strs(bucket@) == orig,
            decreases index + 1 - bucket@.len(),
        {
            let ghost before = view_strs(bucket@);
            bucket.push("");
            proof {
                reveal_strlit("");
                assert(""@ =~= Seq::<char>::empty());
                assert(view_strs(bucket@) =~= before.push(Seq::<char>::empty()));
                assert(pad_to(orig, bucket@.len() as int) =~= before.push(Seq::<char>::empty()));
            }
        }
        proof {
            assert(view_strs(bucket@) == pad_to(orig, index + 1)) by {
                if bucket@.len() > index + 1 {
                    assert(view_strs(bucket@) == orig);
                    assert(pad_to(orig, index + 1) == orig);
                } else {
                    assert(bucket@.len() == index + 1);
                    assert(pad_to(orig, bucket@.len() as int) == pad_to(orig, index + 1));
                }
            }
        }
        let ghost grown = pad_to(orig, index + 1);
        if !bucket[index].is_empty() {
            self.names.insert(ns, bucket);
            proof {
                assert(view_strs(self.names@[ns as int]@) == grown);
                assert(self.table() =~= t.update(ns as int, grown));
            }
            return Err(NameError::DuplicateIndex);
        }
        bucket.set(index, name);
        proof {
            assert(view_strs(bucket@) =~= grown.update(index as int, name@));
        }
        self.names.insert(ns, bucket);
        proof {
            assert(self.table() =~= t.update(ns as int, grown.update(index as int, name@)));
        }
        Ok(())
    }

    /// Looks up a name in one namespace.
    fn get_name(&self, ns: usize, index: usize) -> (r: Result<&'a str, NameError>)
        requires
            self.wf(),
            ns < 8,
        ensures
            ({
                let bucket = self.table()[ns as int];
                if index >= bucket.len() {
                    r == Err::<&'a str, NameError>(NameError::IndexOutOfRange)
                } else if bucket[index as int].len() == 0 {
                    r == Err::<&'a str, NameError>(NameError::IndexInvalid)
                } else {
                    r matches Ok(s) && s@ == bucket[index as int]
                }
            }),
    {
        let bucket = &self.names[ns];
        proof {
            assert(self.table()[ns as int] == view_strs(bucket@));
        }
        if bucket.len() <= index {
            return Err(NameError::IndexOutOfRange);
        }
        let entry = bucket[index];
        proof {
            assert(view_strs(bucket@)[index as int] == entry@);
        }
        if entry.is_empty() {
            return Err(NameError::IndexInvalid);
        }
        Ok(entry)
    }

    /// The item name at `index`.
    pub fn get_item_name(&self, index: usize) -> (r: Result<&'a str, NameError>)
        requires
            self.wf(),
        ensures
            lookup_post(self.table()[0], index, r),
    {
        self.get_name(0, index)
    }

    /// The recipe name at `index`.
    pub fn get_recipe_name(&self, index: usize) -> (r: Result<&'a str, NameError>)
        requires
            self.wf(),
        ensures
            lookup_post(self.table()[1], index, r),
    {
        self.get_name(1, index)
    }

    /// The entity name at `index`.
    pub fn get_entity_name(&self, index: usize) -> (r: Result<&'a str, NameError>)
        requires
            self.wf(),
        ensures
            lookup_post(self.table()[2], index, r),
    {
        self.get_name(2, index)
    }

    /// The tile name at `index`.
    pub fn get_tile_name(&self, index: usize) -> (r: Result<&'a str, NameError>)
        requires
            self.wf(),
        ensures
            lookup_post(self.table()[3], index, r),
    {
        self.get_name(3, index)
    }

    /// The virtual signal name at `index`.
    pub fn get_virtual_signal_name(&self, index: usize) -> (r: Result<&'a str, NameError>)
        requires
            self.wf(),
        ensures
            lookup_post(self.table()[4], index, r),
    {
        self.get_name(4, index)
    }

    /// The fluid name at `index`.
    pub fn get_fluid_name(&self, index: usize) -> (r: Result<&'a str, NameError>)
        requires
            self.wf(),
        ensures
            lookup_post(self.table()[5], index, r),
    {
        self.get_name(5, index)
    }

    /// The quality name at `index`.
    pub fn get_quality_name(&self, index: usize) -> (r: Result<&'a str, NameError>)
        requires
            self.wf(),
        ensures
            lookup_post(self.table()[6], index, r),
    {
        self.get_name(6, index)
    }

    /// The planet name at `index`.
    pub fn get_planet_name(&self, index: usize) -> (r: Result<&'a str, NameError>)
        requires
            self.wf(),
        ensures
            lookup_post(self.table()[7], index, r),
    {
        self.get_name(7, index)
    }
}

/// What looking up `index` in one namespace returns: the name when the
/// entry exists and is used, and the matching error otherwise.
pub open spec fn lookup_post(bucket: Seq<Seq<char>>, index: usize, r: Result<&str, NameError>)
    -> bool {
    if index >= bucket.len() {
        r == Err::<&str, NameError>(NameError::IndexOutOfRange)
    } else if bucket[index as int].len() == 0 {
        r == Err::<&str, NameError>(NameError::IndexInvalid)
    } else {
        r matches Ok(s) && s@ == bucket[index as int]
    }
}

} // verus!
