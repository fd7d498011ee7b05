//! Every name of the game and of its engine, in one place, and their
//! resolution. A patch of the game breaks this module and no other.
//!
//! `unity` holds the engine's names, which are stable; `eft` the game's, which
//! move. No obfuscated name is bound.

use vstd::prelude::*;

use crate::runtime::{Class, Method, ScriptRuntime};
use crate::text::same;

pub mod assembly;
pub mod eft;
pub mod key;
pub mod ns;
pub mod unity;

verus! {

/// A class addressed as (assembly, namespace, name).
#[derive(Copy, Clone, Debug)]
pub struct ClassRef {
    pub assembly: &'static str,
    pub namespace: &'static str,
    pub name: &'static str,
}

impl View for ClassRef {
    type V = (Seq<char>, Seq<char>, Seq<char>);

    open spec fn view(&self) -> (Seq<char>, Seq<char>, Seq<char>) {
        (self.assembly@, self.namespace@, self.name@)
    }
}

pub fn cls(assembly: &'static str, namespace: &'static str, name: &'static str) -> (c: ClassRef)
    ensures
        c@ == (assembly@, namespace@, name@),
{
    ClassRef { assembly, namespace, name }
}

/// One field, and the key it is looked up under everywhere downstream.
pub struct FieldSpec {
    pub key: &'static str,
    pub class: ClassRef,
    pub field: &'static str,
}

/// The class in the metadata.
pub open spec fn class_in<R: ScriptRuntime>(rt: &R, c: (Seq<char>, Seq<char>, Seq<char>)) -> Option<
    Class,
> {
    match rt.image_of(c.0) {
        Some(image) => rt.class_of(image, c.1, c.2),
        None => None,
    }
}

/// assembly -> image -> class.
pub fn find_class<R: ScriptRuntime>(rt: &R, c: ClassRef) -> (r: Option<Class>)
    requires
        rt.ready(),
    ensures
        r == class_in(rt, c@),
{
    match rt.image(c.assembly) {
        Some(image) => rt.class(image, c.namespace, c.name),
        None => None,
    }
}

/// The class's own method of that name and number of arguments, without a type
/// parameter.
pub fn find_method<R: ScriptRuntime>(rt: &R, class: Class, name: &str, argc: u32) -> (r: Option<
    Method,
>)
    requires
        rt.ready(),
    ensures
        r == rt.exact_of(class, name@, argc as nat),
{
    rt.method_exact(class, name, argc)
}

/// Name-keyed offsets. Nothing downstream holds a literal offset.
pub struct Offsets {
    entries: Vec<(&'static str, i32)>,
}

/// What a list of keys and offsets says, later entries over earlier ones.
pub open spec fn offsets_map(s: Seq<(Seq<char>, i32)>) -> Map<Seq<char>, i32>
    decreases s.len(),
{
    if s.len() == 0 {
        Map::empty()
    } else {
        offsets_map(s.drop_last()).insert(s.last().0, s.last().1)
    }
}

pub open spec fn offset_entries(s: Seq<(&'static str, i32)>) -> Seq<(Seq<char>, i32)> {
    s.map_values(|e: (&'static str, i32)| (e.0@, e.1))
}

impl View for Offsets {
    type V = Map<Seq<char>, i32>;

    closed spec fn view(&self) -> Map<Seq<char>, i32> {
        offsets_map(offset_entries(self.entries@))
    }
}

proof fn lemma_offsets_map(s: Seq<(Seq<char>, i32)>)
    requires
        forall|i: int, j: int| 0 <= i < j < s.len() ==> #[trigger] s[i].0 != #[trigger] s[j].0,
    ensures
        offsets_map(s).dom().finite(),
        offsets_map(s).dom().len() == s.len(),
        forall|i: int| 0 <= i < s.len() ==> offsets_map(s).dom().contains(#[trigger] s[i].0)
            && offsets_map(s)[s[i].0] == s[i].1,
        forall|k: Seq<char>| #[trigger]
            offsets_map(s).dom().contains(k) ==> exists|i: int|
                0 <= i < s.len() && #[trigger] s[i].0 == k,
    decreases s.len(),
{
    if s.len() > 0 {
        let d = s.drop_last();
        assert forall|i: int, j: int| 0 <= i < j < d.len() implies #[trigger] d[i].0
            != #[trigger] d[j].0 by {
            assert(s[i].0 != s[j].0);
        }
        lemma_offsets_map(d);
        let last = s.len() - 1;
        assert(!offsets_map(d).dom().contains(s[last].0)) by {
            if offsets_map(d).dom().contains(s[last].0) {
                let i = choose|i: int| 0 <= i < d.len() && #[trigger] d[i].0 == s[last].0;
                assert(s[i].0 != s[last].0);
            }
        }
        assert forall|i: int| 0 <= i < s.len() implies offsets_map(s).dom().contains(
            #[trigger] s[i].0,
        ) && offsets_map(s)[s[i].0] == s[i].1 by {
            if i < last {
                assert(d[i].0 == s[i].0);
                assert(s[i].0 != s[last].0);
            }
        }
        assert forall|k: Seq<char>| #[trigger] offsets_map(s).dom().contains(k) implies exists|
            i: int,
        |
            0 <= i < s.len() && #[trigger] s[i].0 == k by {
            if k == s[last].0 {
                assert(s[last].0 == k);
            } else {
                let i = choose|i: int| 0 <= i < d.len() && #[trigger] d[i].0 == k;
                assert(s[i].0 == k);
            }
        }
    }
}

impl Offsets {
    /// No key occurs twice.
    pub closed spec fn wf(&self) -> bool {
        forall|i: int, j: int|
            0 <= i < j < self.entries@.len() ==> #[trigger] self.entries@[i].0@
                != #[trigger] self.entries@[j].0@
    }

    proof fn lemma_view(&self)
        requires
            self.wf(),
        ensures
            self@.dom().finite(),
            self@.dom().len() == self.entries@.len(),
            forall|i: int|
                0 <= i < self.entries@.len() ==> self@.dom().contains(
                    (#[trigger] self.entries@[i]).0@,
                ) && self@[self.entries@[i].0@] == self.entries@[i].1,
            forall|k: Seq<char>| #[trigger]
                self@.dom().contains(k) ==> exists|i: int|
                    0 <= i < self.entries@.len() && (#[trigger] self.entries@[i]).0@ == k,
    {
        let s = offset_entries(self.entries@);
        assert forall|i: int, j: int| 0 <= i < j < s.len() implies #[trigger] s[i].0
            != #[trigger] s[j].0 by {
            assert(self.entries@[i].0@ != self.entries@[j].0@);
        }
        lemma_offsets_map(s);
        assert forall|i: int| 0 <= i < self.entries@.len() implies self@.dom().contains(
            (#[trigger] self.entries@[i]).0@,
        ) && self@[self.entries@[i].0@] == self.entries@[i].1 by {
            assert(s[i].0 == self.entries@[i].0@);
        }
        assert forall|k: Seq<char>| #[trigger] self@.dom().contains(k) implies exists|i: int|
            0 <= i < self.entries@.len() && (#[trigger] self.entries@[i]).0@ == k by {
            let i = choose|i: int| 0 <= i < s.len() && #[trigger] s[i].0 == k;
            assert(self.entries@[i].0@ == k);
        }
    }

    pub fn new() -> (o: Self)
        ensures
            o.wf(),
            o@ == Map::<Seq<char>, i32>::empty(),
    {
        let o = Offsets { entries: Vec::new() };
        assert(offset_entries(o.entries@) =~= Seq::empty());
        o
    }

    /// Where an entry has that key.
    fn find(&self, key: &str) -> (r: Option<usize>)
        requires
            self.wf(),
        ensures
            r matches Some(i) ==> i < self.entries@.len() && self.entries@[i as int].0@ == key@,
            r is None ==> forall|i: int|
                0 <= i < self.entries@.len() ==> (#[trigger] self.entries@[i]).0@ != key@,
    {
        let mut i: usize = 0;
        while i < self.entries.len()
            invariant
                i <= self.entries@.len(),
                forall|j: int| 0 <= j < i ==> (#[trigger] self.entries@[j]).0@ != key@,
            decreases self.entries@.len() - i,
        {
            if same(self.entries[i].0, key) {
                return Some(i);
            }
            i = i + 1;
        }
        None
    }

    pub fn get(&self, key: &str) -> (r: Option<i32>)
        requires
            self.wf(),
        ensures
            r is Some <==> self@.dom().contains(key@),
            r matches Some(v) ==> v == self@[key@],
    {
        proof {
            self.lemma_view();
        }
        match self.find(key) {
            Some(i) => Some(self.entries[i].1),
            None => None,
        }
    }

    pub fn len(&self) -> (n: usize)
        requires
            self.wf(),
        ensures
            n == self@.dom().len(),
            self@.dom().finite(),
    {
        proof {
            self.lemma_view();
        }
        self.entries.len()
    }

    /// Sets the offset of a key.
    fn insert(&mut self, key: &'static str, offset: i32)
        requires
            old(self).wf(),
        ensures
            final(self).wf(),
            final(self)@ == old(self)@.insert(key@, offset),
    {
        let ghost o = *self;
        match self.find(key) {
            Some(i) => {
                self.entries.set(i, (key, offset));
                proof {
                    assert(self.wf()) by {
                        assert forall|a: int, b: int| 0 <= a < b < self.entries@.len() implies #[trigger]
                        self.entries@[a].0@ != #[trigger] self.entries@[b].0@ by {
                            assert(o.entries@[a].0@ != o.entries@[b].0@);
                        }
                    }
                    o.lemma_view();
                    self.lemma_view();
                    assert(self@ =~= o@.insert(key@, offset)) by {
                        assert forall|k: Seq<char>| #[trigger]
                            self@.dom().contains(k) == o@.insert(key@, offset).dom().contains(k) by {
                            if self@.dom().contains(k) {
                                let j = choose|j: int|
                                    0 <= j < self.entries@.len() && (
                                    #[trigger] self.entries@[j]).0@ == k;
                                assert(o.entries@[j].0@ == k);
                            }
                            if o@.dom().contains(k) {
                                let j = choose|j: int|
                                    0 <= j < o.entries@.len() && (#[trigger] o.entries@[j]).0@ == k;
                                assert(self.entries@[j].0@ == k);
                            }
                            assert(self.entries@[i as int].0@ == key@);
                        }
                        assert forall|k: Seq<char>| #[trigger] self@.dom().contains(k) implies self@[k]
                            == o@.insert(key@, offset)[k] by {
                            let j = choose|j: int|
                                0 <= j < self.entries@.len() && (#[trigger] self.entries@[j]).0@
                                    == k;
                            assert(o.entries@[j].0@ == k);
                            if j != i {
                                if j < i {
                                    assert(self.entries@[j].0@ != self.entries@[i as int].0@);
                                } else {
                                    assert(self.entries@[i as int].0@ != self.entries@[j].0@);
                                }
                            }
                        }
                    }
                }
            },
            None => {
                self.entries.push((key, offset));
                proof {
                    assert(offset_entries(self.entries@).drop_last() =~= offset_entries(o.entries@));
                    assert(self.wf()) by {
                        assert forall|a: int, b: int| 0 <= a < b < self.entries@.len() implies #[trigger]
                        self.entries@[a].0@ != #[trigger] self.entries@[b].0@ by {
                            if b < o.entries@.len() {
                                assert(o.entries@[a].0@ != o.entries@[b].0@);
                            } else {
                                assert(o.entries@[a].0@ != key@);
                            }
                        }
                    }
                }
            },
        }
    }
}

/// Where a field lies.
pub open spec fn offset_in<R: ScriptRuntime>(rt: &R, f: &FieldSpec) -> Option<i32> {
    match class_in(rt, f.class@) {
        Some(class) => match rt.field_of(class, f.field@) {
            Some(field) => Some(rt.offset_of(field)),
            None => None,
        },
        None => None,
    }
}

/// The offsets of the fields that are found, under their keys.
pub open spec fn resolved<R: ScriptRuntime>(rt: &R, specs: Seq<FieldSpec>) -> Map<Seq<char>, i32>
    decreases specs.len(),
{
    if specs.len() == 0 {
        Map::empty()
    } else {
        let before = resolved(rt, specs.drop_last());
        match offset_in(rt, &specs.last()) {
            Some(v) => before.insert(specs.last().key@, v),
            None => before,
        }
    }
}

/// Resolves fields; one that is missing is left out.
pub fn resolve_fields<R: ScriptRuntime>(rt: &R, specs: &Vec<FieldSpec>) -> (out: Offsets)
    requires
        rt.ready(),
    ensures
        out.wf(),
        out@ == resolved(rt, specs@),
{
    let mut out = Offsets::new();
    let mut i: usize = 0;
    assert(resolved(rt, specs@.take(0)) =~= Map::<Seq<char>, i32>::empty());
    while i < specs.len()
        invariant
            i <= specs.len(),
            rt.ready(),
            out.wf(),
            out@ == resolved(rt, specs@.take(i as int)),
        decreases specs.len() - i,
    {
        assert(specs@.take(i + 1).drop_last() =~= specs@.take(i as int));
        match find_class(rt, specs[i].class) {
            Some(class) => match rt.field(class, specs[i].field) {
                Some(field) => {
                    out.insert(specs[i].key, rt.field_offset(field));
                },
                None => {},
            },
            None => {},
        }
        i = i + 1;
    }
    assert(specs@.take(i as int) =~= specs@);
    out
}

/// The fields from the world down to the stamina value.
pub fn stamina_chain() -> (v: Vec<FieldSpec>)
    ensures
        v.len() == 4,
        v@[0].key@ == key::MAIN_PLAYER@,
        v@[0].class@ == (assembly::GAME@, ns::EFT@, "GameWorld"@),
        v@[0].field@ == "MainPlayer"@,
        v@[1].key@ == key::PHYSICAL@,
        v@[1].class@ == (assembly::GAME@, ns::EFT@, "Player"@),
        v@[1].field@ == "Physical"@,
        v@[2].key@ == key::STAMINA@,
        v@[2].class@ == (assembly::GAME@, ns::GLOBAL@, "PhysicalBase"@),
        v@[2].field@ == "Stamina"@,
        v@[3].key@ == key::STAMINA_CURRENT@,
        v@[3].class@ == (assembly::GAME@, ns::GLOBAL@, "Stamina"@),
        v@[3].field@ == "Current"@,
{
    let mut v: Vec<FieldSpec> = Vec::new();
    v.push(
        FieldSpec { key: key::MAIN_PLAYER, class: eft::game_world(), field: "MainPlayer" },
    );
    v.push(FieldSpec { key: key::PHYSICAL, class: eft::player(), field: "Physical" });
    v.push(FieldSpec { key: key::STAMINA, class: eft::physical_base(), field: "Stamina" });
    v.push(FieldSpec { key: key::STAMINA_CURRENT, class: eft::stamina(), field: "Current" });
    v
}

} // verus!
