//! The scene of one render pass: shapes, lamps, and the registry of the
//! materials that the shapes refer to.

use vstd::prelude::*;
use crate::light::Light;
use crate::material::{Material, MaterialId};
use crate::traceable::RayTraceable;

verus! {

/// The materials of a scene, each under a name of its own.
///
/// The registry owns the materials. Shapes and hits hold handles, which
/// stay good for as long as the registry lives: a material may be replaced
/// under its name, but none is ever removed.
pub struct Materials {
    names: Vec<String>,
    items: Vec<Material>,
}

impl Materials {
    /// The names, in the order in which they were first registered.
    pub closed spec fn names(&self) -> Seq<Seq<char>> {
        Seq::new(self.names@.len(), |i: int| self.names@[i]@)
    }

    /// The materials, each at the index of its name.
    pub closed spec fn items(&self) -> Seq<Material> {
        self.items@
    }

    /// Every name has its material, and no name occurs twice.
    pub open spec fn wf(&self) -> bool {
        &&& self.names().len() == self.items().len()
        &&& self.names().no_duplicates()
    }

    /// Whether a material is registered under `name`.
    pub open spec fn has(&self, name: Seq<char>) -> bool {
        self.names().contains(name)
    }

    /// The handle of the material registered under `name`.
    pub open spec fn named(&self, name: Seq<char>) -> MaterialId
        recommends
            self.has(name),
    {
        MaterialId { index: self.names().index_of(name) as usize }
    }

    /// Whether a handle refers to a material of this registry.
    pub open spec fn valid(&self, id: MaterialId) -> bool {
        id.index < self.items().len()
    }

    /// An empty registry.
    pub fn new() -> (r: Materials)
        ensures
            r.wf(),
            r.names() == Seq::<Seq<char>>::empty(),
            r.items() == Seq::<Material>::empty(),
    {
        let r = Materials { names: Vec::new(), items: Vec::new() };
        assert(r.names() =~= Seq::<Seq<char>>::empty());
        r
    }

    /// The number of materials.
    pub fn len(&self) -> (n: usize)
        ensures
            n == self.items().len(),
    {
        self.items.len()
    }

    /// The handle of the material registered under `name`, if there is one.
    pub fn lookup(&self, name: &str) -> (r: Option<MaterialId>)
        requires
            self.wf(),
        ensures
            match r {
                Some(id) => self.has(name@) && id == self.named(name@) && self.valid(id)
                    && self.names()[id.index as int] == name@,
                None => !self.has(name@),
            },
    {
        let wanted = name.to_owned();
        let mut i: usize = 0;
        while i < self.names.len()
            invariant
                i <= self.names.len(),
                self.wf(),
                wanted@ == name@,
                forall|j: int| 0 <= j < i ==> self.names()[j] != name@,
            decreases self.names.len() - i,
        {
            if self.names[i] == wanted {
                proof {
                    assert(self.names()[i as int] == name@);
                    self.names().index_of_first_ensures(name@);
                    let first = self.names().index_of(name@);
                    assert(first == i);
                }
                return Some(MaterialId { index: i });
            }
            i += 1;
        }
        None
    }

    /// The material behind a handle, or nothing for a handle that is not of
    /// this registry.
    pub fn get(&self, id: MaterialId) -> (r: Option<&Material>)
        ensures
            match r {
                Some(material) => self.valid(id) && *material == self.items()[id.index as int],
                None => !self.valid(id),
            },
    {
        if id.index < self.items.len() {
            Some(&self.items[id.index])
        } else {
            None
        }
    }

    /// Registers `material` under `name` and returns its handle. Under a
    /// name that is taken the new material replaces the old one and the
    /// handle stays the same; under a new name the registry grows by one.
    /// Every other entry and every handle handed out before stays as it was.
    pub fn insert(&mut self, name: String, material: Material) -> (id: MaterialId)
        requires
            old(self).wf(),
        ensures
            final(self).wf(),
            final(self).has(name@),
            id == final(self).named(name@),
            final(self).valid(id),
            old(self).has(name@) ==> id == old(self).named(name@) && final(self).names() == old(
                self,
            ).names(),
            !old(self).has(name@) ==> id.index == old(self).items().len() && final(self).names()
                == old(self).names().push(name@),
            final(self).items() == if old(self).has(name@) {
                old(self).items().update(id.index as int, material)
            } else {
                old(self).items().push(material)
            },
    {
        match self.lookup(name.as_str()) {
            Some(id) => {
                self.items[id.index] = material;
                proof {
                    assert(self.names() =~= old(self).names());
                }
                id
            },
            None => {
                let id = MaterialId { index: self.items.len() };
                self.names.push(name);
                self.items.push(material);
                proof {
                    assert(self.names() =~= old(self).names().push(name@));
                    assert(self.names()[id.index as int] == name@);
                    self.names().index_of_first_ensures(name@);
                }
                id
            },
        }
    }
}

/// Everything that one render pass reads. A scene is put together once and
/// not changed while it is rendered.
pub struct Scene<'a> {
    pub objects: Vec<&'a dyn RayTraceable>,
    pub materials: Materials,
    pub lights: Vec<Light>,
}

impl<'a> Scene<'a> {
    /// A scene without shapes, materials or lamps.
    pub fn new() -> (scene: Scene<'a>)
        ensures
            scene.objects@.len() == 0,
            scene.lights@.len() == 0,
            scene.materials.wf(),
            scene.materials.items().len() == 0,
    {
        Scene { objects: Vec::new(), materials: Materials::new(), lights: Vec::new() }
    }

    /// The handle of the material registered under `name`. A shape that is
    /// to be made of a material asks for the handle when the scene is built.
    pub fn find_material(&self, name: &str) -> (id: MaterialId)
        requires
            self.materials.wf(),
            self.materials.has(name@),
        ensures
            id == self.materials.named(name@),
            self.materials.valid(id),
            self.materials.names()[id.index as int] == name@,
    {
        self.materials.lookup(name).unwrap()
    }
}

} // verus!
