use vstd::prelude::*;

verus! {

/// A registered particle type: its id and its properties (colour, mass,
/// drag, radius, ... as the caller chooses to record them).
pub struct ParticleTypeInfo<P> {
    pub type_id: usize,
    pub properties: P,
}

/// The list of particle types; a type's id is its position in the list.
pub struct ParticleTypeRegistry<P> {
    pub types: Vec<ParticleTypeInfo<P>>,
}

impl<P> ParticleTypeRegistry<P> {
    /// Every type is stored at the position given by its id.
    pub open spec fn well_formed(self) -> bool {
        forall|i: int| 0 <= i < self.types@.len() ==> #[trigger] self.types@[i].type_id == i
    }

    /// An empty registry.
    pub fn new() -> (r: Self)
        ensures
            r.well_formed(),
            r.types@.len() == 0,
    {
        ParticleTypeRegistry { types: Vec::new() }
    }

    /// Registers a new type with the given properties and returns its id,
    /// the number of types registered before it.
    pub fn add_type(&mut self, properties: P) -> (type_id: usize)
        ensures
            type_id == old(self).types@.len(),
            final(self).types@ == old(self).types@.push(
                ParticleTypeInfo { type_id, properties },
            ),
            old(self).well_formed() ==> final(self).well_formed(),
    {
        let type_id = self.types.len();
        self.types.push(ParticleTypeInfo { type_id, properties });
        type_id
    }

    /// The type registered under `type_id`, if there is one.
    pub fn get_type(&self, type_id: usize) -> (info: Option<&ParticleTypeInfo<P>>)
        ensures
            match info {
                Some(found) => type_id < self.types@.len() && *found == self.types@[type_id as int],
                None => type_id >= self.types@.len(),
            },
    {
        if type_id < self.types.len() {
            Some(&self.types[type_id])
        } else {
            None
        }
    }
}

/// A type is found again under the id that registering it returned, with
/// the properties it was registered with, and registering it leaves every
/// earlier type where it was.
pub proof fn lemma_registered_type_is_found<P>(
    before: ParticleTypeRegistry<P>,
    after: ParticleTypeRegistry<P>,
    properties: P,
    type_id: usize,
    earlier_id: int,
)
    requires
        before.well_formed(),
        type_id == before.types@.len(),
        after.types@ == before.types@.push(ParticleTypeInfo { type_id, properties }),
    ensures
        after.well_formed(),
        after.types@.len() == type_id + 1,
        after.types@[type_id as int].type_id == type_id,
        after.types@[type_id as int].properties == properties,
        0 <= earlier_id < before.types@.len() ==> after.types@[earlier_id] == before.types@[earlier_id],
{
}

} // verus!
