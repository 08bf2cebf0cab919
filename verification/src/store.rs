//! The entity store: an arena of entity ids with one side table per
//! component type. An entity id is an index into the tables; all tables
//! always have the same length, and an id is never reused while the store
//! lives — despawning clears an entity's rows but keeps them.

use vstd::prelude::*;
use crate::components::{
    Pos, Physics, Collider, Children, ChildOf, Killable, Hazzard, Carryable, Controllable, Player,
    Cary, Exit, Sprite, Shooter, RemoveOnImpact,
};

verus! {

pub struct Store {
    pub pos: Vec<Option<Pos>>,
    pub physics: Vec<Option<Physics>>,
    pub collider: Vec<Option<Collider>>,
    pub children: Vec<Option<Children>>,
    pub child_of: Vec<Option<ChildOf>>,
    pub killable: Vec<Option<Killable>>,
    pub hazzard: Vec<Option<Hazzard>>,
    pub carryable: Vec<Option<Carryable>>,
    pub controllable: Vec<Option<Controllable>>,
    pub player: Vec<Option<Player>>,
    pub cary: Vec<Option<Cary>>,
    pub exit: Vec<Option<Exit>>,
    pub sprite: Vec<Option<Sprite>>,
    pub shooter: Vec<Option<Shooter>>,
    pub remove_on_impact: Vec<Option<RemoveOnImpact>>,
}

impl Store {
    /// Number of ids ever spawned.
    pub open spec fn n(self) -> nat {
        self.pos@.len()
    }

    /// All tables cover the same ids.
    pub open spec fn tables_aligned(self) -> bool {
        &&& self.physics@.len() == self.n()
        &&& self.collider@.len() == self.n()
        &&& self.children@.len() == self.n()
        &&& self.child_of@.len() == self.n()
        &&& self.killable@.len() == self.n()
        &&& self.hazzard@.len() == self.n()
        &&& self.carryable@.len() == self.n()
        &&& self.controllable@.len() == self.n()
        &&& self.player@.len() == self.n()
        &&& self.cary@.len() == self.n()
        &&& self.exit@.len() == self.n()
        &&& self.sprite@.len() == self.n()
        &&& self.shooter@.len() == self.n()
        &&& self.remove_on_impact@.len() == self.n()
    }

    /// Tables aligned, every component well formed, and every id a component
    /// mentions a live index.
    pub open spec fn wf(self) -> bool {
        &&& self.tables_aligned()
        &&& self.n() <= usize::MAX
        &&& forall|i: int|
            0 <= i < self.n() ==> ((#[trigger] self.pos@[i]) matches Some(c) ==> c.wf())
        &&& forall|i: int|
            0 <= i < self.n() ==> ((#[trigger] self.physics@[i]) matches Some(c) ==> c.wf())
        &&& forall|i: int|
            0 <= i < self.n() ==> ((#[trigger] self.collider@[i]) matches Some(c) ==> c.wf())
        &&& forall|i: int|
            0 <= i < self.n() ==> ((#[trigger] self.child_of@[i]) matches Some(c) ==> c.wf()
                && c.parent < self.n())
        &&& forall|i: int|
            0 <= i < self.n() ==> ((#[trigger] self.children@[i]) matches Some(c) ==> forall|k: int|
                0 <= k < c.0@.len() ==> (#[trigger] c.0@[k]) < self.n())
        &&& forall|i: int|
            0 <= i < self.n() ==> ((#[trigger] self.killable@[i]) matches Some(c) ==> c.wf())
        &&& forall|i: int|
            0 <= i < self.n() ==> ((#[trigger] self.hazzard@[i]) matches Some(c) ==> c.wf())
        &&& forall|i: int|
            0 <= i < self.n() ==> ((#[trigger] self.carryable@[i]) matches Some(c) ==> c.wf())
        &&& forall|i: int|
            0 <= i < self.n() ==> ((#[trigger] self.player@[i]) matches Some(c) ==> c.wf())
        &&& forall|i: int|
            0 <= i < self.n() ==> ((#[trigger] self.exit@[i]) matches Some(c) ==> c.wf())
        &&& forall|i: int|
            0 <= i < self.n() ==> ((#[trigger] self.sprite@[i]) matches Some(c) ==> c.wf())
    }

    /// An empty store.
    pub fn new() -> (r: Store)
        ensures
            r.wf(),
            r.n() == 0,
    {
        Store {
            pos: Vec::new(),
            physics: Vec::new(),
            collider: Vec::new(),
            children: Vec::new(),
            child_of: Vec::new(),
            killable: Vec::new(),
            hazzard: Vec::new(),
            carryable: Vec::new(),
            controllable: Vec::new(),
            player: Vec::new(),
            cary: Vec::new(),
            exit: Vec::new(),
            sprite: Vec::new(),
            shooter: Vec::new(),
            remove_on_impact: Vec::new(),
        }
    }

    /// A fresh entity with no components yet; the returned id is new, never
    /// one of a live entity. Callers attach a constructor's bundle to it.
    pub fn spawn(&mut self) -> (id: usize)
        requires
            old(self).wf(),
            old(self).n() < 1_000_000_000,
        ensures
            final(self).wf(),
            id == old(self).n(),
            final(self).n() == old(self).n() + 1,
            final(self).pos@ == old(self).pos@.push(None::<Pos>),
            final(self).physics@ == old(self).physics@.push(None::<Physics>),
            final(self).collider@ == old(self).collider@.push(None::<Collider>),
            final(self).children@ == old(self).children@.push(None::<Children>),
            final(self).child_of@ == old(self).child_of@.push(None::<ChildOf>),
            final(self).killable@ == old(self).killable@.push(None::<Killable>),
            final(self).hazzard@ == old(self).hazzard@.push(None::<Hazzard>),
            final(self).carryable@ == old(self).carryable@.push(None::<Carryable>),
            final(self).controllable@ == old(self).controllable@.push(None::<Controllable>),
            final(self).player@ == old(self).player@.push(None::<Player>),
            final(self).cary@ == old(self).cary@.push(None::<Cary>),
            final(self).exit@ == old(self).exit@.push(None::<Exit>),
            final(self).sprite@ == old(self).sprite@.push(None::<Sprite>),
            final(self).shooter@ == old(self).shooter@.push(None::<Shooter>),
            final(self).remove_on_impact@ == old(self).remove_on_impact@.push(
                None::<RemoveOnImpact>,
            ),
    {
        let id = self.pos.len();
        self.pos.push(None);
        self.physics.push(None);
        self.collider.push(None);
        self.children.push(None);
        self.child_of.push(None);
        self.killable.push(None);
        self.hazzard.push(None);
        self.carryable.push(None);
        self.controllable.push(None);
        self.player.push(None);
        self.cary.push(None);
        self.exit.push(None);
        self.sprite.push(None);
        self.shooter.push(None);
        self.remove_on_impact.push(None);
        id
    }

    /// Clears every component of the entity; the id stays allocated and is
    /// never handed out again. Callers must first unlink the entity from any
    /// carry relation.
    pub fn despawn(&mut self, id: usize)
        requires
            old(self).wf(),
            id < old(self).n(),
        ensures
            final(self).wf(),
            final(self).n() == old(self).n(),
            final(self).pos@ == old(self).pos@.update(id as int, None::<Pos>),
            final(self).physics@ == old(self).physics@.update(id as int, None::<Physics>),
            final(self).collider@ == old(self).collider@.update(id as int, None::<Collider>),
            final(self).children@ == old(self).children@.update(id as int, None::<Children>),
            final(self).child_of@ == old(self).child_of@.update(id as int, None::<ChildOf>),
            final(self).killable@ == old(self).killable@.update(id as int, None::<Killable>),
            final(self).hazzard@ == old(self).hazzard@.update(id as int, None::<Hazzard>),
            final(self).carryable@ == old(self).carryable@.update(id as int, None::<Carryable>),
            final(self).controllable@ == old(self).controllable@.update(
                id as int,
                None::<Controllable>,
            ),
            final(self).player@ == old(self).player@.update(id as int, None::<Player>),
            final(self).cary@ == old(self).cary@.update(id as int, None::<Cary>),
            final(self).exit@ == old(self).exit@.update(id as int, None::<Exit>),
            final(self).sprite@ == old(self).sprite@.update(id as int, None::<Sprite>),
            final(self).shooter@ == old(self).shooter@.update(id as int, None::<Shooter>),
            final(self).remove_on_impact@ == old(self).remove_on_impact@.update(
                id as int,
                None::<RemoveOnImpact>,
            ),
    {
        self.pos.set(id, None);
        self.physics.set(id, None);
        self.collider.set(id, None);
        self.children.set(id, None);
        self.child_of.set(id, None);
        self.killable.set(id, None);
        self.hazzard.set(id, None);
        self.carryable.set(id, None);
        self.controllable.set(id, None);
        self.player.set(id, None);
        self.cary.set(id, None);
        self.exit.set(id, None);
        self.sprite.set(id, None);
        self.shooter.set(id, None);
        self.remove_on_impact.set(id, None);
    }
}

} // verus!
