//! Placement data shared by everything that stands in the scene: a
//! position, optionally together with a direction.

use vstd::prelude::*;
use crate::vec3::Vec3;

verus! {

/// A placed object: just a position.
#[derive(Clone, Copy, PartialEq, Eq, Structural, Debug)]
pub struct Actor {
    pub position: Vec3,
}

/// Read access to a placement's position.
pub trait ActorTrait {
    fn get_position(&self) -> Vec3;
}

/// Read access to a placement's direction.
pub trait DirectionalActorTrait: ActorTrait {
    fn get_direction(&self) -> Vec3;
}

impl Actor {
    pub fn new(position: &Vec3) -> (a: Actor)
        ensures
            a.position == *position,
    {
        Actor { position: *position }
    }

    /// The position, under the name the placement API uses.
    pub fn get_location(&self) -> (p: Vec3)
        ensures
            p == self.position,
    {
        self.position
    }

    /// Move the placement to a new position.
    pub fn set_location(&mut self, position: &Vec3)
        ensures
            final(self).position == *position,
    {
        self.position = *position;
    }
}

impl ActorTrait for Actor {
    fn get_position(&self) -> (p: Vec3)
        ensures
            p == self.position,
    {
        self.position
    }
}

impl Default for Actor {
    /// A placement at the origin.
    fn default() -> (a: Actor)
        ensures
            a.position == (Vec3 { x: 0, y: 0, z: 0 }),
    {
        Actor { position: Vec3 { x: 0, y: 0, z: 0 } }
    }
}

/// A placed object together with the direction it faces.
#[derive(Clone, Copy, PartialEq, Eq, Structural, Debug)]
pub struct DirectionalActor {
    pub actor: Actor,
    pub direction: Vec3,
}

impl DirectionalActor {
    pub fn new(position: &Vec3, direction: &Vec3) -> (a: DirectionalActor)
        ensures
            a.actor.position == *position,
            a.direction == *direction,
    {
        DirectionalActor { actor: Actor { position: *position }, direction: *direction }
    }
}

impl ActorTrait for DirectionalActor {
    fn get_position(&self) -> (p: Vec3)
        ensures
            p == self.actor.position,
    {
        self.actor.position
    }
}

impl DirectionalActorTrait for DirectionalActor {
    fn get_direction(&self) -> (d: Vec3)
        ensures
            d == self.direction,
    {
        self.direction
    }
}

} // verus!
