//! The controller's ledger of the physics world.
//!
//! The controller never touches the physics engine. It issues the handle of
//! every body it asks for, remembers which bodies exist, and records what the
//! engine is to do as a queue of commands. The host drains the queue after
//! each call and carries the commands out in order.

use vstd::prelude::*;
use crate::scalar::{Scalar, Vector};

verus! {

/// The identity of a body in the physics world.
#[derive(Clone, Copy, Debug, PartialEq, Eq, Structural)]
pub struct BodyHandle {
    pub id: u64,
}

impl BodyHandle {
    /// The handle that stands for the ground and for every body that the
    /// controller did not create. It is never issued.
    pub fn ground() -> (h: BodyHandle)
        ensures
            h.id == u64::MAX,
    {
        BodyHandle { id: u64::MAX }
    }

    /// Whether this is the handle of the ground.
    pub fn is_ground(&self) -> (r: bool)
        ensures
            r == (self.id == u64::MAX),
    {
        self.id == u64::MAX
    }
}

/// What a new body is made of. Lengths are in table units.
#[derive(Clone, Copy, Debug, PartialEq, Eq, Structural)]
pub enum BodyKind {
    /// A dynamic ball.
    Ball { x: u32, y: u32, radius: u32 },
    /// A static pocket sensor.
    Hole { x: u32, y: u32, radius: u32 },
    /// A static cushion, given by its centre and half extents.
    Bound { center_x: u32, center_y: u32, half_width: u32, half_height: u32 },
}

/// One thing the physics engine is asked to do.
#[derive(Clone, Copy, Debug, PartialEq, Eq, Structural)]
pub enum Command {
    /// Create the body `body` as `kind` describes it.
    Add { body: BodyHandle, kind: BodyKind },
    /// Remove the body and its collider.
    Remove { body: BodyHandle },
    /// Apply to the body the force that is its inertia times its velocity
    /// scaled by `factor`.
    Drag { body: BodyHandle, factor: Scalar },
    /// Set the linear velocity of the body.
    SetVelocity { body: BodyHandle, velocity: Vector },
}

/// The mathematical content of a `World`.
pub struct WorldModel {
    /// The identifier of the next handle to issue.
    pub next: u64,
    /// The bodies that exist, in the order of their creation.
    pub bodies: Seq<BodyHandle>,
    /// The commands recorded and not yet taken, oldest first.
    pub commands: Seq<Command>,
}

impl WorldModel {
    /// No body exists twice, and every body carries a handle that was issued.
    pub open spec fn wf(self) -> bool {
        &&& self.bodies.no_duplicates()
        &&& forall|i: int| 0 <= i < self.bodies.len() ==> (#[trigger] self.bodies[i]).id < self.next
    }

    /// The world without bodies and without commands.
    pub open spec fn empty() -> WorldModel {
        WorldModel { next: 0, bodies: Seq::empty(), commands: Seq::empty() }
    }

    /// The handle that the next new body receives.
    pub open spec fn fresh(self) -> BodyHandle {
        BodyHandle { id: self.next }
    }

    /// The world after a body of the given kind was added.
    pub open spec fn add(self, kind: BodyKind) -> WorldModel {
        WorldModel {
            next: (self.next + 1) as u64,
            bodies: self.bodies.push(self.fresh()),
            commands: self.commands.push(Command::Add { body: self.fresh(), kind }),
        }
    }

    /// The handles that the next `count` new bodies receive.
    pub open spec fn fresh_run(self, count: nat) -> Seq<BodyHandle> {
        Seq::new(count, |i: int| BodyHandle { id: (self.next + i) as u64 })
    }

    /// The world after one body of each of the given kinds was added, in
    /// their order.
    pub open spec fn add_all(self, kinds: Seq<BodyKind>) -> WorldModel {
        WorldModel {
            next: (self.next + kinds.len()) as u64,
            bodies: self.bodies + self.fresh_run(kinds.len()),
            commands: self.commands + Seq::new(
                kinds.len(),
                |i: int| Command::Add { body: self.fresh_run(kinds.len())[i], kind: kinds[i] },
            ),
        }
    }

    /// The world after `command` was recorded for `body`: unchanged where the
    /// body does not exist.
    pub open spec fn record(self, body: BodyHandle, command: Command) -> WorldModel {
        if self.bodies.contains(body) {
            WorldModel { commands: self.commands.push(command), ..self }
        } else {
            self
        }
    }

    /// The world after the removal of `body`: unchanged where the body does
    /// not exist.
    pub open spec fn remove(self, body: BodyHandle) -> WorldModel {
        if self.bodies.contains(body) {
            WorldModel {
                next: self.next,
                bodies: self.bodies.remove(self.bodies.index_of(body)),
                commands: self.commands.push(Command::Remove { body }),
            }
        } else {
            self
        }
    }

    /// The world after its commands were taken.
    pub open spec fn drained(self) -> WorldModel {
        WorldModel { commands: Seq::empty(), ..self }
    }

    /// Adding bodies keeps the world well formed and the bodies it had; the
    /// new bodies exist afterwards and did not before.
    pub proof fn lemma_add_all(self, kinds: Seq<BodyKind>)
        requires
            self.wf(),
            self.next + kinds.len() <= u64::MAX,
        ensures
            self.add_all(kinds).wf(),
            forall|body: BodyHandle|
                self.bodies.contains(body) ==> #[trigger] self.add_all(kinds).bodies.contains(body),
            forall|k: int|
                0 <= k < kinds.len() ==> self.add_all(kinds).bodies.contains(
                    #[trigger] self.fresh_run(kinds.len())[k],
                ) && !self.bodies.contains(self.fresh_run(kinds.len())[k]),
    {
        let run = self.fresh_run(kinds.len());
        let after = self.add_all(kinds).bodies;
        assert forall|body: BodyHandle| self.bodies.contains(body) implies after.contains(
            body,
        ) by {
            let i = choose|i: int| 0 <= i < self.bodies.len() && self.bodies[i] == body;
            assert(after[i] == body);
        }
        assert forall|k: int| 0 <= k < kinds.len() implies after.contains(#[trigger] run[k])
            && !self.bodies.contains(run[k]) by {
            assert(after[self.bodies.len() + k] == run[k]);
            if self.bodies.contains(run[k]) {
                let i = choose|i: int| 0 <= i < self.bodies.len() && self.bodies[i] == run[k];
                assert(self.bodies[i].id < self.next);
            }
        }
        assert forall|a: int, b: int| 0 <= a < after.len() && 0 <= b < after.len() && a != b
            implies after[a] != after[b] by {
            if a < self.bodies.len() {
                assert(self.bodies[a].id < self.next);
            }
            if b < self.bodies.len() {
                assert(self.bodies[b].id < self.next);
            }
        }
        assert forall|i: int| 0 <= i < after.len() implies (#[trigger] after[i]).id < self.add_all(
            kinds,
        ).next by {
            if i < self.bodies.len() {
                assert(self.bodies[i].id < self.next);
            }
        }
    }

    /// Removal keeps the other bodies and forgets the removed one.
    pub proof fn lemma_remove(self, body: BodyHandle)
        requires
            self.wf(),
        ensures
            self.remove(body).wf(),
            !self.remove(body).bodies.contains(body),
            forall|other: BodyHandle|
                other != body ==> (#[trigger] self.remove(body).bodies.contains(other)
                    <==> self.bodies.contains(other)),
    {
        if self.bodies.contains(body) {
            let i = self.bodies.index_of(body);
            let after = self.bodies.remove(i);
            assert forall|other: BodyHandle| other != body implies (#[trigger] after.contains(other)
                <==> self.bodies.contains(other)) by {
                if after.contains(other) {
                    let j = choose|j: int| 0 <= j < after.len() && after[j] == other;
                    assert(self.bodies[if j < i { j } else { j + 1 }] == other);
                }
                if self.bodies.contains(other) {
                    let j = choose|j: int| 0 <= j < self.bodies.len() && self.bodies[j] == other;
                    assert(after[if j < i { j } else { j - 1 }] == other);
                }
            }
            if after.contains(body) {
                let j = choose|j: int| 0 <= j < after.len() && after[j] == body;
                assert(self.bodies[if j < i { j } else { j + 1 }] == body);
            }
            assert forall|a: int, b: int| 0 <= a < after.len() && 0 <= b < after.len() && a != b
                implies after[a] != after[b] by {
                let a0 = if a < i { a } else { a + 1 };
                let b0 = if b < i { b } else { b + 1 };
                assert(self.bodies[a0] != self.bodies[b0]);
            }
        }
    }
}

/// The bodies that exist and the commands that wait for the physics engine.
pub struct World {
    next: u64,
    bodies: Vec<BodyHandle>,
    commands: Vec<Command>,
}

impl View for World {
    type V = WorldModel;

    closed spec fn view(&self) -> WorldModel {
        WorldModel { next: self.next, bodies: self.bodies@, commands: self.commands@ }
    }
}

impl World {
    /// A world without bodies and without commands.
    pub fn new() -> (world: World)
        ensures
            world@ == WorldModel::empty(),
            world@.wf(),
    {
        World { next: 0, bodies: Vec::new(), commands: Vec::new() }
    }

    /// Whether `count` more handles can be issued.
    pub fn has_room(&self, count: u64) -> (r: bool)
        ensures
            r == (self@.next + count <= u64::MAX),
    {
        count <= u64::MAX - self.next
    }

    /// Whether the body exists.
    pub fn contains(&self, body: BodyHandle) -> (r: bool)
        ensures
            r == self@.bodies.contains(body),
    {
        let mut i: usize = 0;
        while i < self.bodies.len()
            invariant
                i <= self.bodies.len(),
                forall|j: int| 0 <= j < i ==> self.bodies@[j] != body,
            decreases self.bodies.len() - i,
        {
            if self.bodies[i] == body {
                return true;
            }
            i = i + 1;
        }
        false
    }

    /// Issues a handle and records the creation of its body.
    pub fn add_body(&mut self, kind: BodyKind) -> (body: BodyHandle)
        requires
            old(self)@.wf(),
            old(self)@.next < u64::MAX,
        ensures
            body == old(self)@.fresh(),
            final(self)@ == old(self)@.add(kind),
            final(self)@.wf(),
    {
        let body = BodyHandle { id: self.next };
        self.next = self.next + 1;
        self.bodies.push(body);
        self.commands.push(Command::Add { body, kind });
        proof {
            let before = old(self)@.bodies;
            assert forall|a: int, b: int|
                0 <= a < self.bodies@.len() && 0 <= b < self.bodies@.len() && a != b
                implies self.bodies@[a] != self.bodies@[b] by {
                if a < before.len() {
                    assert(before[a].id < body.id);
                }
                if b < before.len() {
                    assert(before[b].id < body.id);
                }
            }
        }
        body
    }

    /// Asks for the drag on `body`, unless the body no longer exists.
    pub fn drag(&mut self, body: BodyHandle, factor: Scalar)
        ensures
            final(self)@ == old(self)@.record(body, Command::Drag { body, factor }),
    {
        if self.contains(body) {
            self.commands.push(Command::Drag { body, factor });
        }
    }

    /// Asks for the velocity of `body` to be set, unless the body no longer
    /// exists.
    pub fn set_velocity(&mut self, body: BodyHandle, velocity: Vector)
        ensures
            final(self)@ == old(self)@.record(body, Command::SetVelocity { body, velocity }),
    {
        if self.contains(body) {
            self.commands.push(Command::SetVelocity { body, velocity });
        }
    }

    /// Forgets the body and records its removal, unless it no longer exists.
    pub fn remove_body(&mut self, body: BodyHandle)
        requires
            old(self)@.wf(),
        ensures
            final(self)@ == old(self)@.remove(body),
            final(self)@.wf(),
    {
        let mut i: usize = 0;
        while i < self.bodies.len()
            invariant
                i <= self.bodies.len(),
                *self == *old(self),
                self@.wf(),
                forall|j: int| 0 <= j < i ==> self.bodies@[j] != body,
            decreases self.bodies.len() - i,
        {
            if self.bodies[i] == body {
                proof {
                    assert(self.bodies@.contains(body));
                    let k = self.bodies@.index_of(body);
                    assert(self.bodies@[k] == body);
                    assert(k == i);
                    self@.lemma_remove(body);
                }
                self.bodies.remove(i);
                self.commands.push(Command::Remove { body });
                return;
            }
            i = i + 1;
        }
    }

    /// Hands the recorded commands over and leaves none behind.
    pub fn take_commands(&mut self) -> (commands: Vec<Command>)
        ensures
            commands@ == old(self)@.commands,
            final(self)@ == old(self)@.drained(),
    {
        let mut taken: Vec<Command> = Vec::new();
        std::mem::swap(&mut self.commands, &mut taken);
        taken
    }
}

} // verus!
