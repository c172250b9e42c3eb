//! The projectile pool: a growable collection of reusable slots with
//! spawn-or-recycle semantics, batch integration and batch draw
//! enumeration.

use vstd::prelude::*;
use crate::fixed::DT_MAX;
use crate::projectile::{step, Projectile};

verus! {

/// A construction-time configuration fault.
#[derive(Clone, Copy, PartialEq, Eq, Structural, Debug)]
pub enum ConfigError {
    /// A pool was requested with a capacity hint of zero.
    InvalidConfiguration,
}

/// What the renderer needs for one active projectile: its visual tag
/// and its position, nothing of the slot it happens to occupy.
#[derive(Clone, Copy, PartialEq, Eq, Structural, Debug)]
pub struct DrawItem {
    /// Visual-variant tag of the projectile.
    pub asset_id: i32,
    /// Horizontal position, milli-units.
    pub x: i64,
    /// Vertical position, milli-units.
    pub y: i64,
}

/// The draw data of one projectile.
pub open spec fn item_of(p: Projectile) -> DrawItem {
    DrawItem { asset_id: p.asset_id, x: p.x, y: p.y }
}

/// Whether some slot is inactive and so free for reuse.
pub open spec fn has_free(s: Seq<Projectile>) -> bool {
    exists|i: int| 0 <= i < s.len() && !s[i].active
}

/// The index of the first inactive slot in storage order, or `s.len()`
/// when every slot is active.
pub open spec fn first_free(s: Seq<Projectile>) -> int
    decreases s.len(),
{
    if s.len() == 0 {
        0
    } else if !s[0].active {
        0
    } else {
        1 + first_free(s.subrange(1, s.len() as int))
    }
}

/// What a spawn does to the slots: the first inactive slot is
/// overwritten, and when all slots are active a new one is appended.
pub open spec fn spawn_spec(s: Seq<Projectile>, p: Projectile) -> Seq<Projectile> {
    if has_free(s) {
        s.update(first_free(s), p)
    } else {
        s.push(p)
    }
}

/// What one tick does to the slots: every active slot is integrated,
/// every inactive slot is left exactly as it was.
pub open spec fn update_spec(s: Seq<Projectile>, dt: int) -> Seq<Projectile> {
    Seq::new(s.len(), |i: int| if s[i].active { step(s[i], dt) } else { s[i] })
}

/// The draw data of the active slots, in storage order.
pub open spec fn draws_spec(s: Seq<Projectile>) -> Seq<DrawItem>
    decreases s.len(),
{
    if s.len() == 0 {
        Seq::empty()
    } else if s.last().active {
        draws_spec(s.drop_last()).push(item_of(s.last()))
    } else {
        draws_spec(s.drop_last())
    }
}

/// `first_free` finds the least inactive index: everything before it is
/// active, and it lands on an inactive slot exactly when one exists.
pub proof fn lemma_first_free(s: Seq<Projectile>)
    ensures
        0 <= first_free(s) <= s.len(),
        forall|j: int| 0 <= j < first_free(s) ==> s[j].active,
        has_free(s) ==> first_free(s) < s.len() && !s[first_free(s)].active,
        !has_free(s) ==> first_free(s) == s.len(),
    decreases s.len(),
{
    if s.len() == 0 {
    } else if !s[0].active {
    } else {
        let t = s.subrange(1, s.len() as int);
        lemma_first_free(t);
        assert forall|j: int| 0 <= j < first_free(s) implies s[j].active by {
            if j >= 1 {
                assert(t[j - 1] == s[j]);
                assert(t[j - 1].active);
            }
        }
        if has_free(s) {
            let i = choose|i: int| 0 <= i < s.len() && !s[i].active;
            assert(i >= 1);
            assert(!t[i - 1].active);
            assert(has_free(t));
        }
        if has_free(t) {
            let i = choose|i: int| 0 <= i < t.len() && !t[i].active;
            assert(!s[i + 1].active);
            assert(has_free(s));
        }
    }
}

/// A fixed-capacity-in-spirit, growable-in-practice pool of projectile
/// slots. Slots recycle in place; the pool never shrinks.
pub struct ProjectilePool {
    slots: Vec<Projectile>,
}

impl View for ProjectilePool {
    type V = Seq<Projectile>;

    closed spec fn view(&self) -> Seq<Projectile> {
        self.slots@
    }
}

impl ProjectilePool {
    /// An empty pool with room reserved for `capacity_hint` slots. The
    /// hint is an initial reserve, not a hard cap; a hint of zero is a
    /// configuration error and is rejected.
    pub fn new(capacity_hint: usize) -> (r: Result<ProjectilePool, ConfigError>)
        ensures
            capacity_hint == 0 ==> r == Err::<ProjectilePool, ConfigError>(
                ConfigError::InvalidConfiguration,
            ),
            capacity_hint > 0 ==> (r matches Ok(pool) && pool@ == Seq::<Projectile>::empty()),
    {
        if capacity_hint == 0 {
            Err(ConfigError::InvalidConfiguration)
        } else {
            Ok(ProjectilePool { slots: Vec::with_capacity(capacity_hint) })
        }
    }

    /// How many slots the pool holds, active or not.
    pub fn len(&self) -> (n: usize)
        ensures
            n == self@.len(),
    {
        self.slots.len()
    }

    /// The slot at index `i`, as a value.
    pub fn get(&self, i: usize) -> (p: Projectile)
        requires
            i < self@.len(),
        ensures
            p == self@[i as int],
    {
        self.slots[i]
    }

    /// Spawns a projectile with the given parameters: the first
    /// inactive slot in storage order is fully overwritten with them,
    /// and when every slot is active a new slot is appended instead.
    pub fn spawn(
        &mut self,
        asset_id: i32,
        x: i64,
        y: i64,
        angle: i64,
        velocity: i64,
        angular_velocity: i64,
        acceleration: i64,
    )
        ensures
            final(self)@ == spawn_spec(
                old(self)@,
                Projectile {
                    asset_id,
                    x,
                    y,
                    angle,
                    velocity,
                    angular_velocity,
                    acceleration,
                    active: true,
                },
            ),
    {
        let fresh = Projectile::new(asset_id, x, y, angle, velocity, angular_velocity,
            acceleration, true);
        let i = self.find_free();
        proof {
            lemma_first_free(self@);
        }
        if i < self.slots.len() {
            let slot = &mut self.slots[i];
            *slot = fresh;
        } else {
            self.slots.push(fresh);
        }
    }

    /// The index of the first inactive slot in storage order, or the
    /// number of slots when every slot is active.
    pub fn find_free(&self) -> (i: usize)
        ensures
            i as int == first_free(self@),
    {
        let n = self.slots.len();
        let mut i: usize = 0;
        while i < n
            invariant
                n == self.slots.len(),
                0 <= i <= n,
                forall|j: int| 0 <= j < i ==> self.slots@[j].active,
            decreases n - i,
        {
            if !self.slots[i].active {
                proof {
                    lemma_first_free(self@);
                }
                return i;
            }
            i += 1;
        }
        proof {
            lemma_first_free(self@);
        }
        n
    }

    /// Integrates every active slot by one tick of `dt` milliseconds;
    /// inactive slots are not touched.
    pub fn update(&mut self, dt: i64)
        requires
            0 <= dt <= DT_MAX,
        ensures
            final(self)@ == update_spec(old(self)@, dt as int),
    {
        let n = self.slots.len();
        let mut i: usize = 0;
        while i < n
            invariant
                0 <= dt <= DT_MAX,
                n == self.slots.len(),
                n == old(self)@.len(),
                0 <= i <= n,
                forall|j: int| i <= j < n ==> self.slots@[j] == old(self)@[j],
                forall|j: int| 0 <= j < i ==> self.slots@[j] == update_spec(old(self)@, dt as int)[j],
            decreases n - i,
        {
            if self.slots[i].active {
                let slot = &mut self.slots[i];
                slot.integrate(dt);
            }
            i += 1;
        }
        proof {
            assert(final(self)@ =~= update_spec(old(self)@, dt as int));
        }
    }

    /// The draw data of every active slot, in storage order. Takes the
    /// pool by shared reference: drawing can never change a slot.
    pub fn for_each_active(&self) -> (out: Vec<DrawItem>)
        ensures
            out@ == draws_spec(self@),
    {
        let n = self.slots.len();
        let mut out: Vec<DrawItem> = Vec::new();
        let mut i: usize = 0;
        while i < n
            invariant
                n == self.slots.len(),
                0 <= i <= n,
                out@ == draws_spec(self@.subrange(0, i as int)),
            decreases n - i,
        {
            let p = self.slots[i];
            proof {
                assert(self@.subrange(0, i + 1).drop_last() =~= self@.subrange(0, i as int));
                assert(self@.subrange(0, i + 1).last() == self@[i as int]);
            }
            if p.active {
                out.push(DrawItem { asset_id: p.asset_id, x: p.x, y: p.y });
            }
            i += 1;
        }
        proof {
            assert(self@.subrange(0, n as int) =~= self@);
        }
        out
    }
}

} // verus!
