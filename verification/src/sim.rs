//! The simulation host: owns the emitters, drives one tick per frame,
//! and enumerates everything to draw.

use vstd::prelude::*;
use crate::emitter::{draws_of_emitters, tick_spec, Emitter, EmitterModel};
use crate::fixed::DT_MAX;
use crate::pool::DrawItem;

verus! {

/// The whole arena: an ordered sequence of emitters, each owning its
/// pool. Emitters never interact; they are ticked in sequence order
/// only so that runs are repeatable.
pub struct Simulation {
    emitters: Vec<Emitter>,
}

impl View for Simulation {
    type V = Seq<EmitterModel>;

    closed spec fn view(&self) -> Seq<EmitterModel> {
        self.emitters@.map_values(|e: Emitter| e@)
    }
}

impl Simulation {
    /// An arena with no emitters yet.
    pub fn new() -> (s: Simulation)
        ensures
            s@ == Seq::<EmitterModel>::empty(),
    {
        let s = Simulation { emitters: Vec::new() };
        proof {
            assert(s@ =~= Seq::<EmitterModel>::empty());
        }
        s
    }

    /// Adds an emitter at the end of the tick order.
    pub fn add_emitter(&mut self, e: Emitter)
        ensures
            final(self)@ == old(self)@.push(e@),
    {
        self.emitters.push(e);
        proof {
            assert(self@ =~= old(self)@.push(e@));
        }
    }

    /// How many emitters the arena holds.
    pub fn emitter_count(&self) -> (n: usize)
        ensures
            n == self@.len(),
    {
        self.emitters.len()
    }

    /// A shared view of the emitter at index `i`, for inspection.
    pub fn emitter(&self, i: usize) -> (e: &Emitter)
        requires
            i < self@.len(),
        ensures
            e@ == self@[i as int],
    {
        &self.emitters[i]
    }

    /// One frame of `dt` milliseconds: every emitter ticks once, in
    /// sequence order.
    pub fn update(&mut self, dt: i64)
        requires
            0 <= dt <= DT_MAX,
        ensures
            final(self)@ == old(self)@.map_values(|m: EmitterModel| tick_spec(m, dt as int)),
    {
        let n = self.emitters.len();
        let mut i: usize = 0;
        while i < n
            invariant
                0 <= dt <= DT_MAX,
                n == self.emitters.len(),
                n == old(self)@.len(),
                0 <= i <= n,
                forall|j: int| i <= j < n ==> self.emitters@[j]@ == old(self)@[j],
                forall|j: int|
                    0 <= j < i ==> self.emitters@[j]@ == tick_spec(old(self)@[j], dt as int),
            decreases n - i,
        {
            let e = &mut self.emitters[i];
            e.tick(dt);
            i += 1;
        }
        proof {
            assert(self@ =~= old(self)@.map_values(|m: EmitterModel| tick_spec(m, dt as int)));
        }
    }

    /// The draw data of every active projectile of every emitter, in
    /// tick order. Takes the arena by shared reference: drawing can
    /// never change simulation state.
    pub fn draw(&self) -> (out: Vec<DrawItem>)
        ensures
            out@ == draws_of_emitters(self@),
    {
        let n = self.emitters.len();
        let mut out: Vec<DrawItem> = Vec::new();
        let mut i: usize = 0;
        while i < n
            invariant
                n == self.emitters.len(),
                0 <= i <= n,
                out@ == draws_of_emitters(self@.subrange(0, i as int)),
            decreases n - i,
        {
            let mut d = self.emitters[i].draw();
            proof {
                assert(self@.subrange(0, i + 1).drop_last() =~= self@.subrange(0, i as int));
                assert(self@.subrange(0, i + 1).last() == self@[i as int]);
            }
            out.append(&mut d);
            i += 1;
        }
        proof {
            assert(self@.subrange(0, n as int) =~= self@);
        }
        out
    }
}

} // verus!
