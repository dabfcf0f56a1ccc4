//! The infection colour mode's bookkeeping: counting the infectious balls
//! and restarting the epidemic with a new colour.
use crate::color::{
    compare_colors_ignoring_alpha, hue_color_spec, hue_delta, random_distinct_color, same_rgb,
    Color, HUE_DISTINCT, HUE_TURN,
};
use crate::particle::ParticleInstance;
use crate::random::random_index;
use crate::system::ParticleSystem;
use crate::balls::BallScreenSaver;
use vstd::prelude::*;

verus! {
/// How many particles carry colour `c`, alpha aside.
pub open spec fn count_rgb(s: Seq<ParticleInstance>, c: Color) -> nat
    decreases s.len(),
{
    if s.len() == 0 {
        0
    } else {
        count_rgb(s.drop_last(), c) + if same_rgb(s.last().color, c) {
            1nat
        } else {
            0nat
        }
    }
}

proof fn lemma_count_none(s: Seq<ParticleInstance>, c: Color)
    requires
        forall|i: int| 0 <= i < s.len() ==> !same_rgb(#[trigger] s[i].color, c),
    ensures
        count_rgb(s, c) == 0,
    decreases s.len(),
{
    if s.len() > 0 {
        let t = s.drop_last();
        assert forall|i: int| 0 <= i < t.len() implies !same_rgb(#[trigger] t[i].color, c) by {
            assert(t[i] == s[i]);
        }
        lemma_count_none(t, c);
    }
}

/// Exactly one particle carries `c` when particle `k` does and no other.
pub proof fn lemma_count_one(s: Seq<ParticleInstance>, k: int, c: Color)
    requires
        0 <= k < s.len(),
        same_rgb(s[k].color, c),
        forall|i: int| 0 <= i < s.len() && i != k ==> !same_rgb(#[trigger] s[i].color, c),
    ensures
        count_rgb(s, c) == 1,
    decreases s.len(),
{
    let t = s.drop_last();
    if k == s.len() - 1 {
        assert forall|i: int| 0 <= i < t.len() implies !same_rgb(#[trigger] t[i].color, c) by {
            assert(t[i] == s[i]);
        }
        lemma_count_none(t, c);
    } else {
        assert forall|i: int| 0 <= i < t.len() && i != k implies !same_rgb(
            #[trigger] t[i].color,
            c,
        ) by {
            assert(t[i] == s[i]);
        }
        assert(t[k] == s[k]);
        lemma_count_one(t, k, c);
    }
}

/// The epidemic restart took the saver from `s0` to `s1`: a new infectious
/// hue more than a fifth of a turn from the old one, its colour, and one
/// particle given that colour, nothing else changed.
pub open spec fn restarted(s0: BallScreenSaver, s1: BallScreenSaver) -> bool {
    &&& s1.infection_hue < HUE_TURN
    &&& HUE_DISTINCT < hue_delta(s0.infection_hue as int, s1.infection_hue as int)
    &&& s1.color == hue_color_spec(s1.infection_hue as int)
    &&& s1.old_config == s0.old_config
    &&& match (s0.balls, s1.balls) {
        (Some(b0), Some(b1)) => exists|k: int|
            #![trigger b0.instances.instances@[k]]
            0 <= k < b0.len_spec() && b1.instances.instances@ == b0.instances.instances@.update(
                k,
                ParticleInstance { color: s1.color, ..b0.instances.instances@[k] },
            ) && b1.particle_data@ == b0.particle_data@ && b1.particle_system_data
                == b0.particle_system_data && b1.collider == b0.collider,
        _ => false,
    }
}

proof fn lemma_same_rgb_distinct_hues(a: int, b: int, c: Color)
    requires
        0 <= a < HUE_TURN,
        0 <= b < HUE_TURN,
        HUE_DISTINCT < hue_delta(a, b),
        same_rgb(c, hue_color_spec(a)),
    ensures
        !same_rgb(c, hue_color_spec(b)),
{
    crate::color::lemma_distinct_hues_differ(a, b);
}

/// Once every particle carries the infectious colour, the restart leaves
/// exactly one particle with the new infectious colour, which differs from
/// the old one.
pub proof fn lemma_restart_leaves_one(s0: BallScreenSaver, s1: BallScreenSaver)
    requires
        restarted(s0, s1),
        s0.infection_hue < HUE_TURN,
        s0.color == hue_color_spec(s0.infection_hue as int),
        s0.balls matches Some(b0) && forall|i: int|
            0 <= i < b0.len_spec() ==> same_rgb(#[trigger] b0.instances.instances@[i].color, s0.color),
    ensures
        !same_rgb(s1.color, s0.color),
        s1.balls matches Some(b1) && count_rgb(b1.instances.instances@, s1.color) == 1,
{
    let b0 = s0.balls->0;
    let b1 = s1.balls->0;
    let k = choose|k: int|
        #![trigger b0.instances.instances@[k]]
        0 <= k < b0.len_spec() && b1.instances.instances@ == b0.instances.instances@.update(
            k,
            ParticleInstance { color: s1.color, ..b0.instances.instances@[k] },
        ) && b1.particle_data@ == b0.particle_data@;
    lemma_same_rgb_distinct_hues(
        s0.infection_hue as int,
        s1.infection_hue as int,
        s0.color,
    );
    let t = b1.instances.instances@;
    assert forall|i: int| 0 <= i < t.len() && i != k implies !same_rgb(
        #[trigger] t[i].color,
        s1.color,
    ) by {
        assert(same_rgb(b0.instances.instances@[i].color, s0.color));
        lemma_same_rgb_distinct_hues(
            s0.infection_hue as int,
            s1.infection_hue as int,
            b0.instances.instances@[i].color,
        );
    }
    lemma_count_one(t, k, s1.color);
}

impl BallScreenSaver {
    /// Restarts the epidemic: draws a new infectious colour, distinct from
    /// the old one, and gives it to one randomly chosen particle.
    pub fn restart_infection(&mut self)
        requires
            old(self).wf(),
            old(self).balls matches Some(sys) && sys.len_spec() > 0,
        ensures
            final(self).wf(),
            restarted(*old(self), *final(self)),
            final(self).inputs@ == old(self).inputs@,
            final(self).actual_ball_speed == old(self).actual_ball_speed,
    {
        let (h, c) = random_distinct_color(&mut self.rng, self.infection_hue);
        let mut balls: Option<ParticleSystem> = None;
        std::mem::swap(&mut balls, &mut self.balls);
        match balls {
            None => {},
            Some(mut sys) => {
                let k = random_index(&mut self.rng, sys.len());
                let inst = sys.instances.instances[k];
                proof {
                    assert(sys.instances.instances@[k as int].wf());
                }
                sys.set_instance(k, ParticleInstance { color: c, ..inst });
                self.balls = Some(sys);
            },
        }
        self.infection_hue = h;
        self.color = c;
    }

    /// How many particles carry the infectious colour.
    pub fn infected_count(&self) -> (r: usize)
        ensures
            self.balls matches Some(sys) ==> r == count_rgb(sys.instances.instances@, self.color),
            self.balls is None ==> r == 0,
    {
        match &self.balls {
            None => 0,
            Some(sys) => {
                let n = sys.instances.instances.len();
                let mut count: usize = 0;
                let mut i: usize = 0;
                while i < n
                    invariant
                        i <= n,
                        n == sys.instances.instances@.len(),
                        count == count_rgb(sys.instances.instances@.subrange(0, i as int), self.color),
                        count <= i,
                    decreases n - i,
                {
                    let ghost s = sys.instances.instances@.subrange(0, i + 1);
                    assert(s.drop_last() == sys.instances.instances@.subrange(0, i as int));
                    if compare_colors_ignoring_alpha(sys.instances.instances[i].color, self.color) {
                        count = count + 1;
                    }
                    i = i + 1;
                }
                assert(sys.instances.instances@.subrange(0, n as int) == sys.instances.instances@);
                count
            },
        }
    }
}

} // verus!
