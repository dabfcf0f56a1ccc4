//! The simulation variants as one closed sum, dispatched by match.
use crate::balls::BallScreenSaver;
use crate::config::{Configurator, ScreenSaverType};
use crate::geometry::COORD_MAX;
use crate::snow::SnowScreenSaver;
use vstd::prelude::*;

verus! {

/// The running simulation: snow or balls, each with its own state.
pub enum Simulation {
    Snow(SnowScreenSaver),
    Balls(BallScreenSaver),
}

impl Simulation {
    pub open spec fn wf(self) -> bool {
        match self {
            Simulation::Snow(s) => s.wf(),
            Simulation::Balls(b) => b.wf(),
        }
    }

    /// The configuration snapshot the variant last followed.
    pub open spec fn config_spec(self) -> Configurator {
        match self {
            Simulation::Snow(s) => s.old_config,
            Simulation::Balls(b) => b.old_config,
        }
    }

    /// The variant the configuration names, for that configuration, drawing
    /// chance from the seed.
    pub fn new(config: Configurator, seed: u64) -> (r: Simulation)
        requires
            config.wf(),
        ensures
            r.wf(),
            r.config_spec() == config,
            config.screensaver == ScreenSaverType::Snow <==> r is Snow,
            config.screensaver == ScreenSaverType::Balls <==> r is Balls,
    {
        match config.screensaver {
            ScreenSaverType::Snow => Simulation::Snow(SnowScreenSaver::new(config, seed)),
            ScreenSaverType::Balls => Simulation::Balls(BallScreenSaver::new(config, seed)),
        }
    }

    /// Makes the variant's particles for a window of the given aspect ratio.
    pub fn setup(&mut self, ratio: i64)
        requires
            old(self).wf(),
            old(self).config_spec().wf(),
            0 <= ratio <= COORD_MAX / 2,
        ensures
            final(self).wf(),
            final(self).config_spec() == old(self).config_spec(),
            *old(self) is Snow <==> *final(self) is Snow,
    {
        match self {
            Simulation::Snow(s) => {
                let config = s.old_config;
                s.setup(&config);
            },
            Simulation::Balls(b) => {
                let config = b.old_config;
                b.setup(ratio, &config);
            },
        }
    }

    /// One frame of the variant under the given snapshot.
    pub fn update(&mut self, ratio: i64, config: &Configurator, dt: u64)
        requires
            old(self).wf(),
            config.wf(),
            0 <= ratio <= COORD_MAX,
        ensures
            final(self).wf(),
            final(self).config_spec() == *config,
            *old(self) is Snow <==> *final(self) is Snow,
    {
        match self {
            Simulation::Snow(s) => s.update(config, dt),
            Simulation::Balls(b) => b.update(ratio, config, dt),
        }
    }
}

} // verus!
