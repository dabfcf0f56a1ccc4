//! The configuration snapshot that the simulation reads each frame, and the
//! named kinds and presets around it.
use crate::color::Color;
use crate::geometry::COORD_MAX;
use crate::particle::{SCALE_MAX, SCALE_ONE};
use crate::physics::SPEED_UNIT;
use vstd::prelude::*;

verus! {

/// The screensaver variants.
#[derive(Debug, Clone, Copy, PartialEq, Eq, Structural)]
pub enum ScreenSaverType {
    Snow,
    Balls,
}

impl ScreenSaverType {
    pub open spec fn name_spec(self) -> Seq<char> {
        match self {
            ScreenSaverType::Snow => "snow"@,
            ScreenSaverType::Balls => "balls"@,
        }
    }

    /// The name the configuration uses for the variant.
    pub fn to_string(&self) -> (r: String)
        ensures
            r@ == self.name_spec(),
    {
        match self {
            ScreenSaverType::Snow => "snow".to_owned(),
            ScreenSaverType::Balls => "balls".to_owned(),
        }
    }
}

/// How the balls are coloured.
#[derive(Debug, Clone, Copy, PartialEq, Eq, Structural)]
pub enum BallColorMode {
    Random,
    Color,
    Infection,
    Temperature,
}

impl BallColorMode {
    pub open spec fn name_spec(self) -> Seq<char> {
        match self {
            BallColorMode::Random => "random"@,
            BallColorMode::Color => "color"@,
            BallColorMode::Infection => "infection"@,
            BallColorMode::Temperature => "temperature"@,
        }
    }

    /// The name the configuration uses for the mode.
    pub fn to_string(&self) -> (r: String)
        ensures
            r@ == self.name_spec(),
    {
        match self {
            BallColorMode::Random => "random".to_owned(),
            BallColorMode::Color => "color".to_owned(),
            BallColorMode::Infection => "infection".to_owned(),
            BallColorMode::Temperature => "temperature".to_owned(),
        }
    }
}

/// The models of the spinning-model variant.
#[derive(Debug, Clone, Copy, PartialEq, Eq, Structural)]
pub enum DDDModel {
    Apple,
    Shark,
}

impl DDDModel {
    pub open spec fn name_spec(self) -> Seq<char> {
        match self {
            DDDModel::Apple => "apple"@,
            DDDModel::Shark => "shark"@,
        }
    }

    /// The name the configuration uses for the model.
    pub fn to_string(&self) -> (r: String)
        ensures
            r@ == self.name_spec(),
    {
        match self {
            DDDModel::Apple => "apple".to_owned(),
            DDDModel::Shark => "shark".to_owned(),
        }
    }

    pub open spec fn resources_spec(self) -> (Seq<char>, Seq<char>) {
        match self {
            DDDModel::Apple => ("models/apple.obj"@, "textures/apple.png"@),
            DDDModel::Shark => ("models/shark.obj"@, "textures/shark.png"@),
        }
    }

    /// The resource paths of the model's mesh and of its texture; the
    /// caller reads them.
    pub fn get(&self) -> (r: (String, String))
        ensures
            r.0@ == self.resources_spec().0,
            r.1@ == self.resources_spec().1,
    {
        match self {
            DDDModel::Apple => ("models/apple.obj".to_owned(), "textures/apple.png".to_owned()),
            DDDModel::Shark => ("models/shark.obj".to_owned(), "textures/shark.png".to_owned()),
        }
    }
}

/// The shaders of the renderer.
#[derive(Debug, Clone, Copy, PartialEq, Eq, Structural)]
pub enum ShaderType {
    ParticleShader,
    MeshShader,
}

impl ShaderType {
    pub open spec fn source_path_spec(self) -> Seq<char> {
        match self {
            ShaderType::ParticleShader => "shaders/particle_shader.wgsl"@,
            ShaderType::MeshShader => "shaders/model_shader.wgsl"@,
        }
    }

    /// The resource path of the shader's WGSL source; the caller reads it.
    pub fn get_source(&self) -> (r: String)
        ensures
            r@ == self.source_path_spec(),
    {
        match self {
            ShaderType::ParticleShader => "shaders/particle_shader.wgsl".to_owned(),
            ShaderType::MeshShader => "shaders/model_shader.wgsl".to_owned(),
        }
    }
}

/// Named configurations of the ball variant.
#[derive(Debug, Clone, Copy, PartialEq, Eq, Structural)]
pub enum ConfigPresets {
    BallsInfection,
    BallsLava,
    BallsGasSimulation,
    BallsDVD,
    Colors,
}

/// One frame's view of the configuration. Speeds are in units per second
/// (`SPEED_UNIT` is one length per second); sizes and the region size are
/// fixed-point scales (`SCALE_ONE` is one).
#[derive(Debug, Clone, Copy, PartialEq, Eq, Structural)]
pub struct Configurator {
    pub screensaver: ScreenSaverType,
    pub fullscreen: bool,
    pub snowflake_count: usize,
    pub ball_count: usize,
    pub ball_speed: i64,
    pub ball_size: i64,
    pub color_mode: BallColorMode,
    pub color: Color,
    pub show_density: bool,
    pub target_display_density: u64,
    pub region_size: i64,
    pub correct_ball_velocity: bool,
    pub ddd_model: DDDModel,
}

impl Configurator {
    /// The values lie in the ranges the simulation computes with.
    pub open spec fn wf(self) -> bool {
        &&& 0 <= self.ball_speed <= COORD_MAX
        &&& 0 <= self.ball_size <= SCALE_MAX
        &&& 0 <= self.region_size
        &&& self.target_display_density < 0x1_0000_0000
        &&& self.color.wf()
    }

    /// The preset's settings over the given defaults.
    pub fn from_preset(preset: ConfigPresets, defaults: Configurator) -> (r: Configurator)
        ensures
            r.screensaver == ScreenSaverType::Balls,
            preset == ConfigPresets::BallsInfection ==> r == (Configurator {
                screensaver: ScreenSaverType::Balls,
                ball_count: 100,
                ball_speed: 200000,
                ball_size: 200000,
                color_mode: BallColorMode::Infection,
                ..defaults
            }),
            preset == ConfigPresets::BallsLava ==> r == (Configurator {
                screensaver: ScreenSaverType::Balls,
                ball_count: 10000,
                ball_speed: 50000,
                ball_size: 50000,
                color_mode: BallColorMode::Temperature,
                show_density: true,
                region_size: 1000000,
                ..defaults
            }),
            preset == ConfigPresets::BallsGasSimulation ==> r == (Configurator {
                screensaver: ScreenSaverType::Balls,
                ball_count: 50000,
                ball_speed: 100000,
                ball_size: 30000,
                color_mode: BallColorMode::Color,
                show_density: true,
                region_size: 500000,
                correct_ball_velocity: false,
                ..defaults
            }),
            preset == ConfigPresets::BallsDVD ==> r == (Configurator {
                screensaver: ScreenSaverType::Balls,
                ball_count: 1,
                ball_speed: 300000,
                ball_size: 500000,
                color_mode: BallColorMode::Random,
                ..defaults
            }),
            preset == ConfigPresets::Colors ==> r == (Configurator {
                screensaver: ScreenSaverType::Balls,
                ball_count: 500,
                ball_speed: 200000,
                ball_size: 100000,
                color_mode: BallColorMode::Random,
                ..defaults
            }),
            defaults.wf() ==> r.wf(),
    {
        match preset {
            ConfigPresets::BallsInfection => Configurator {
                screensaver: ScreenSaverType::Balls,
                ball_count: 100,
                ball_speed: SPEED_UNIT / 5,
                ball_size: SCALE_ONE / 5,
                color_mode: BallColorMode::Infection,
                ..defaults
            },
            ConfigPresets::BallsLava => Configurator {
                screensaver: ScreenSaverType::Balls,
                ball_count: 10000,
                ball_speed: SPEED_UNIT / 20,
                ball_size: SCALE_ONE / 20,
                color_mode: BallColorMode::Temperature,
                show_density: true,
                region_size: SCALE_ONE,
                ..defaults
            },
            ConfigPresets::BallsGasSimulation => Configurator {
                screensaver: ScreenSaverType::Balls,
                ball_count: 50000,
                ball_speed: SPEED_UNIT / 10,
                ball_size: SCALE_ONE * 3 / 100,
                color_mode: BallColorMode::Color,
                show_density: true,
                region_size: SCALE_ONE / 2,
                correct_ball_velocity: false,
                ..defaults
            },
            ConfigPresets::BallsDVD => Configurator {
                screensaver: ScreenSaverType::Balls,
                ball_count: 1,
                ball_speed: SPEED_UNIT * 3 / 10,
                ball_size: SCALE_ONE / 2,
                color_mode: BallColorMode::Random,
                ..defaults
            },
            ConfigPresets::Colors => Configurator {
                screensaver: ScreenSaverType::Balls,
                ball_count: 500,
                ball_speed: SPEED_UNIT / 5,
                ball_size: SCALE_ONE / 10,
                color_mode: BallColorMode::Random,
                ..defaults
            },
        }
    }
}

} // verus!
