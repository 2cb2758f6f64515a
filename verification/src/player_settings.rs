//! Per-map player settings that a version 2 map can ask the game to apply:
//! modifiers, environment and colour overrides, graphics, and the options of
//! common mods. Every field is optional; an absent one leaves the player's own
//! setting alone.
use vstd::prelude::*;
use crate::beatmap_data::BeatmapDataError;

verus! {

/// Which environment effects a preset lets through.
#[derive(Copy, Clone, Debug, PartialEq, Eq, Structural)]
pub enum EnvironmentEffectsV2 {
    AllEffects,
    StrobeFilter,
    NoEffects,
}

/// How the energy meter drains.
#[derive(Copy, Clone, Debug, PartialEq, Eq, Structural)]
pub enum EnergyTypeV2 {
    Bar,
    Battery,
}

/// Which walls are played.
#[derive(Copy, Clone, Debug, PartialEq, Eq, Structural)]
pub enum ObstacleType {
    All,
    FullHeightOnly,
    NoObstacles,
}

/// Playback speed modifier.
#[derive(Copy, Clone, Debug, PartialEq, Eq, Structural)]
pub enum SongSpeed {
    Normal,
    Faster,
    Slow,
    SuperFast,
}

/// Gameplay modifiers a map asks for.
#[derive(Clone, Debug)]
pub struct ModifiersOptionsV2 {
    pub energy_type: Option<EnergyTypeV2>,
    pub no_fail_on_0_energy: Option<bool>,
    pub insta_fail: Option<bool>,
    pub fail_on_saber_clash: Option<bool>,
    pub enabled_obstacle_type: Option<ObstacleType>,
    /// Forces NJS to 20.
    pub fast_notes: Option<bool>,
    pub strict_angles: Option<bool>,
    pub disappearing_arrows: Option<bool>,
    pub ghost_notes: Option<bool>,
    pub no_bombs: Option<bool>,
    pub song_speed: Option<SongSpeed>,
    pub no_arrows: Option<bool>,
    pub pro_mode: Option<bool>,
    pub zen_mode: Option<bool>,
    pub small_cubes: Option<bool>,
}

/// Whether the map's environment overrides the player's.
#[derive(Clone, Debug)]
pub struct EnvironmentOptionsV2 {
    pub override_environments: Option<bool>,
}

/// Whether the map's colours override the player's.
#[derive(Clone, Debug)]
pub struct ColorOptionsV2 {
    pub override_default_colors: Option<bool>,
}

/// Graphics settings a map asks for.
#[derive(Clone, Debug)]
pub struct GraphicsOptionsV2 {
    pub mirror_graphics_settings: Option<MirrorGraphicsSettings>,
    /// "Bloom Post Process". Disabling switches to baked/fake "Quest style" bloom.
    pub main_effect_graphics_settings: Option<MainEffectGraphicsSettings>,
    /// Also enables depth texture / "Soft Particles" when used.
    pub smoke_graphics_settings: Option<SmokeGraphicsSettings>,
    /// Hidden setting: hides burn trails left by sabers.
    pub burn_mark_trails_enabled: Option<bool>,
    pub screen_displacement_effects_enabled: Option<bool>,
    pub max_shockwave_particles: Option<MaxShockwaveParticles>,
}

/// Quality of mirror reflections.
#[derive(Copy, Clone, Debug, PartialEq, Eq, Structural)]
pub enum MirrorGraphicsSettings {
    Off,
    Low,
    Medium,
    High,
}

impl MirrorGraphicsSettings {
    /// The byte that stands for this value in a map file.
    pub open spec fn code(self) -> u8 {
        match self {
            MirrorGraphicsSettings::Off => 0u8,
            MirrorGraphicsSettings::Low => 1u8,
            MirrorGraphicsSettings::Medium => 2u8,
            MirrorGraphicsSettings::High => 3u8,
        }
    }

    /// The value a byte stands for, if any.
    pub open spec fn from_code(v: u8) -> Option<Self> {
        match v {
            0u8 => Some(MirrorGraphicsSettings::Off),
            1u8 => Some(MirrorGraphicsSettings::Low),
            2u8 => Some(MirrorGraphicsSettings::Medium),
            3u8 => Some(MirrorGraphicsSettings::High),
            _ => None,
        }
    }

}

/// The byte written for a value.
impl From<MirrorGraphicsSettings> for u8 {
    fn from(value: MirrorGraphicsSettings) -> (v: u8) {
        match value {
            MirrorGraphicsSettings::Off => 0,
            MirrorGraphicsSettings::Low => 1,
            MirrorGraphicsSettings::Medium => 2,
            MirrorGraphicsSettings::High => 3,
        }
    }
}

impl vstd::std_specs::convert::FromSpecImpl<MirrorGraphicsSettings> for u8 {
    open spec fn obeys_from_spec() -> bool {
        true
    }

    open spec fn from_spec(v: MirrorGraphicsSettings) -> u8 {
        v.code()
    }
}

/// Reads a byte of a map file; a byte that names no value is an error that
/// names the type and the byte.
impl TryFrom<u8> for MirrorGraphicsSettings {
    type Error = BeatmapDataError;

    fn try_from(value: u8) -> (r: Result<MirrorGraphicsSettings, BeatmapDataError>) {
        match value {
            0 => Ok(MirrorGraphicsSettings::Off),
            1 => Ok(MirrorGraphicsSettings::Low),
            2 => Ok(MirrorGraphicsSettings::Medium),
            3 => Ok(MirrorGraphicsSettings::High),
            _ => Err(BeatmapDataError::ToEnum { enum_name: "MirrorGraphicsSettings", val: value as i32 }),
        }
    }
}

impl vstd::std_specs::convert::TryFromSpecImpl<u8> for MirrorGraphicsSettings {
    open spec fn obeys_try_from_spec() -> bool {
        true
    }

    open spec fn try_from_spec(v: u8) -> Result<MirrorGraphicsSettings, BeatmapDataError> {
        match MirrorGraphicsSettings::from_code(v) {
            Some(e) => Ok(e),
            None => Err(BeatmapDataError::ToEnum { enum_name: "MirrorGraphicsSettings", val: v as i32 }),
        }
    }
}

/// The byte written for a value reads back as that value, and a byte that
/// reads as a value is the byte that value is written as.
pub proof fn lemma_mirror_graphics_settings_codes(e: MirrorGraphicsSettings, v: u8)
    ensures
        MirrorGraphicsSettings::from_code(e.code()) == Some(e),
        MirrorGraphicsSettings::from_code(v) matches Some(x) ==> x.code() == v,
{
}

/// The bytes the map format writes for each value of `MirrorGraphicsSettings`, as the
/// format defines them: Off is 0, Low is 1, Medium is 2, High is 3.
pub proof fn lemma_mirror_graphics_settings_format_values()
    ensures
        MirrorGraphicsSettings::Off.code() == 0u8,
        MirrorGraphicsSettings::from_code(0u8) == Some(MirrorGraphicsSettings::Off),
        MirrorGraphicsSettings::Low.code() == 1u8,
        MirrorGraphicsSettings::from_code(1u8) == Some(MirrorGraphicsSettings::Low),
        MirrorGraphicsSettings::Medium.code() == 2u8,
        MirrorGraphicsSettings::from_code(2u8) == Some(MirrorGraphicsSettings::Medium),
        MirrorGraphicsSettings::High.code() == 3u8,
        MirrorGraphicsSettings::from_code(3u8) == Some(MirrorGraphicsSettings::High),
{
}

/// Whether the bloom post-process runs.
#[derive(Copy, Clone, Debug, PartialEq, Eq, Structural)]
pub enum MainEffectGraphicsSettings {
    Off,
    On,
}

impl MainEffectGraphicsSettings {
    /// The byte that stands for this value in a map file.
    pub open spec fn code(self) -> u8 {
        match self {
            MainEffectGraphicsSettings::Off => 0u8,
            MainEffectGraphicsSettings::On => 1u8,
        }
    }

    /// The value a byte stands for, if any.
    pub open spec fn from_code(v: u8) -> Option<Self> {
        match v {
            0u8 => Some(MainEffectGraphicsSettings::Off),
            1u8 => Some(MainEffectGraphicsSettings::On),
            _ => None,
        }
    }

}

/// The byte written for a value.
impl From<MainEffectGraphicsSettings> for u8 {
    fn from(value: MainEffectGraphicsSettings) -> (v: u8) {
        match value {
            MainEffectGraphicsSettings::Off => 0,
            MainEffectGraphicsSettings::On => 1,
        }
    }
}

impl vstd::std_specs::convert::FromSpecImpl<MainEffectGraphicsSettings> for u8 {
    open spec fn obeys_from_spec() -> bool {
        true
    }

    open spec fn from_spec(v: MainEffectGraphicsSettings) -> u8 {
        v.code()
    }
}

/// Reads a byte of a map file; a byte that names no value is an error that
/// names the type and the byte.
impl TryFrom<u8> for MainEffectGraphicsSettings {
    type Error = BeatmapDataError;

    fn try_from(value: u8) -> (r: Result<MainEffectGraphicsSettings, BeatmapDataError>) {
        match value {
            0 => Ok(MainEffectGraphicsSettings::Off),
            1 => Ok(MainEffectGraphicsSettings::On),
            _ => Err(BeatmapDataError::ToEnum { enum_name: "MainEffectGraphicsSettings", val: value as i32 }),
        }
    }
}

impl vstd::std_specs::convert::TryFromSpecImpl<u8> for MainEffectGraphicsSettings {
    open spec fn obeys_try_from_spec() -> bool {
        true
    }

    open spec fn try_from_spec(v: u8) -> Result<MainEffectGraphicsSettings, BeatmapDataError> {
        match MainEffectGraphicsSettings::from_code(v) {
            Some(e) => Ok(e),
            None => Err(BeatmapDataError::ToEnum { enum_name: "MainEffectGraphicsSettings", val: v as i32 }),
        }
    }
}

/// The byte written for a value reads back as that value, and a byte that
/// reads as a value is the byte that value is written as.
pub proof fn lemma_main_effect_graphics_settings_codes(e: MainEffectGraphicsSettings, v: u8)
    ensures
        MainEffectGraphicsSettings::from_code(e.code()) == Some(e),
        MainEffectGraphicsSettings::from_code(v) matches Some(x) ==> x.code() == v,
{
}

/// The bytes the map format writes for each value of `MainEffectGraphicsSettings`, as the
/// format defines them: Off is 0, On is 1.
pub proof fn lemma_main_effect_graphics_settings_format_values()
    ensures
        MainEffectGraphicsSettings::Off.code() == 0u8,
        MainEffectGraphicsSettings::from_code(0u8) == Some(MainEffectGraphicsSettings::Off),
        MainEffectGraphicsSettings::On.code() == 1u8,
        MainEffectGraphicsSettings::from_code(1u8) == Some(MainEffectGraphicsSettings::On),
{
}

/// Whether smoke is drawn.
#[derive(Copy, Clone, Debug, PartialEq, Eq, Structural)]
pub enum SmokeGraphicsSettings {
    Off,
    On,
}

impl SmokeGraphicsSettings {
    /// The byte that stands for this value in a map file.
    pub open spec fn code(self) -> u8 {
        match self {
            SmokeGraphicsSettings::Off => 0u8,
            SmokeGraphicsSettings::On => 1u8,
        }
    }

    /// The value a byte stands for, if any.
    pub open spec fn from_code(v: u8) -> Option<Self> {
        match v {
            0u8 => Some(SmokeGraphicsSettings::Off),
            1u8 => Some(SmokeGraphicsSettings::On),
            _ => None,
        }
    }

}

/// The byte written for a value.
impl From<SmokeGraphicsSettings> for u8 {
    fn from(value: SmokeGraphicsSettings) -> (v: u8) {
        match value {
            SmokeGraphicsSettings::Off => 0,
            SmokeGraphicsSettings::On => 1,
        }
    }
}

impl vstd::std_specs::convert::FromSpecImpl<SmokeGraphicsSettings> for u8 {
    open spec fn obeys_from_spec() -> bool {
        true
    }

    open spec fn from_spec(v: SmokeGraphicsSettings) -> u8 {
        v.code()
    }
}

/// Reads a byte of a map file; a byte that names no value is an error that
/// names the type and the byte.
impl TryFrom<u8> for SmokeGraphicsSettings {
    type Error = BeatmapDataError;

    fn try_from(value: u8) -> (r: Result<SmokeGraphicsSettings, BeatmapDataError>) {
        match value {
            0 => Ok(SmokeGraphicsSettings::Off),
            1 => Ok(SmokeGraphicsSettings::On),
            _ => Err(BeatmapDataError::ToEnum { enum_name: "SmokeGraphicsSettings", val: value as i32 }),
        }
    }
}

impl vstd::std_specs::convert::TryFromSpecImpl<u8> for SmokeGraphicsSettings {
    open spec fn obeys_try_from_spec() -> bool {
        true
    }

    open spec fn try_from_spec(v: u8) -> Result<SmokeGraphicsSettings, BeatmapDataError> {
        match SmokeGraphicsSettings::from_code(v) {
            Some(e) => Ok(e),
            None => Err(BeatmapDataError::ToEnum { enum_name: "SmokeGraphicsSettings", val: v as i32 }),
        }
    }
}

/// The byte written for a value reads back as that value, and a byte that
/// reads as a value is the byte that value is written as.
pub proof fn lemma_smoke_graphics_settings_codes(e: SmokeGraphicsSettings, v: u8)
    ensures
        SmokeGraphicsSettings::from_code(e.code()) == Some(e),
        SmokeGraphicsSettings::from_code(v) matches Some(x) ==> x.code() == v,
{
}

/// The bytes the map format writes for each value of `SmokeGraphicsSettings`, as the
/// format defines them: Off is 0, On is 1.
pub proof fn lemma_smoke_graphics_settings_format_values()
    ensures
        SmokeGraphicsSettings::Off.code() == 0u8,
        SmokeGraphicsSettings::from_code(0u8) == Some(SmokeGraphicsSettings::Off),
        SmokeGraphicsSettings::On.code() == 1u8,
        SmokeGraphicsSettings::from_code(1u8) == Some(SmokeGraphicsSettings::On),
{
}

/// How many shockwave particles are drawn.
#[derive(Copy, Clone, Debug, PartialEq, Eq, Structural)]
pub enum MaxShockwaveParticles {
    Off,
    Low,
    High,
}

impl MaxShockwaveParticles {
    /// The byte that stands for this value in a map file.
    pub open spec fn code(self) -> u8 {
        match self {
            MaxShockwaveParticles::Off => 0u8,
            MaxShockwaveParticles::Low => 1u8,
            MaxShockwaveParticles::High => 2u8,
        }
    }

    /// The value a byte stands for, if any.
    pub open spec fn from_code(v: u8) -> Option<Self> {
        match v {
            0u8 => Some(MaxShockwaveParticles::Off),
            1u8 => Some(MaxShockwaveParticles::Low),
            2u8 => Some(MaxShockwaveParticles::High),
            _ => None,
        }
    }

}

/// The byte written for a value.
impl From<MaxShockwaveParticles> for u8 {
    fn from(value: MaxShockwaveParticles) -> (v: u8) {
        match value {
            MaxShockwaveParticles::Off => 0,
            MaxShockwaveParticles::Low => 1,
            MaxShockwaveParticles::High => 2,
        }
    }
}

impl vstd::std_specs::convert::FromSpecImpl<MaxShockwaveParticles> for u8 {
    open spec fn obeys_from_spec() -> bool {
        true
    }

    open spec fn from_spec(v: MaxShockwaveParticles) -> u8 {
        v.code()
    }
}

/// Reads a byte of a map file; a byte that names no value is an error that
/// names the type and the byte.
impl TryFrom<u8> for MaxShockwaveParticles {
    type Error = BeatmapDataError;

    fn try_from(value: u8) -> (r: Result<MaxShockwaveParticles, BeatmapDataError>) {
        match value {
            0 => Ok(MaxShockwaveParticles::Off),
            1 => Ok(MaxShockwaveParticles::Low),
            2 => Ok(MaxShockwaveParticles::High),
            _ => Err(BeatmapDataError::ToEnum { enum_name: "MaxShockwaveParticles", val: value as i32 }),
        }
    }
}

impl vstd::std_specs::convert::TryFromSpecImpl<u8> for MaxShockwaveParticles {
    open spec fn obeys_try_from_spec() -> bool {
        true
    }

    open spec fn try_from_spec(v: u8) -> Result<MaxShockwaveParticles, BeatmapDataError> {
        match MaxShockwaveParticles::from_code(v) {
            Some(e) => Ok(e),
            None => Err(BeatmapDataError::ToEnum { enum_name: "MaxShockwaveParticles", val: v as i32 }),
        }
    }
}

/// The byte written for a value reads back as that value, and a byte that
/// reads as a value is the byte that value is written as.
pub proof fn lemma_max_shockwave_particles_codes(e: MaxShockwaveParticles, v: u8)
    ensures
        MaxShockwaveParticles::from_code(e.code()) == Some(e),
        MaxShockwaveParticles::from_code(v) matches Some(x) ==> x.code() == v,
{
}

/// The bytes the map format writes for each value of `MaxShockwaveParticles`, as the
/// format defines them: Off is 0, Low is 1, High is 2.
pub proof fn lemma_max_shockwave_particles_format_values()
    ensures
        MaxShockwaveParticles::Off.code() == 0u8,
        MaxShockwaveParticles::from_code(0u8) == Some(MaxShockwaveParticles::Off),
        MaxShockwaveParticles::Low.code() == 1u8,
        MaxShockwaveParticles::from_code(1u8) == Some(MaxShockwaveParticles::Low),
        MaxShockwaveParticles::High.code() == 2u8,
        MaxShockwaveParticles::from_code(2u8) == Some(MaxShockwaveParticles::High),
{
}

/// Options of the Chroma mod a map asks for.
#[derive(Clone, Debug)]
pub struct ChromaOptionsV2 {
    pub disable_chroma_events: Option<bool>,
    pub disable_environment_enhancements: Option<bool>,
    pub disable_note_coloring: Option<bool>,
    pub force_zen_mode_walls: Option<bool>,
}

/// Options of the Counters+ mod a map asks for.
#[derive(Clone, Debug)]
pub struct CountersPlusOptionsV2 {
    pub main_enabled: Option<bool>,
    pub main_parented_to_base_game_hud: Option<bool>,
    pub missed_enabled: Option<bool>,
    pub progress_enabled: Option<bool>,
    pub score_enabled: Option<bool>,
    pub personal_best_enabled: Option<bool>,
    pub speed_enabled: Option<bool>,
    pub cut_enabled: Option<bool>,
    pub spinometer_enabled: Option<bool>,
    pub notes_left_enabled: Option<bool>,
    pub fail_enabled: Option<bool>,
}

/// Options of the UI Tweaks mod a map asks for.
#[derive(Clone, Debug)]
pub struct UiTweaksOptionsV2 {
    pub multiplier_enabled: Option<bool>,
    pub energy_enabled: Option<bool>,
    pub combo_enabled: Option<bool>,
    pub position_enabled: Option<bool>,
    pub progress_enabled: Option<bool>,
}

} // verus!
