//! Value types of the beatmap file formats: event kinds and options that are
//! written as small integers, and the error for integers that name no value.
use vstd::prelude::*;

verus! {

/// A value read from a map file that the format does not allow.
#[derive(Debug)]
pub enum BeatmapDataError {
    /// The integer `val` names no value of the enum `enum_name`.
    ToEnum { enum_name: &'static str, val: i32 },
}

/// Light group a version 2 light event drives.
#[derive(Copy, Clone, Debug, PartialEq, Eq, Structural)]
pub enum LightEventTypeV2 {
    BackLasers,
    RingLights,
    LeftLasers,
    RightLasers,
    CenterLasers,
    LeftExtra,
    RightExtra,
    BillieLeft,
    BillieRight,
}

impl LightEventTypeV2 {
    /// The byte that stands for this value in a map file.
    pub open spec fn code(self) -> u8 {
        match self {
            LightEventTypeV2::BackLasers => 0u8,
            LightEventTypeV2::RingLights => 1u8,
            LightEventTypeV2::LeftLasers => 2u8,
            LightEventTypeV2::RightLasers => 3u8,
            LightEventTypeV2::CenterLasers => 4u8,
            LightEventTypeV2::LeftExtra => 6u8,
            LightEventTypeV2::RightExtra => 7u8,
            LightEventTypeV2::BillieLeft => 10u8,
            LightEventTypeV2::BillieRight => 11u8,
        }
    }

    /// The value a byte stands for, if any.
    pub open spec fn from_code(v: u8) -> Option<Self> {
        match v {
            0u8 => Some(LightEventTypeV2::BackLasers),
            1u8 => Some(LightEventTypeV2::RingLights),
            2u8 => Some(LightEventTypeV2::LeftLasers),
            3u8 => Some(LightEventTypeV2::RightLasers),
            4u8 => Some(LightEventTypeV2::CenterLasers),
            6u8 => Some(LightEventTypeV2::LeftExtra),
            7u8 => Some(LightEventTypeV2::RightExtra),
            10u8 => Some(LightEventTypeV2::BillieLeft),
            11u8 => Some(LightEventTypeV2::BillieRight),
            _ => None,
        }
    }

}

/// The byte written for a value.
impl From<LightEventTypeV2> for u8 {
    fn from(value: LightEventTypeV2) -> (v: u8) {
        match value {
            LightEventTypeV2::BackLasers => 0,
            LightEventTypeV2::RingLights => 1,
            LightEventTypeV2::LeftLasers => 2,
            LightEventTypeV2::RightLasers => 3,
            LightEventTypeV2::CenterLasers => 4,
            LightEventTypeV2::LeftExtra => 6,
            LightEventTypeV2::RightExtra => 7,
            LightEventTypeV2::BillieLeft => 10,
            LightEventTypeV2::BillieRight => 11,
        }
    }
}

impl vstd::std_specs::convert::FromSpecImpl<LightEventTypeV2> for u8 {
    open spec fn obeys_from_spec() -> bool {
        true
    }

    open spec fn from_spec(v: LightEventTypeV2) -> u8 {
        v.code()
    }
}

/// Reads a byte of a map file; a byte that names no value is an error that
/// names the type and the byte.
impl TryFrom<u8> for LightEventTypeV2 {
    type Error = BeatmapDataError;

    fn try_from(value: u8) -> (r: Result<LightEventTypeV2, BeatmapDataError>) {
        match value {
            0 => Ok(LightEventTypeV2::BackLasers),
            1 => Ok(LightEventTypeV2::RingLights),
            2 => Ok(LightEventTypeV2::LeftLasers),
            3 => Ok(LightEventTypeV2::RightLasers),
            4 => Ok(LightEventTypeV2::CenterLasers),
            6 => Ok(LightEventTypeV2::LeftExtra),
            7 => Ok(LightEventTypeV2::RightExtra),
            10 => Ok(LightEventTypeV2::BillieLeft),
            11 => Ok(LightEventTypeV2::BillieRight),
            _ => Err(BeatmapDataError::ToEnum { enum_name: "LightEventTypeV2", val: value as i32 }),
        }
    }
}

impl vstd::std_specs::convert::TryFromSpecImpl<u8> for LightEventTypeV2 {
    open spec fn obeys_try_from_spec() -> bool {
        true
    }

    open spec fn try_from_spec(v: u8) -> Result<LightEventTypeV2, BeatmapDataError> {
        match LightEventTypeV2::from_code(v) {
            Some(e) => Ok(e),
            None => Err(BeatmapDataError::ToEnum { enum_name: "LightEventTypeV2", val: v as i32 }),
        }
    }
}

/// The byte written for a value reads back as that value, and a byte that
/// reads as a value is the byte that value is written as.
pub proof fn lemma_light_event_type_v2_codes(e: LightEventTypeV2, v: u8)
    ensures
        LightEventTypeV2::from_code(e.code()) == Some(e),
        LightEventTypeV2::from_code(v) matches Some(x) ==> x.code() == v,
{
}

/// The bytes the map format writes for each value of `LightEventTypeV2`, as the
/// format defines them: BackLasers is 0, RingLights is 1, LeftLasers is 2, RightLasers is 3, CenterLasers is 4, LeftExtra is 6, RightExtra is 7, BillieLeft is 10, BillieRight is 11.
pub proof fn lemma_light_event_type_v2_format_values()
    ensures
        LightEventTypeV2::BackLasers.code() == 0u8,
        LightEventTypeV2::from_code(0u8) == Some(LightEventTypeV2::BackLasers),
        LightEventTypeV2::RingLights.code() == 1u8,
        LightEventTypeV2::from_code(1u8) == Some(LightEventTypeV2::RingLights),
        LightEventTypeV2::LeftLasers.code() == 2u8,
        LightEventTypeV2::from_code(2u8) == Some(LightEventTypeV2::LeftLasers),
        LightEventTypeV2::RightLasers.code() == 3u8,
        LightEventTypeV2::from_code(3u8) == Some(LightEventTypeV2::RightLasers),
        LightEventTypeV2::CenterLasers.code() == 4u8,
        LightEventTypeV2::from_code(4u8) == Some(LightEventTypeV2::CenterLasers),
        LightEventTypeV2::LeftExtra.code() == 6u8,
        LightEventTypeV2::from_code(6u8) == Some(LightEventTypeV2::LeftExtra),
        LightEventTypeV2::RightExtra.code() == 7u8,
        LightEventTypeV2::from_code(7u8) == Some(LightEventTypeV2::RightExtra),
        LightEventTypeV2::BillieLeft.code() == 10u8,
        LightEventTypeV2::from_code(10u8) == Some(LightEventTypeV2::BillieLeft),
        LightEventTypeV2::BillieRight.code() == 11u8,
        LightEventTypeV2::from_code(11u8) == Some(LightEventTypeV2::BillieRight),
{
}

/// Ring motion of a version 2 ring event.
#[derive(Copy, Clone, Debug, PartialEq, Eq, Structural)]
pub enum RingLightEventTypeV2 {
    Spin,
    Zoom,
}

impl RingLightEventTypeV2 {
    /// The byte that stands for this value in a map file.
    pub open spec fn code(self) -> u8 {
        match self {
            RingLightEventTypeV2::Spin => 8u8,
            RingLightEventTypeV2::Zoom => 9u8,
        }
    }

    /// The value a byte stands for, if any.
    pub open spec fn from_code(v: u8) -> Option<Self> {
        match v {
            8u8 => Some(RingLightEventTypeV2::Spin),
            9u8 => Some(RingLightEventTypeV2::Zoom),
            _ => None,
        }
    }

}

/// The byte written for a value.
impl From<RingLightEventTypeV2> for u8 {
    fn from(value: RingLightEventTypeV2) -> (v: u8) {
        match value {
            RingLightEventTypeV2::Spin => 8,
            RingLightEventTypeV2::Zoom => 9,
        }
    }
}

impl vstd::std_specs::convert::FromSpecImpl<RingLightEventTypeV2> for u8 {
    open spec fn obeys_from_spec() -> bool {
        true
    }

    open spec fn from_spec(v: RingLightEventTypeV2) -> u8 {
        v.code()
    }
}

/// Reads a byte of a map file; a byte that names no value is an error that
/// names the type and the byte.
impl TryFrom<u8> for RingLightEventTypeV2 {
    type Error = BeatmapDataError;

    fn try_from(value: u8) -> (r: Result<RingLightEventTypeV2, BeatmapDataError>) {
        match value {
            8 => Ok(RingLightEventTypeV2::Spin),
            9 => Ok(RingLightEventTypeV2::Zoom),
            _ => Err(BeatmapDataError::ToEnum { enum_name: "RingLightEventTypeV2", val: value as i32 }),
        }
    }
}

impl vstd::std_specs::convert::TryFromSpecImpl<u8> for RingLightEventTypeV2 {
    open spec fn obeys_try_from_spec() -> bool {
        true
    }

    open spec fn try_from_spec(v: u8) -> Result<RingLightEventTypeV2, BeatmapDataError> {
        match RingLightEventTypeV2::from_code(v) {
            Some(e) => Ok(e),
            None => Err(BeatmapDataError::ToEnum { enum_name: "RingLightEventTypeV2", val: v as i32 }),
        }
    }
}

/// The byte written for a value reads back as that value, and a byte that
/// reads as a value is the byte that value is written as.
pub proof fn lemma_ring_light_event_type_v2_codes(e: RingLightEventTypeV2, v: u8)
    ensures
        RingLightEventTypeV2::from_code(e.code()) == Some(e),
        RingLightEventTypeV2::from_code(v) matches Some(x) ==> x.code() == v,
{
}

/// The bytes the map format writes for each value of `RingLightEventTypeV2`, as the
/// format defines them: Spin is 8, Zoom is 9.
pub proof fn lemma_ring_light_event_type_v2_format_values()
    ensures
        RingLightEventTypeV2::Spin.code() == 8u8,
        RingLightEventTypeV2::from_code(8u8) == Some(RingLightEventTypeV2::Spin),
        RingLightEventTypeV2::Zoom.code() == 9u8,
        RingLightEventTypeV2::from_code(9u8) == Some(RingLightEventTypeV2::Zoom),
{
}

/// Side of a version 2 laser speed event.
#[derive(Copy, Clone, Debug, PartialEq, Eq, Structural)]
pub enum SpinningLaserSideV2 {
    Left,
    Right,
}

impl SpinningLaserSideV2 {
    /// The byte that stands for this value in a map file.
    pub open spec fn code(self) -> u8 {
        match self {
            SpinningLaserSideV2::Left => 12u8,
            SpinningLaserSideV2::Right => 13u8,
        }
    }

    /// The value a byte stands for, if any.
    pub open spec fn from_code(v: u8) -> Option<Self> {
        match v {
            12u8 => Some(SpinningLaserSideV2::Left),
            13u8 => Some(SpinningLaserSideV2::Right),
            _ => None,
        }
    }

}

/// The byte written for a value.
impl From<SpinningLaserSideV2> for u8 {
    fn from(value: SpinningLaserSideV2) -> (v: u8) {
        match value {
            SpinningLaserSideV2::Left => 12,
            SpinningLaserSideV2::Right => 13,
        }
    }
}

impl vstd::std_specs::convert::FromSpecImpl<SpinningLaserSideV2> for u8 {
    open spec fn obeys_from_spec() -> bool {
        true
    }

    open spec fn from_spec(v: SpinningLaserSideV2) -> u8 {
        v.code()
    }
}

/// Reads a byte of a map file; a byte that names no value is an error that
/// names the type and the byte.
impl TryFrom<u8> for SpinningLaserSideV2 {
    type Error = BeatmapDataError;

    fn try_from(value: u8) -> (r: Result<SpinningLaserSideV2, BeatmapDataError>) {
        match value {
            12 => Ok(SpinningLaserSideV2::Left),
            13 => Ok(SpinningLaserSideV2::Right),
            _ => Err(BeatmapDataError::ToEnum { enum_name: "SpinningLaserSideV2", val: value as i32 }),
        }
    }
}

impl vstd::std_specs::convert::TryFromSpecImpl<u8> for SpinningLaserSideV2 {
    open spec fn obeys_try_from_spec() -> bool {
        true
    }

    open spec fn try_from_spec(v: u8) -> Result<SpinningLaserSideV2, BeatmapDataError> {
        match SpinningLaserSideV2::from_code(v) {
            Some(e) => Ok(e),
            None => Err(BeatmapDataError::ToEnum { enum_name: "SpinningLaserSideV2", val: v as i32 }),
        }
    }
}

/// The byte written for a value reads back as that value, and a byte that
/// reads as a value is the byte that value is written as.
pub proof fn lemma_spinning_laser_side_v2_codes(e: SpinningLaserSideV2, v: u8)
    ensures
        SpinningLaserSideV2::from_code(e.code()) == Some(e),
        SpinningLaserSideV2::from_code(v) matches Some(x) ==> x.code() == v,
{
}

/// The bytes the map format writes for each value of `SpinningLaserSideV2`, as the
/// format defines them: Left is 12, Right is 13.
pub proof fn lemma_spinning_laser_side_v2_format_values()
    ensures
        SpinningLaserSideV2::Left.code() == 12u8,
        SpinningLaserSideV2::from_code(12u8) == Some(SpinningLaserSideV2::Left),
        SpinningLaserSideV2::Right.code() == 13u8,
        SpinningLaserSideV2::from_code(13u8) == Some(SpinningLaserSideV2::Right),
{
}

/// Direction of a version 2 hydraulics event.
#[derive(Copy, Clone, Debug, PartialEq, Eq, Structural)]
pub enum HydraulicsTypeV2 {
    Lower,
    Raise,
}

impl HydraulicsTypeV2 {
    /// The byte that stands for this value in a map file.
    pub open spec fn code(self) -> u8 {
        match self {
            HydraulicsTypeV2::Lower => 16u8,
            HydraulicsTypeV2::Raise => 17u8,
        }
    }

    /// The value a byte stands for, if any.
    pub open spec fn from_code(v: u8) -> Option<Self> {
        match v {
            16u8 => Some(HydraulicsTypeV2::Lower),
            17u8 => Some(HydraulicsTypeV2::Raise),
            _ => None,
        }
    }

}

/// The byte written for a value.
impl From<HydraulicsTypeV2> for u8 {
    fn from(value: HydraulicsTypeV2) -> (v: u8) {
        match value {
            HydraulicsTypeV2::Lower => 16,
            HydraulicsTypeV2::Raise => 17,
        }
    }
}

impl vstd::std_specs::convert::FromSpecImpl<HydraulicsTypeV2> for u8 {
    open spec fn obeys_from_spec() -> bool {
        true
    }

    open spec fn from_spec(v: HydraulicsTypeV2) -> u8 {
        v.code()
    }
}

/// Reads a byte of a map file; a byte that names no value is an error that
/// names the type and the byte.
impl TryFrom<u8> for HydraulicsTypeV2 {
    type Error = BeatmapDataError;

    fn try_from(value: u8) -> (r: Result<HydraulicsTypeV2, BeatmapDataError>) {
        match value {
            16 => Ok(HydraulicsTypeV2::Lower),
            17 => Ok(HydraulicsTypeV2::Raise),
            _ => Err(BeatmapDataError::ToEnum { enum_name: "HydraulicsTypeV2", val: value as i32 }),
        }
    }
}

impl vstd::std_specs::convert::TryFromSpecImpl<u8> for HydraulicsTypeV2 {
    open spec fn obeys_try_from_spec() -> bool {
        true
    }

    open spec fn try_from_spec(v: u8) -> Result<HydraulicsTypeV2, BeatmapDataError> {
        match HydraulicsTypeV2::from_code(v) {
            Some(e) => Ok(e),
            None => Err(BeatmapDataError::ToEnum { enum_name: "HydraulicsTypeV2", val: v as i32 }),
        }
    }
}

/// The byte written for a value reads back as that value, and a byte that
/// reads as a value is the byte that value is written as.
pub proof fn lemma_hydraulics_type_v2_codes(e: HydraulicsTypeV2, v: u8)
    ensures
        HydraulicsTypeV2::from_code(e.code()) == Some(e),
        HydraulicsTypeV2::from_code(v) matches Some(x) ==> x.code() == v,
{
}

/// The bytes the map format writes for each value of `HydraulicsTypeV2`, as the
/// format defines them: Lower is 16, Raise is 17.
pub proof fn lemma_hydraulics_type_v2_format_values()
    ensures
        HydraulicsTypeV2::Lower.code() == 16u8,
        HydraulicsTypeV2::from_code(16u8) == Some(HydraulicsTypeV2::Lower),
        HydraulicsTypeV2::Raise.code() == 17u8,
        HydraulicsTypeV2::from_code(17u8) == Some(HydraulicsTypeV2::Raise),
{
}

/// Side of a version 2 tower event of the Gaga environment.
#[derive(Copy, Clone, Debug, PartialEq, Eq, Structural)]
pub enum GagaSideV2 {
    Left,
    Right,
}

impl GagaSideV2 {
    /// The byte that stands for this value in a map file.
    pub open spec fn code(self) -> u8 {
        match self {
            GagaSideV2::Left => 18u8,
            GagaSideV2::Right => 19u8,
        }
    }

    /// The value a byte stands for, if any.
    pub open spec fn from_code(v: u8) -> Option<Self> {
        match v {
            18u8 => Some(GagaSideV2::Left),
            19u8 => Some(GagaSideV2::Right),
            _ => None,
        }
    }

}

/// The byte written for a value.
impl From<GagaSideV2> for u8 {
    fn from(value: GagaSideV2) -> (v: u8) {
        match value {
            GagaSideV2::Left => 18,
            GagaSideV2::Right => 19,
        }
    }
}

impl vstd::std_specs::convert::FromSpecImpl<GagaSideV2> for u8 {
    open spec fn obeys_from_spec() -> bool {
        true
    }

    open spec fn from_spec(v: GagaSideV2) -> u8 {
        v.code()
    }
}

/// Reads a byte of a map file; a byte that names no value is an error that
/// names the type and the byte.
impl TryFrom<u8> for GagaSideV2 {
    type Error = BeatmapDataError;

    fn try_from(value: u8) -> (r: Result<GagaSideV2, BeatmapDataError>) {
        match value {
            18 => Ok(GagaSideV2::Left),
            19 => Ok(GagaSideV2::Right),
            _ => Err(BeatmapDataError::ToEnum { enum_name: "GagaSideV2", val: value as i32 }),
        }
    }
}

impl vstd::std_specs::convert::TryFromSpecImpl<u8> for GagaSideV2 {
    open spec fn obeys_try_from_spec() -> bool {
        true
    }

    open spec fn try_from_spec(v: u8) -> Result<GagaSideV2, BeatmapDataError> {
        match GagaSideV2::from_code(v) {
            Some(e) => Ok(e),
            None => Err(BeatmapDataError::ToEnum { enum_name: "GagaSideV2", val: v as i32 }),
        }
    }
}

/// The byte written for a value reads back as that value, and a byte that
/// reads as a value is the byte that value is written as.
pub proof fn lemma_gaga_side_v2_codes(e: GagaSideV2, v: u8)
    ensures
        GagaSideV2::from_code(e.code()) == Some(e),
        GagaSideV2::from_code(v) matches Some(x) ==> x.code() == v,
{
}

/// The bytes the map format writes for each value of `GagaSideV2`, as the
/// format defines them: Left is 18, Right is 19.
pub proof fn lemma_gaga_side_v2_format_values()
    ensures
        GagaSideV2::Left.code() == 18u8,
        GagaSideV2::from_code(18u8) == Some(GagaSideV2::Left),
        GagaSideV2::Right.code() == 19u8,
        GagaSideV2::from_code(19u8) == Some(GagaSideV2::Right),
{
}

/// What a version 2 light event does to its group.
#[derive(Copy, Clone, Debug, PartialEq, Eq, Structural)]
pub enum LightEventValueV2 {
    Off,
    StaticSecondary,
    FlashSecondary,
    FadeSecondary,
    TransitionSecondary,
    StaticPrimary,
    FlashPrimary,
    FadePrimary,
    TransitionPrimary,
    StaticWhite,
    FlashWhite,
    FadeWhite,
    TransitionWhite,
}

impl LightEventValueV2 {
    /// The byte that stands for this value in a map file.
    pub open spec fn code(self) -> u8 {
        match self {
            LightEventValueV2::Off => 0u8,
            LightEventValueV2::StaticSecondary => 1u8,
            LightEventValueV2::FlashSecondary => 2u8,
            LightEventValueV2::FadeSecondary => 3u8,
            LightEventValueV2::TransitionSecondary => 4u8,
            LightEventValueV2::StaticPrimary => 5u8,
            LightEventValueV2::FlashPrimary => 6u8,
            LightEventValueV2::FadePrimary => 7u8,
            LightEventValueV2::TransitionPrimary => 8u8,
            LightEventValueV2::StaticWhite => 9u8,
            LightEventValueV2::FlashWhite => 10u8,
            LightEventValueV2::FadeWhite => 11u8,
            LightEventValueV2::TransitionWhite => 12u8,
        }
    }

    /// The value a byte stands for, if any.
    pub open spec fn from_code(v: u8) -> Option<Self> {
        match v {
            0u8 => Some(LightEventValueV2::Off),
            1u8 => Some(LightEventValueV2::StaticSecondary),
            2u8 => Some(LightEventValueV2::FlashSecondary),
            3u8 => Some(LightEventValueV2::FadeSecondary),
            4u8 => Some(LightEventValueV2::TransitionSecondary),
            5u8 => Some(LightEventValueV2::StaticPrimary),
            6u8 => Some(LightEventValueV2::FlashPrimary),
            7u8 => Some(LightEventValueV2::FadePrimary),
            8u8 => Some(LightEventValueV2::TransitionPrimary),
            9u8 => Some(LightEventValueV2::StaticWhite),
            10u8 => Some(LightEventValueV2::FlashWhite),
            11u8 => Some(LightEventValueV2::FadeWhite),
            12u8 => Some(LightEventValueV2::TransitionWhite),
            _ => None,
        }
    }

}

/// The byte written for a value.
impl From<LightEventValueV2> for u8 {
    fn from(value: LightEventValueV2) -> (v: u8) {
        match value {
            LightEventValueV2::Off => 0,
            LightEventValueV2::StaticSecondary => 1,
            LightEventValueV2::FlashSecondary => 2,
            LightEventValueV2::FadeSecondary => 3,
            LightEventValueV2::TransitionSecondary => 4,
            LightEventValueV2::StaticPrimary => 5,
            LightEventValueV2::FlashPrimary => 6,
            LightEventValueV2::FadePrimary => 7,
            LightEventValueV2::TransitionPrimary => 8,
            LightEventValueV2::StaticWhite => 9,
            LightEventValueV2::FlashWhite => 10,
            LightEventValueV2::FadeWhite => 11,
            LightEventValueV2::TransitionWhite => 12,
        }
    }
}

impl vstd::std_specs::convert::FromSpecImpl<LightEventValueV2> for u8 {
    open spec fn obeys_from_spec() -> bool {
        true
    }

    open spec fn from_spec(v: LightEventValueV2) -> u8 {
        v.code()
    }
}

/// Reads a byte of a map file; a byte that names no value is an error that
/// names the type and the byte.
impl TryFrom<u8> for LightEventValueV2 {
    type Error = BeatmapDataError;

    fn try_from(value: u8) -> (r: Result<LightEventValueV2, BeatmapDataError>) {
        match value {
            0 => Ok(LightEventValueV2::Off),
            1 => Ok(LightEventValueV2::StaticSecondary),
            2 => Ok(LightEventValueV2::FlashSecondary),
            3 => Ok(LightEventValueV2::FadeSecondary),
            4 => Ok(LightEventValueV2::TransitionSecondary),
            5 => Ok(LightEventValueV2::StaticPrimary),
            6 => Ok(LightEventValueV2::FlashPrimary),
            7 => Ok(LightEventValueV2::FadePrimary),
            8 => Ok(LightEventValueV2::TransitionPrimary),
            9 => Ok(LightEventValueV2::StaticWhite),
            10 => Ok(LightEventValueV2::FlashWhite),
            11 => Ok(LightEventValueV2::FadeWhite),
            12 => Ok(LightEventValueV2::TransitionWhite),
            _ => Err(BeatmapDataError::ToEnum { enum_name: "LightEventValueV2", val: value as i32 }),
        }
    }
}

impl vstd::std_specs::convert::TryFromSpecImpl<u8> for LightEventValueV2 {
    open spec fn obeys_try_from_spec() -> bool {
        true
    }

    open spec fn try_from_spec(v: u8) -> Result<LightEventValueV2, BeatmapDataError> {
        match LightEventValueV2::from_code(v) {
            Some(e) => Ok(e),
            None => Err(BeatmapDataError::ToEnum { enum_name: "LightEventValueV2", val: v as i32 }),
        }
    }
}

/// The byte written for a value reads back as that value, and a byte that
/// reads as a value is the byte that value is written as.
pub proof fn lemma_light_event_value_v2_codes(e: LightEventValueV2, v: u8)
    ensures
        LightEventValueV2::from_code(e.code()) == Some(e),
        LightEventValueV2::from_code(v) matches Some(x) ==> x.code() == v,
{
}

/// The bytes the map format writes for each value of `LightEventValueV2`, as the
/// format defines them: Off is 0, StaticSecondary is 1, FlashSecondary is 2, FadeSecondary is 3, TransitionSecondary is 4, StaticPrimary is 5, FlashPrimary is 6, FadePrimary is 7, TransitionPrimary is 8, StaticWhite is 9, FlashWhite is 10, FadeWhite is 11, TransitionWhite is 12.
pub proof fn lemma_light_event_value_v2_format_values()
    ensures
        LightEventValueV2::Off.code() == 0u8,
        LightEventValueV2::from_code(0u8) == Some(LightEventValueV2::Off),
        LightEventValueV2::StaticSecondary.code() == 1u8,
        LightEventValueV2::from_code(1u8) == Some(LightEventValueV2::StaticSecondary),
        LightEventValueV2::FlashSecondary.code() == 2u8,
        LightEventValueV2::from_code(2u8) == Some(LightEventValueV2::FlashSecondary),
        LightEventValueV2::FadeSecondary.code() == 3u8,
        LightEventValueV2::from_code(3u8) == Some(LightEventValueV2::FadeSecondary),
        LightEventValueV2::TransitionSecondary.code() == 4u8,
        LightEventValueV2::from_code(4u8) == Some(LightEventValueV2::TransitionSecondary),
        LightEventValueV2::StaticPrimary.code() == 5u8,
        LightEventValueV2::from_code(5u8) == Some(LightEventValueV2::StaticPrimary),
        LightEventValueV2::FlashPrimary.code() == 6u8,
        LightEventValueV2::from_code(6u8) == Some(LightEventValueV2::FlashPrimary),
        LightEventValueV2::FadePrimary.code() == 7u8,
        LightEventValueV2::from_code(7u8) == Some(LightEventValueV2::FadePrimary),
        LightEventValueV2::TransitionPrimary.code() == 8u8,
        LightEventValueV2::from_code(8u8) == Some(LightEventValueV2::TransitionPrimary),
        LightEventValueV2::StaticWhite.code() == 9u8,
        LightEventValueV2::from_code(9u8) == Some(LightEventValueV2::StaticWhite),
        LightEventValueV2::FlashWhite.code() == 10u8,
        LightEventValueV2::from_code(10u8) == Some(LightEventValueV2::FlashWhite),
        LightEventValueV2::FadeWhite.code() == 11u8,
        LightEventValueV2::from_code(11u8) == Some(LightEventValueV2::FadeWhite),
        LightEventValueV2::TransitionWhite.code() == 12u8,
        LightEventValueV2::from_code(12u8) == Some(LightEventValueV2::TransitionWhite),
{
}

/// How a version 3 event box picks the lights of its group.
#[derive(Copy, Clone, Debug, PartialEq, Eq, Structural)]
pub enum IndexFilterType {
    Division,
    StepAndOffset,
}

impl IndexFilterType {
    /// The byte that stands for this value in a map file.
    pub open spec fn code(self) -> u8 {
        match self {
            IndexFilterType::Division => 1u8,
            IndexFilterType::StepAndOffset => 2u8,
        }
    }

    /// The value a byte stands for, if any.
    pub open spec fn from_code(v: u8) -> Option<Self> {
        match v {
            1u8 => Some(IndexFilterType::Division),
            2u8 => Some(IndexFilterType::StepAndOffset),
            _ => None,
        }
    }

}

/// The byte written for a value.
impl From<IndexFilterType> for u8 {
    fn from(value: IndexFilterType) -> (v: u8) {
        match value {
            IndexFilterType::Division => 1,
            IndexFilterType::StepAndOffset => 2,
        }
    }
}

impl vstd::std_specs::convert::FromSpecImpl<IndexFilterType> for u8 {
    open spec fn obeys_from_spec() -> bool {
        true
    }

    open spec fn from_spec(v: IndexFilterType) -> u8 {
        v.code()
    }
}

/// Reads a byte of a map file; a byte that names no value is an error that
/// names the type and the byte.
impl TryFrom<u8> for IndexFilterType {
    type Error = BeatmapDataError;

    fn try_from(value: u8) -> (r: Result<IndexFilterType, BeatmapDataError>) {
        match value {
            1 => Ok(IndexFilterType::Division),
            2 => Ok(IndexFilterType::StepAndOffset),
            _ => Err(BeatmapDataError::ToEnum { enum_name: "IndexFilterType", val: value as i32 }),
        }
    }
}

impl vstd::std_specs::convert::TryFromSpecImpl<u8> for IndexFilterType {
    open spec fn obeys_try_from_spec() -> bool {
        true
    }

    open spec fn try_from_spec(v: u8) -> Result<IndexFilterType, BeatmapDataError> {
        match IndexFilterType::from_code(v) {
            Some(e) => Ok(e),
            None => Err(BeatmapDataError::ToEnum { enum_name: "IndexFilterType", val: v as i32 }),
        }
    }
}

/// The byte written for a value reads back as that value, and a byte that
/// reads as a value is the byte that value is written as.
pub proof fn lemma_index_filter_type_codes(e: IndexFilterType, v: u8)
    ensures
        IndexFilterType::from_code(e.code()) == Some(e),
        IndexFilterType::from_code(v) matches Some(x) ==> x.code() == v,
{
}

/// The bytes the map format writes for each value of `IndexFilterType`, as the
/// format defines them: Division is 1, StepAndOffset is 2.
pub proof fn lemma_index_filter_type_format_values()
    ensures
        IndexFilterType::Division.code() == 1u8,
        IndexFilterType::from_code(1u8) == Some(IndexFilterType::Division),
        IndexFilterType::StepAndOffset.code() == 2u8,
        IndexFilterType::from_code(2u8) == Some(IndexFilterType::StepAndOffset),
{
}

/// How a version 3 event box spreads a value over its lights.
#[derive(Copy, Clone, Debug, PartialEq, Eq, Structural)]
pub enum DistributionType {
    Wave,
    Step,
}

impl DistributionType {
    /// The byte that stands for this value in a map file.
    pub open spec fn code(self) -> u8 {
        match self {
            DistributionType::Wave => 1u8,
            DistributionType::Step => 2u8,
        }
    }

    /// The value a byte stands for, if any.
    pub open spec fn from_code(v: u8) -> Option<Self> {
        match v {
            1u8 => Some(DistributionType::Wave),
            2u8 => Some(DistributionType::Step),
            _ => None,
        }
    }

}

/// The byte written for a value.
impl From<DistributionType> for u8 {
    fn from(value: DistributionType) -> (v: u8) {
        match value {
            DistributionType::Wave => 1,
            DistributionType::Step => 2,
        }
    }
}

impl vstd::std_specs::convert::FromSpecImpl<DistributionType> for u8 {
    open spec fn obeys_from_spec() -> bool {
        true
    }

    open spec fn from_spec(v: DistributionType) -> u8 {
        v.code()
    }
}

/// Reads a byte of a map file; a byte that names no value is an error that
/// names the type and the byte.
impl TryFrom<u8> for DistributionType {
    type Error = BeatmapDataError;

    fn try_from(value: u8) -> (r: Result<DistributionType, BeatmapDataError>) {
        match value {
            1 => Ok(DistributionType::Wave),
            2 => Ok(DistributionType::Step),
            _ => Err(BeatmapDataError::ToEnum { enum_name: "DistributionType", val: value as i32 }),
        }
    }
}

impl vstd::std_specs::convert::TryFromSpecImpl<u8> for DistributionType {
    open spec fn obeys_try_from_spec() -> bool {
        true
    }

    open spec fn try_from_spec(v: u8) -> Result<DistributionType, BeatmapDataError> {
        match DistributionType::from_code(v) {
            Some(e) => Ok(e),
            None => Err(BeatmapDataError::ToEnum { enum_name: "DistributionType", val: v as i32 }),
        }
    }
}

/// The byte written for a value reads back as that value, and a byte that
/// reads as a value is the byte that value is written as.
pub proof fn lemma_distribution_type_codes(e: DistributionType, v: u8)
    ensures
        DistributionType::from_code(e.code()) == Some(e),
        DistributionType::from_code(v) matches Some(x) ==> x.code() == v,
{
}

/// The bytes the map format writes for each value of `DistributionType`, as the
/// format defines them: Wave is 1, Step is 2.
pub proof fn lemma_distribution_type_format_values()
    ensures
        DistributionType::Wave.code() == 1u8,
        DistributionType::from_code(1u8) == Some(DistributionType::Wave),
        DistributionType::Step.code() == 2u8,
        DistributionType::from_code(2u8) == Some(DistributionType::Step),
{
}

/// Axis of a version 3 rotation or translation event box.
#[derive(Copy, Clone, Debug, PartialEq, Eq, Structural)]
pub enum EventAxis {
    X,
    Y,
    Z,
}

impl EventAxis {
    /// The byte that stands for this value in a map file.
    pub open spec fn code(self) -> u8 {
        match self {
            EventAxis::X => 0u8,
            EventAxis::Y => 1u8,
            EventAxis::Z => 2u8,
        }
    }

    /// The value a byte stands for, if any.
    pub open spec fn from_code(v: u8) -> Option<Self> {
        match v {
            0u8 => Some(EventAxis::X),
            1u8 => Some(EventAxis::Y),
            2u8 => Some(EventAxis::Z),
            _ => None,
        }
    }

}

/// The byte written for a value.
impl From<EventAxis> for u8 {
    fn from(value: EventAxis) -> (v: u8) {
        match value {
            EventAxis::X => 0,
            EventAxis::Y => 1,
            EventAxis::Z => 2,
        }
    }
}

impl vstd::std_specs::convert::FromSpecImpl<EventAxis> for u8 {
    open spec fn obeys_from_spec() -> bool {
        true
    }

    open spec fn from_spec(v: EventAxis) -> u8 {
        v.code()
    }
}

/// Reads a byte of a map file; a byte that names no value is an error that
/// names the type and the byte.
impl TryFrom<u8> for EventAxis {
    type Error = BeatmapDataError;

    fn try_from(value: u8) -> (r: Result<EventAxis, BeatmapDataError>) {
        match value {
            0 => Ok(EventAxis::X),
            1 => Ok(EventAxis::Y),
            2 => Ok(EventAxis::Z),
            _ => Err(BeatmapDataError::ToEnum { enum_name: "EventAxis", val: value as i32 }),
        }
    }
}

impl vstd::std_specs::convert::TryFromSpecImpl<u8> for EventAxis {
    open spec fn obeys_try_from_spec() -> bool {
        true
    }

    open spec fn try_from_spec(v: u8) -> Result<EventAxis, BeatmapDataError> {
        match EventAxis::from_code(v) {
            Some(e) => Ok(e),
            None => Err(BeatmapDataError::ToEnum { enum_name: "EventAxis", val: v as i32 }),
        }
    }
}

/// The byte written for a value reads back as that value, and a byte that
/// reads as a value is the byte that value is written as.
pub proof fn lemma_event_axis_codes(e: EventAxis, v: u8)
    ensures
        EventAxis::from_code(e.code()) == Some(e),
        EventAxis::from_code(v) matches Some(x) ==> x.code() == v,
{
}

/// The bytes the map format writes for each value of `EventAxis`, as the
/// format defines them: X is 0, Y is 1, Z is 2.
pub proof fn lemma_event_axis_format_values()
    ensures
        EventAxis::X.code() == 0u8,
        EventAxis::from_code(0u8) == Some(EventAxis::X),
        EventAxis::Y.code() == 1u8,
        EventAxis::from_code(1u8) == Some(EventAxis::Y),
        EventAxis::Z.code() == 2u8,
        EventAxis::from_code(2u8) == Some(EventAxis::Z),
{
}

/// Whether a version 3 box event transitions from the previous value or extends it.
#[derive(Copy, Clone, Debug, PartialEq, Eq, Structural)]
pub enum TransitionType {
    Transition,
    Extend,
}

impl TransitionType {
    /// The byte that stands for this value in a map file.
    pub open spec fn code(self) -> u8 {
        match self {
            TransitionType::Transition => 0u8,
            TransitionType::Extend => 1u8,
        }
    }

    /// The value a byte stands for, if any.
    pub open spec fn from_code(v: u8) -> Option<Self> {
        match v {
            0u8 => Some(TransitionType::Transition),
            1u8 => Some(TransitionType::Extend),
            _ => None,
        }
    }

}

/// The byte written for a value.
impl From<TransitionType> for u8 {
    fn from(value: TransitionType) -> (v: u8) {
        match value {
            TransitionType::Transition => 0,
            TransitionType::Extend => 1,
        }
    }
}

impl vstd::std_specs::convert::FromSpecImpl<TransitionType> for u8 {
    open spec fn obeys_from_spec() -> bool {
        true
    }

    open spec fn from_spec(v: TransitionType) -> u8 {
        v.code()
    }
}

/// Reads a byte of a map file; a byte that names no value is an error that
/// names the type and the byte.
impl TryFrom<u8> for TransitionType {
    type Error = BeatmapDataError;

    fn try_from(value: u8) -> (r: Result<TransitionType, BeatmapDataError>) {
        match value {
            0 => Ok(TransitionType::Transition),
            1 => Ok(TransitionType::Extend),
            _ => Err(BeatmapDataError::ToEnum { enum_name: "TransitionType", val: value as i32 }),
        }
    }
}

impl vstd::std_specs::convert::TryFromSpecImpl<u8> for TransitionType {
    open spec fn obeys_try_from_spec() -> bool {
        true
    }

    open spec fn try_from_spec(v: u8) -> Result<TransitionType, BeatmapDataError> {
        match TransitionType::from_code(v) {
            Some(e) => Ok(e),
            None => Err(BeatmapDataError::ToEnum { enum_name: "TransitionType", val: v as i32 }),
        }
    }
}

/// The byte written for a value reads back as that value, and a byte that
/// reads as a value is the byte that value is written as.
pub proof fn lemma_transition_type_codes(e: TransitionType, v: u8)
    ensures
        TransitionType::from_code(e.code()) == Some(e),
        TransitionType::from_code(v) matches Some(x) ==> x.code() == v,
{
}

/// The bytes the map format writes for each value of `TransitionType`, as the
/// format defines them: Transition is 0, Extend is 1.
pub proof fn lemma_transition_type_format_values()
    ensures
        TransitionType::Transition.code() == 0u8,
        TransitionType::from_code(0u8) == Some(TransitionType::Transition),
        TransitionType::Extend.code() == 1u8,
        TransitionType::from_code(1u8) == Some(TransitionType::Extend),
{
}

/// Turning direction of a version 3 rotation event.
#[derive(Copy, Clone, Debug, PartialEq, Eq, Structural)]
pub enum RotationDirection {
    Automatic,
    Clockwise,
    CounterClockwise,
}

impl RotationDirection {
    /// The byte that stands for this value in a map file.
    pub open spec fn code(self) -> u8 {
        match self {
            RotationDirection::Automatic => 0u8,
            RotationDirection::Clockwise => 1u8,
            RotationDirection::CounterClockwise => 2u8,
        }
    }

    /// The value a byte stands for, if any.
    pub open spec fn from_code(v: u8) -> Option<Self> {
        match v {
            0u8 => Some(RotationDirection::Automatic),
            1u8 => Some(RotationDirection::Clockwise),
            2u8 => Some(RotationDirection::CounterClockwise),
            _ => None,
        }
    }

}

/// The byte written for a value.
impl From<RotationDirection> for u8 {
    fn from(value: RotationDirection) -> (v: u8) {
        match value {
            RotationDirection::Automatic => 0,
            RotationDirection::Clockwise => 1,
            RotationDirection::CounterClockwise => 2,
        }
    }
}

impl vstd::std_specs::convert::FromSpecImpl<RotationDirection> for u8 {
    open spec fn obeys_from_spec() -> bool {
        true
    }

    open spec fn from_spec(v: RotationDirection) -> u8 {
        v.code()
    }
}

/// Reads a byte of a map file; a byte that names no value is an error that
/// names the type and the byte.
impl TryFrom<u8> for RotationDirection {
    type Error = BeatmapDataError;

    fn try_from(value: u8) -> (r: Result<RotationDirection, BeatmapDataError>) {
        match value {
            0 => Ok(RotationDirection::Automatic),
            1 => Ok(RotationDirection::Clockwise),
            2 => Ok(RotationDirection::CounterClockwise),
            _ => Err(BeatmapDataError::ToEnum { enum_name: "RotationDirection", val: value as i32 }),
        }
    }
}

impl vstd::std_specs::convert::TryFromSpecImpl<u8> for RotationDirection {
    open spec fn obeys_try_from_spec() -> bool {
        true
    }

    open spec fn try_from_spec(v: u8) -> Result<RotationDirection, BeatmapDataError> {
        match RotationDirection::from_code(v) {
            Some(e) => Ok(e),
            None => Err(BeatmapDataError::ToEnum { enum_name: "RotationDirection", val: v as i32 }),
        }
    }
}

/// The byte written for a value reads back as that value, and a byte that
/// reads as a value is the byte that value is written as.
pub proof fn lemma_rotation_direction_codes(e: RotationDirection, v: u8)
    ensures
        RotationDirection::from_code(e.code()) == Some(e),
        RotationDirection::from_code(v) matches Some(x) ==> x.code() == v,
{
}

/// The bytes the map format writes for each value of `RotationDirection`, as the
/// format defines them: Automatic is 0, Clockwise is 1, CounterClockwise is 2.
pub proof fn lemma_rotation_direction_format_values()
    ensures
        RotationDirection::Automatic.code() == 0u8,
        RotationDirection::from_code(0u8) == Some(RotationDirection::Automatic),
        RotationDirection::Clockwise.code() == 1u8,
        RotationDirection::from_code(1u8) == Some(RotationDirection::Clockwise),
        RotationDirection::CounterClockwise.code() == 2u8,
        RotationDirection::from_code(2u8) == Some(RotationDirection::CounterClockwise),
{
}

/// Colour of a version 3 light colour event.
#[derive(Copy, Clone, Debug, PartialEq, Eq, Structural)]
pub enum LightEventColor {
    Primary,
    Secondary,
    White,
}

impl LightEventColor {
    /// The byte that stands for this value in a map file.
    pub open spec fn code(self) -> u8 {
        match self {
            LightEventColor::Primary => 0u8,
            LightEventColor::Secondary => 1u8,
            LightEventColor::White => 2u8,
        }
    }

    /// The value a byte stands for, if any.
    pub open spec fn from_code(v: u8) -> Option<Self> {
        match v {
            0u8 => Some(LightEventColor::Primary),
            1u8 => Some(LightEventColor::Secondary),
            2u8 => Some(LightEventColor::White),
            _ => None,
        }
    }

}

/// The byte written for a value.
impl From<LightEventColor> for u8 {
    fn from(value: LightEventColor) -> (v: u8) {
        match value {
            LightEventColor::Primary => 0,
            LightEventColor::Secondary => 1,
            LightEventColor::White => 2,
        }
    }
}

impl vstd::std_specs::convert::FromSpecImpl<LightEventColor> for u8 {
    open spec fn obeys_from_spec() -> bool {
        true
    }

    open spec fn from_spec(v: LightEventColor) -> u8 {
        v.code()
    }
}

/// Reads a byte of a map file; a byte that names no value is an error that
/// names the type and the byte.
impl TryFrom<u8> for LightEventColor {
    type Error = BeatmapDataError;

    fn try_from(value: u8) -> (r: Result<LightEventColor, BeatmapDataError>) {
        match value {
            0 => Ok(LightEventColor::Primary),
            1 => Ok(LightEventColor::Secondary),
            2 => Ok(LightEventColor::White),
            _ => Err(BeatmapDataError::ToEnum { enum_name: "LightEventColor", val: value as i32 }),
        }
    }
}

impl vstd::std_specs::convert::TryFromSpecImpl<u8> for LightEventColor {
    open spec fn obeys_try_from_spec() -> bool {
        true
    }

    open spec fn try_from_spec(v: u8) -> Result<LightEventColor, BeatmapDataError> {
        match LightEventColor::from_code(v) {
            Some(e) => Ok(e),
            None => Err(BeatmapDataError::ToEnum { enum_name: "LightEventColor", val: v as i32 }),
        }
    }
}

/// The byte written for a value reads back as that value, and a byte that
/// reads as a value is the byte that value is written as.
pub proof fn lemma_light_event_color_codes(e: LightEventColor, v: u8)
    ensures
        LightEventColor::from_code(e.code()) == Some(e),
        LightEventColor::from_code(v) matches Some(x) ==> x.code() == v,
{
}

/// The bytes the map format writes for each value of `LightEventColor`, as the
/// format defines them: Primary is 0, Secondary is 1, White is 2.
pub proof fn lemma_light_event_color_format_values()
    ensures
        LightEventColor::Primary.code() == 0u8,
        LightEventColor::from_code(0u8) == Some(LightEventColor::Primary),
        LightEventColor::Secondary.code() == 1u8,
        LightEventColor::from_code(1u8) == Some(LightEventColor::Secondary),
        LightEventColor::White.code() == 2u8,
        LightEventColor::from_code(2u8) == Some(LightEventColor::White),
{
}

/// Randomisation flags of a version 3 index filter.
#[derive(Copy, Clone, Debug, PartialEq, Eq, Structural)]
pub struct RandomizationBehavior {
    pub bits: u8,
}

/// Limit flags of a version 3 index filter.
#[derive(Copy, Clone, Debug, PartialEq, Eq, Structural)]
pub struct LimitBehavior {
    pub bits: u8,
}

/// The flag bits either flag set knows: the first two.
pub const KNOWN_FLAG_BITS: u8 = 3;

impl RandomizationBehavior {
    pub const KEEP_ORDER: u8 = 1;
    pub const RANDOM_ELEMENTS: u8 = 2;

    /// Reads a flag byte, dropping unknown bits.
    pub fn from_bits_truncate(value: u8) -> (r: Self)
        ensures
            r.bits == value & KNOWN_FLAG_BITS,
    {
        RandomizationBehavior { bits: value & KNOWN_FLAG_BITS }
    }

    pub fn bits(&self) -> (b: u8)
        ensures
            b == self.bits,
    {
        self.bits
    }

    pub fn empty() -> (r: Self)
        ensures
            r.bits == 0,
    {
        RandomizationBehavior { bits: 0 }
    }

    pub fn is_empty(&self) -> (r: bool)
        ensures
            r == (self.bits == 0),
    {
        self.bits == 0
    }
}

impl Default for RandomizationBehavior {
    fn default() -> (r: Self)
        ensures
            r.bits == 0,
    {
        RandomizationBehavior::empty()
    }
}

impl LimitBehavior {
    pub const DURATION: u8 = 1;
    pub const DISTRIBUTION: u8 = 2;

    /// Reads a flag byte, dropping unknown bits.
    pub fn from_bits_truncate(value: u8) -> (r: Self)
        ensures
            r.bits == value & KNOWN_FLAG_BITS,
    {
        LimitBehavior { bits: value & KNOWN_FLAG_BITS }
    }

    pub fn bits(&self) -> (b: u8)
        ensures
            b == self.bits,
    {
        self.bits
    }

    pub fn empty() -> (r: Self)
        ensures
            r.bits == 0,
    {
        LimitBehavior { bits: 0 }
    }

    pub fn is_empty(&self) -> (r: bool)
        ensures
            r == (self.bits == 0),
    {
        self.bits == 0
    }
}

impl Default for LimitBehavior {
    fn default() -> (r: Self)
        ensures
            r.bits == 0,
    {
        LimitBehavior::empty()
    }
}

/// Reading a flag byte keeps exactly the known bits, and reading the byte of a
/// read flag set gives the same set.
pub proof fn lemma_flag_bits_truncate(value: u8)
    ensures
        (value & KNOWN_FLAG_BITS) & KNOWN_FLAG_BITS == value & KNOWN_FLAG_BITS,
        value & KNOWN_FLAG_BITS <= KNOWN_FLAG_BITS,
        value <= KNOWN_FLAG_BITS ==> value & KNOWN_FLAG_BITS == value,
{
    assert((value & 3u8) & 3u8 == value & 3u8) by (bit_vector);
    assert(value & 3u8 <= 3u8) by (bit_vector);
    assert(value <= 3u8 ==> value & 3u8 == value) by (bit_vector);
}

} // verus!
