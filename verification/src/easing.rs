//! Easing curves of light and vfx events: their stored codes and display names.
//! The curves themselves are evaluated in floating point outside this library.
use vstd::prelude::*;
use crate::beatmap_data::BeatmapDataError;

verus! {

/// An easing curve, stored as a small signed code.
#[allow(non_camel_case_types)]
#[derive(Debug, Copy, Clone, PartialEq, Eq, Structural, Hash)]
pub enum Easing {
    easeStep,
    easeLinear,
    easeInQuad,
    easeOutQuad,
    easeInOutQuad,
    easeInSine,
    easeOutSine,
    easeInOutSine,
    easeInCubic,
    easeOutCubic,
    easeInOutCubic,
    easeInQuart,
    easeOutQuart,
    easeinOutQuart,
    easeInQuint,
    easeOutQuint,
    easeInOutQuint,
    easeInExpo,
    easeOutExpo,
    easeInOutExpo,
    easeInCirc,
    easeOutCirc,
    easeinOutCirc,
    easeInBack,
    easeOutBack,
    easeInOutBack,
    easeInElastic,
    easeOutElastic,
    easeInOutElastic,
    easeInBounce,
    easeOutBounce,
    easeInOutBounce,
    easeBeatSaberInOutBack,
    easeBeatSaberInOutElastic,
    easeBeatSaberInOutBounce,
}

impl Default for Easing {
    fn default() -> (e: Self)
        ensures
            e == Easing::easeStep,
    {
        Easing::easeStep
    }
}

/// The stored code of each curve.
pub open spec fn easing_code(e: Easing) -> i8 {
    match e {
        Easing::easeStep => -1i8,
        Easing::easeLinear => 0i8,
        Easing::easeInQuad => 1i8,
        Easing::easeOutQuad => 2i8,
        Easing::easeInOutQuad => 3i8,
        Easing::easeInSine => 4i8,
        Easing::easeOutSine => 5i8,
        Easing::easeInOutSine => 6i8,
        Easing::easeInCubic => 7i8,
        Easing::easeOutCubic => 8i8,
        Easing::easeInOutCubic => 9i8,
        Easing::easeInQuart => 10i8,
        Easing::easeOutQuart => 11i8,
        Easing::easeinOutQuart => 12i8,
        Easing::easeInQuint => 13i8,
        Easing::easeOutQuint => 14i8,
        Easing::easeInOutQuint => 15i8,
        Easing::easeInExpo => 16i8,
        Easing::easeOutExpo => 17i8,
        Easing::easeInOutExpo => 18i8,
        Easing::easeInCirc => 19i8,
        Easing::easeOutCirc => 20i8,
        Easing::easeinOutCirc => 21i8,
        Easing::easeInBack => 22i8,
        Easing::easeOutBack => 23i8,
        Easing::easeInOutBack => 24i8,
        Easing::easeInElastic => 25i8,
        Easing::easeOutElastic => 26i8,
        Easing::easeInOutElastic => 27i8,
        Easing::easeInBounce => 28i8,
        Easing::easeOutBounce => 29i8,
        Easing::easeInOutBounce => 30i8,
        Easing::easeBeatSaberInOutBack => 100i8,
        Easing::easeBeatSaberInOutElastic => 101i8,
        Easing::easeBeatSaberInOutBounce => 102i8,
    }
}

/// The curve a stored code names, if any.
pub open spec fn easing_from_code(v: i8) -> Option<Easing> {
    match v {
        -1i8 => Some(Easing::easeStep),
        0i8 => Some(Easing::easeLinear),
        1i8 => Some(Easing::easeInQuad),
        2i8 => Some(Easing::easeOutQuad),
        3i8 => Some(Easing::easeInOutQuad),
        4i8 => Some(Easing::easeInSine),
        5i8 => Some(Easing::easeOutSine),
        6i8 => Some(Easing::easeInOutSine),
        7i8 => Some(Easing::easeInCubic),
        8i8 => Some(Easing::easeOutCubic),
        9i8 => Some(Easing::easeInOutCubic),
        10i8 => Some(Easing::easeInQuart),
        11i8 => Some(Easing::easeOutQuart),
        12i8 => Some(Easing::easeinOutQuart),
        13i8 => Some(Easing::easeInQuint),
        14i8 => Some(Easing::easeOutQuint),
        15i8 => Some(Easing::easeInOutQuint),
        16i8 => Some(Easing::easeInExpo),
        17i8 => Some(Easing::easeOutExpo),
        18i8 => Some(Easing::easeInOutExpo),
        19i8 => Some(Easing::easeInCirc),
        20i8 => Some(Easing::easeOutCirc),
        21i8 => Some(Easing::easeinOutCirc),
        22i8 => Some(Easing::easeInBack),
        23i8 => Some(Easing::easeOutBack),
        24i8 => Some(Easing::easeInOutBack),
        25i8 => Some(Easing::easeInElastic),
        26i8 => Some(Easing::easeOutElastic),
        27i8 => Some(Easing::easeInOutElastic),
        28i8 => Some(Easing::easeInBounce),
        29i8 => Some(Easing::easeOutBounce),
        30i8 => Some(Easing::easeInOutBounce),
        100i8 => Some(Easing::easeBeatSaberInOutBack),
        101i8 => Some(Easing::easeBeatSaberInOutElastic),
        102i8 => Some(Easing::easeBeatSaberInOutBounce),
        _ => None,
    }
}

/// The codes that name a curve: -1 to 30 and 100 to 102.
pub open spec fn is_easing_code(v: i8) -> bool {
    (-1 <= v && v <= 30) || (100 <= v && v <= 102)
}

impl Easing {
    /// Linear easing is the default written nowhere in a map file.
    pub fn is_default(&self) -> (r: bool)
        ensures
            r == (*self == Easing::easeLinear),
    {
        matches!(self, Easing::easeLinear)
    }

    /// The name shown in curve pickers, padded to a common width.
    pub fn display_name(&self) -> (s: &'static str)
        ensures
            s@ == easing_display_name(*self),
    {
        match self {
            Easing::easeStep => { proof { reveal_strlit("Step           "); } "Step           " },
            Easing::easeLinear => { proof { reveal_strlit("Linear         "); } "Linear         " },
            Easing::easeInQuad => { proof { reveal_strlit("Quad       (I) "); } "Quad       (I) " },
            Easing::easeOutQuad => { proof { reveal_strlit("Quad        (O)"); } "Quad        (O)" },
            Easing::easeInOutQuad => { proof { reveal_strlit("Quad       (IO)"); } "Quad       (IO)" },
            Easing::easeInSine => { proof { reveal_strlit("Sine       (I) "); } "Sine       (I) " },
            Easing::easeOutSine => { proof { reveal_strlit("Sine        (O)"); } "Sine        (O)" },
            Easing::easeInOutSine => { proof { reveal_strlit("Sine       (IO)"); } "Sine       (IO)" },
            Easing::easeInCubic => { proof { reveal_strlit("Cubic      (I) "); } "Cubic      (I) " },
            Easing::easeOutCubic => { proof { reveal_strlit("Cubic       (O)"); } "Cubic       (O)" },
            Easing::easeInOutCubic => { proof { reveal_strlit("Cubid      (IO)"); } "Cubid      (IO)" },
            Easing::easeInQuart => { proof { reveal_strlit("Quart      (I) "); } "Quart      (I) " },
            Easing::easeOutQuart => { proof { reveal_strlit("Quart       (O)"); } "Quart       (O)" },
            Easing::easeinOutQuart => { proof { reveal_strlit("Quart      (IO)"); } "Quart      (IO)" },
            Easing::easeInQuint => { proof { reveal_strlit("Quint      (I) "); } "Quint      (I) " },
            Easing::easeOutQuint => { proof { reveal_strlit("Quint       (O)"); } "Quint       (O)" },
            Easing::easeInOutQuint => { proof { reveal_strlit("Quint      (IO)"); } "Quint      (IO)" },
            Easing::easeInExpo => { proof { reveal_strlit("Expo       (I) "); } "Expo       (I) " },
            Easing::easeOutExpo => { proof { reveal_strlit("Expo        (O)"); } "Expo        (O)" },
            Easing::easeInOutExpo => { proof { reveal_strlit("Expo       (IO)"); } "Expo       (IO)" },
            Easing::easeInCirc => { proof { reveal_strlit("Circ       (I) "); } "Circ       (I) " },
            Easing::easeOutCirc => { proof { reveal_strlit("Circ        (O)"); } "Circ        (O)" },
            Easing::easeinOutCirc => { proof { reveal_strlit("Circ       (IO)"); } "Circ       (IO)" },
            Easing::easeInBack => { proof { reveal_strlit("Back       (I) "); } "Back       (I) " },
            Easing::easeOutBack => { proof { reveal_strlit("Back        (O)"); } "Back        (O)" },
            Easing::easeInOutBack => { proof { reveal_strlit("Back       (IO)"); } "Back       (IO)" },
            Easing::easeInElastic => { proof { reveal_strlit("Elastic    (I) "); } "Elastic    (I) " },
            Easing::easeOutElastic => { proof { reveal_strlit("Elastic     (O)"); } "Elastic     (O)" },
            Easing::easeInOutElastic => { proof { reveal_strlit("Elastic    (IO)"); } "Elastic    (IO)" },
            Easing::easeInBounce => { proof { reveal_strlit("Bounce     (I) "); } "Bounce     (I) " },
            Easing::easeOutBounce => { proof { reveal_strlit("Bounce      (O)"); } "Bounce      (O)" },
            Easing::easeInOutBounce => { proof { reveal_strlit("Bounce     (IO)"); } "Bounce     (IO)" },
            Easing::easeBeatSaberInOutBack => { proof { reveal_strlit("BS Back    (IO)"); } "BS Back    (IO)" },
            Easing::easeBeatSaberInOutElastic => { proof { reveal_strlit("BS Elastic (IO)"); } "BS Elastic (IO)" },
            Easing::easeBeatSaberInOutBounce => { proof { reveal_strlit("BS Bounce  (IO)"); } "BS Bounce  (IO)" },
        }
    }

    /// Every curve with its display name, in code order.
    pub fn iter_all() -> (all: Vec<(&'static str, Easing)>)
        ensures
            all@.len() == ALL_EASINGS,
            forall|i: int| 0 <= i < all@.len() ==> #[trigger] all@[i].0@ == easing_display_name(all@[i].1),
            forall|i: int| 0 <= i < all@.len() ==> #[trigger] all@[i].1 == easing_in_order(i),
    {
        let mut all: Vec<(&'static str, Easing)> = Vec::new();
        all.push((Easing::easeStep.display_name(), Easing::easeStep));
        all.push((Easing::easeLinear.display_name(), Easing::easeLinear));
        all.push((Easing::easeInQuad.display_name(), Easing::easeInQuad));
        all.push((Easing::easeOutQuad.display_name(), Easing::easeOutQuad));
        all.push((Easing::easeInOutQuad.display_name(), Easing::easeInOutQuad));
        all.push((Easing::easeInSine.display_name(), Easing::easeInSine));
        all.push((Easing::easeOutSine.display_name(), Easing::easeOutSine));
        all.push((Easing::easeInOutSine.display_name(), Easing::easeInOutSine));
        all.push((Easing::easeInCubic.display_name(), Easing::easeInCubic));
        all.push((Easing::easeOutCubic.display_name(), Easing::easeOutCubic));
        all.push((Easing::easeInOutCubic.display_name(), Easing::easeInOutCubic));
        all.push((Easing::easeInQuart.display_name(), Easing::easeInQuart));
        all.push((Easing::easeOutQuart.display_name(), Easing::easeOutQuart));
        all.push((Easing::easeinOutQuart.display_name(), Easing::easeinOutQuart));
        all.push((Easing::easeInQuint.display_name(), Easing::easeInQuint));
        all.push((Easing::easeOutQuint.display_name(), Easing::easeOutQuint));
        all.push((Easing::easeInOutQuint.display_name(), Easing::easeInOutQuint));
        all.push((Easing::easeInExpo.display_name(), Easing::easeInExpo));
        all.push((Easing::easeOutExpo.display_name(), Easing::easeOutExpo));
        all.push((Easing::easeInOutExpo.display_name(), Easing::easeInOutExpo));
        all.push((Easing::easeInCirc.display_name(), Easing::easeInCirc));
        all.push((Easing::easeOutCirc.display_name(), Easing::easeOutCirc));
        all.push((Easing::easeinOutCirc.display_name(), Easing::easeinOutCirc));
        all.push((Easing::easeInBack.display_name(), Easing::easeInBack));
        all.push((Easing::easeOutBack.display_name(), Easing::easeOutBack));
        all.push((Easing::easeInOutBack.display_name(), Easing::easeInOutBack));
        all.push((Easing::easeInElastic.display_name(), Easing::easeInElastic));
        all.push((Easing::easeOutElastic.display_name(), Easing::easeOutElastic));
        all.push((Easing::easeInOutElastic.display_name(), Easing::easeInOutElastic));
        all.push((Easing::easeInBounce.display_name(), Easing::easeInBounce));
        all.push((Easing::easeOutBounce.display_name(), Easing::easeOutBounce));
        all.push((Easing::easeInOutBounce.display_name(), Easing::easeInOutBounce));
        all.push((Easing::easeBeatSaberInOutBack.display_name(), Easing::easeBeatSaberInOutBack));
        all.push((Easing::easeBeatSaberInOutElastic.display_name(), Easing::easeBeatSaberInOutElastic));
        all.push((Easing::easeBeatSaberInOutBounce.display_name(), Easing::easeBeatSaberInOutBounce));
        proof {
            assert(all@.len() == ALL_EASINGS);
            assert(all@[0].1 == Easing::easeStep);
            assert(all@[1].1 == Easing::easeLinear);
            assert(all@[2].1 == Easing::easeInQuad);
            assert(all@[3].1 == Easing::easeOutQuad);
            assert(all@[4].1 == Easing::easeInOutQuad);
            assert(all@[5].1 == Easing::easeInSine);
            assert(all@[6].1 == Easing::easeOutSine);
            assert(all@[7].1 == Easing::easeInOutSine);
            assert(all@[8].1 == Easing::easeInCubic);
            assert(all@[9].1 == Easing::easeOutCubic);
            assert(all@[10].1 == Easing::easeInOutCubic);
            assert(all@[11].1 == Easing::easeInQuart);
            assert(all@[12].1 == Easing::easeOutQuart);
            assert(all@[13].1 == Easing::easeinOutQuart);
            assert(all@[14].1 == Easing::easeInQuint);
            assert(all@[15].1 == Easing::easeOutQuint);
            assert(all@[16].1 == Easing::easeInOutQuint);
            assert(all@[17].1 == Easing::easeInExpo);
            assert(all@[18].1 == Easing::easeOutExpo);
            assert(all@[19].1 == Easing::easeInOutExpo);
            assert(all@[20].1 == Easing::easeInCirc);
            assert(all@[21].1 == Easing::easeOutCirc);
            assert(all@[22].1 == Easing::easeinOutCirc);
            assert(all@[23].1 == Easing::easeInBack);
            assert(all@[24].1 == Easing::easeOutBack);
            assert(all@[25].1 == Easing::easeInOutBack);
            assert(all@[26].1 == Easing::easeInElastic);
            assert(all@[27].1 == Easing::easeOutElastic);
            assert(all@[28].1 == Easing::easeInOutElastic);
            assert(all@[29].1 == Easing::easeInBounce);
            assert(all@[30].1 == Easing::easeOutBounce);
            assert(all@[31].1 == Easing::easeInOutBounce);
            assert(all@[32].1 == Easing::easeBeatSaberInOutBack);
            assert(all@[33].1 == Easing::easeBeatSaberInOutElastic);
            assert(all@[34].1 == Easing::easeBeatSaberInOutBounce);
        }
        all
    }
}

/// The stored code of a curve.
impl From<Easing> for i8 {
    fn from(value: Easing) -> (v: i8)
    {
        match value {
            Easing::easeStep => -1,
            Easing::easeLinear => 0,
            Easing::easeInQuad => 1,
            Easing::easeOutQuad => 2,
            Easing::easeInOutQuad => 3,
            Easing::easeInSine => 4,
            Easing::easeOutSine => 5,
            Easing::easeInOutSine => 6,
            Easing::easeInCubic => 7,
            Easing::easeOutCubic => 8,
            Easing::easeInOutCubic => 9,
            Easing::easeInQuart => 10,
            Easing::easeOutQuart => 11,
            Easing::easeinOutQuart => 12,
            Easing::easeInQuint => 13,
            Easing::easeOutQuint => 14,
            Easing::easeInOutQuint => 15,
            Easing::easeInExpo => 16,
            Easing::easeOutExpo => 17,
            Easing::easeInOutExpo => 18,
            Easing::easeInCirc => 19,
            Easing::easeOutCirc => 20,
            Easing::easeinOutCirc => 21,
            Easing::easeInBack => 22,
            Easing::easeOutBack => 23,
            Easing::easeInOutBack => 24,
            Easing::easeInElastic => 25,
            Easing::easeOutElastic => 26,
            Easing::easeInOutElastic => 27,
            Easing::easeInBounce => 28,
            Easing::easeOutBounce => 29,
            Easing::easeInOutBounce => 30,
            Easing::easeBeatSaberInOutBack => 100,
            Easing::easeBeatSaberInOutElastic => 101,
            Easing::easeBeatSaberInOutBounce => 102,
        }
    }
}

impl vstd::std_specs::convert::FromSpecImpl<Easing> for i8 {
    open spec fn obeys_from_spec() -> bool {
        true
    }

    open spec fn from_spec(v: Easing) -> i8 {
        easing_code(v)
    }
}

/// Reads a stored code: the curve it names, or an error naming the code.
impl TryFrom<i8> for Easing {
    type Error = BeatmapDataError;

    fn try_from(value: i8) -> (r: Result<Easing, BeatmapDataError>)
    {
        match value {
            -1 => Ok(Easing::easeStep),
            0 => Ok(Easing::easeLinear),
            1 => Ok(Easing::easeInQuad),
            2 => Ok(Easing::easeOutQuad),
            3 => Ok(Easing::easeInOutQuad),
            4 => Ok(Easing::easeInSine),
            5 => Ok(Easing::easeOutSine),
            6 => Ok(Easing::easeInOutSine),
            7 => Ok(Easing::easeInCubic),
            8 => Ok(Easing::easeOutCubic),
            9 => Ok(Easing::easeInOutCubic),
            10 => Ok(Easing::easeInQuart),
            11 => Ok(Easing::easeOutQuart),
            12 => Ok(Easing::easeinOutQuart),
            13 => Ok(Easing::easeInQuint),
            14 => Ok(Easing::easeOutQuint),
            15 => Ok(Easing::easeInOutQuint),
            16 => Ok(Easing::easeInExpo),
            17 => Ok(Easing::easeOutExpo),
            18 => Ok(Easing::easeInOutExpo),
            19 => Ok(Easing::easeInCirc),
            20 => Ok(Easing::easeOutCirc),
            21 => Ok(Easing::easeinOutCirc),
            22 => Ok(Easing::easeInBack),
            23 => Ok(Easing::easeOutBack),
            24 => Ok(Easing::easeInOutBack),
            25 => Ok(Easing::easeInElastic),
            26 => Ok(Easing::easeOutElastic),
            27 => Ok(Easing::easeInOutElastic),
            28 => Ok(Easing::easeInBounce),
            29 => Ok(Easing::easeOutBounce),
            30 => Ok(Easing::easeInOutBounce),
            100 => Ok(Easing::easeBeatSaberInOutBack),
            101 => Ok(Easing::easeBeatSaberInOutElastic),
            102 => Ok(Easing::easeBeatSaberInOutBounce),
            _ => Err(BeatmapDataError::ToEnum { enum_name: "Easing", val: value as i32 }),
        }
    }
}

impl vstd::std_specs::convert::TryFromSpecImpl<i8> for Easing {
    open spec fn obeys_try_from_spec() -> bool {
        true
    }

    open spec fn try_from_spec(v: i8) -> Result<Easing, BeatmapDataError> {
        match easing_from_code(v) {
            Some(e) => Ok(e),
            None => Err(BeatmapDataError::ToEnum { enum_name: "Easing", val: v as i32 }),
        }
    }
}

/// Number of easing curves.
pub const ALL_EASINGS: usize = 35;

pub open spec fn easing_display_name(e: Easing) -> Seq<char> {
    match e {
        Easing::easeStep => "Step           "@,
        Easing::easeLinear => "Linear         "@,
        Easing::easeInQuad => "Quad       (I) "@,
        Easing::easeOutQuad => "Quad        (O)"@,
        Easing::easeInOutQuad => "Quad       (IO)"@,
        Easing::easeInSine => "Sine       (I) "@,
        Easing::easeOutSine => "Sine        (O)"@,
        Easing::easeInOutSine => "Sine       (IO)"@,
        Easing::easeInCubic => "Cubic      (I) "@,
        Easing::easeOutCubic => "Cubic       (O)"@,
        Easing::easeInOutCubic => "Cubid      (IO)"@,
        Easing::easeInQuart => "Quart      (I) "@,
        Easing::easeOutQuart => "Quart       (O)"@,
        Easing::easeinOutQuart => "Quart      (IO)"@,
        Easing::easeInQuint => "Quint      (I) "@,
        Easing::easeOutQuint => "Quint       (O)"@,
        Easing::easeInOutQuint => "Quint      (IO)"@,
        Easing::easeInExpo => "Expo       (I) "@,
        Easing::easeOutExpo => "Expo        (O)"@,
        Easing::easeInOutExpo => "Expo       (IO)"@,
        Easing::easeInCirc => "Circ       (I) "@,
        Easing::easeOutCirc => "Circ        (O)"@,
        Easing::easeinOutCirc => "Circ       (IO)"@,
        Easing::easeInBack => "Back       (I) "@,
        Easing::easeOutBack => "Back        (O)"@,
        Easing::easeInOutBack => "Back       (IO)"@,
        Easing::easeInElastic => "Elastic    (I) "@,
        Easing::easeOutElastic => "Elastic     (O)"@,
        Easing::easeInOutElastic => "Elastic    (IO)"@,
        Easing::easeInBounce => "Bounce     (I) "@,
        Easing::easeOutBounce => "Bounce      (O)"@,
        Easing::easeInOutBounce => "Bounce     (IO)"@,
        Easing::easeBeatSaberInOutBack => "BS Back    (IO)"@,
        Easing::easeBeatSaberInOutElastic => "BS Elastic (IO)"@,
        Easing::easeBeatSaberInOutBounce => "BS Bounce  (IO)"@,
    }
}

/// The curves in code order.
pub open spec fn easing_in_order(i: int) -> Easing {
    if i == 0 { Easing::easeStep }
    else if i == 1 { Easing::easeLinear }
    else if i == 2 { Easing::easeInQuad }
    else if i == 3 { Easing::easeOutQuad }
    else if i == 4 { Easing::easeInOutQuad }
    else if i == 5 { Easing::easeInSine }
    else if i == 6 { Easing::easeOutSine }
    else if i == 7 { Easing::easeInOutSine }
    else if i == 8 { Easing::easeInCubic }
    else if i == 9 { Easing::easeOutCubic }
    else if i == 10 { Easing::easeInOutCubic }
    else if i == 11 { Easing::easeInQuart }
    else if i == 12 { Easing::easeOutQuart }
    else if i == 13 { Easing::easeinOutQuart }
    else if i == 14 { Easing::easeInQuint }
    else if i == 15 { Easing::easeOutQuint }
    else if i == 16 { Easing::easeInOutQuint }
    else if i == 17 { Easing::easeInExpo }
    else if i == 18 { Easing::easeOutExpo }
    else if i == 19 { Easing::easeInOutExpo }
    else if i == 20 { Easing::easeInCirc }
    else if i == 21 { Easing::easeOutCirc }
    else if i == 22 { Easing::easeinOutCirc }
    else if i == 23 { Easing::easeInBack }
    else if i == 24 { Easing::easeOutBack }
    else if i == 25 { Easing::easeInOutBack }
    else if i == 26 { Easing::easeInElastic }
    else if i == 27 { Easing::easeOutElastic }
    else if i == 28 { Easing::easeInOutElastic }
    else if i == 29 { Easing::easeInBounce }
    else if i == 30 { Easing::easeOutBounce }
    else if i == 31 { Easing::easeInOutBounce }
    else if i == 32 { Easing::easeBeatSaberInOutBack }
    else if i == 33 { Easing::easeBeatSaberInOutElastic }
    else { Easing::easeBeatSaberInOutBounce }
}

/// Every curve is listed in code order, at a position below [`ALL_EASINGS`].
pub proof fn lemma_every_easing_listed(e: Easing)
    ensures
        exists|i: int| 0 <= i < ALL_EASINGS && #[trigger] easing_in_order(i) == e,
{
    match e {
        Easing::easeStep => assert(easing_in_order(0) == e),
        Easing::easeLinear => assert(easing_in_order(1) == e),
        Easing::easeInQuad => assert(easing_in_order(2) == e),
        Easing::easeOutQuad => assert(easing_in_order(3) == e),
        Easing::easeInOutQuad => assert(easing_in_order(4) == e),
        Easing::easeInSine => assert(easing_in_order(5) == e),
        Easing::easeOutSine => assert(easing_in_order(6) == e),
        Easing::easeInOutSine => assert(easing_in_order(7) == e),
        Easing::easeInCubic => assert(easing_in_order(8) == e),
        Easing::easeOutCubic => assert(easing_in_order(9) == e),
        Easing::easeInOutCubic => assert(easing_in_order(10) == e),
        Easing::easeInQuart => assert(easing_in_order(11) == e),
        Easing::easeOutQuart => assert(easing_in_order(12) == e),
        Easing::easeinOutQuart => assert(easing_in_order(13) == e),
        Easing::easeInQuint => assert(easing_in_order(14) == e),
        Easing::easeOutQuint => assert(easing_in_order(15) == e),
        Easing::easeInOutQuint => assert(easing_in_order(16) == e),
        Easing::easeInExpo => assert(easing_in_order(17) == e),
        Easing::easeOutExpo => assert(easing_in_order(18) == e),
        Easing::easeInOutExpo => assert(easing_in_order(19) == e),
        Easing::easeInCirc => assert(easing_in_order(20) == e),
        Easing::easeOutCirc => assert(easing_in_order(21) == e),
        Easing::easeinOutCirc => assert(easing_in_order(22) == e),
        Easing::easeInBack => assert(easing_in_order(23) == e),
        Easing::easeOutBack => assert(easing_in_order(24) == e),
        Easing::easeInOutBack => assert(easing_in_order(25) == e),
        Easing::easeInElastic => assert(easing_in_order(26) == e),
        Easing::easeOutElastic => assert(easing_in_order(27) == e),
        Easing::easeInOutElastic => assert(easing_in_order(28) == e),
        Easing::easeInBounce => assert(easing_in_order(29) == e),
        Easing::easeOutBounce => assert(easing_in_order(30) == e),
        Easing::easeInOutBounce => assert(easing_in_order(31) == e),
        Easing::easeBeatSaberInOutBack => assert(easing_in_order(32) == e),
        Easing::easeBeatSaberInOutElastic => assert(easing_in_order(33) == e),
        Easing::easeBeatSaberInOutBounce => assert(easing_in_order(34) == e),
    }
}

/// The code written for a curve reads back as that curve; exactly the codes
/// -1 to 30 and 100 to 102 name a curve, and a code that names a curve is the
/// code that curve is written as.
pub proof fn lemma_easing_codes(e: Easing, v: i8)
    ensures
        easing_from_code(easing_code(e)) == Some(e),
        easing_from_code(v) is Some <==> is_easing_code(v),
        easing_from_code(v) matches Some(x) ==> easing_code(x) == v,
{
}

/// The codes the map format writes for each curve, as the format defines
/// them: step is -1, linear 0, the in/out curves 1 to 30 in the order quad,
/// sine, cubic, quart, quint, expo, circ, back, elastic, bounce, and the Beat
/// Saber variants of the in-out back, elastic and bounce curves 100 to 102.
pub proof fn lemma_easing_format_values()
    ensures
        easing_code(Easing::easeStep) == -1i8,
        easing_from_code(-1i8) == Some(Easing::easeStep),
        easing_code(Easing::easeLinear) == 0i8,
        easing_from_code(0i8) == Some(Easing::easeLinear),
        easing_code(Easing::easeInQuad) == 1i8,
        easing_from_code(1i8) == Some(Easing::easeInQuad),
        easing_code(Easing::easeOutQuad) == 2i8,
        easing_from_code(2i8) == Some(Easing::easeOutQuad),
        easing_code(Easing::easeInOutQuad) == 3i8,
        easing_from_code(3i8) == Some(Easing::easeInOutQuad),
        easing_code(Easing::easeInSine) == 4i8,
        easing_from_code(4i8) == Some(Easing::easeInSine),
        easing_code(Easing::easeOutSine) == 5i8,
        easing_from_code(5i8) == Some(Easing::easeOutSine),
        easing_code(Easing::easeInOutSine) == 6i8,
        easing_from_code(6i8) == Some(Easing::easeInOutSine),
        easing_code(Easing::easeInCubic) == 7i8,
        easing_from_code(7i8) == Some(Easing::easeInCubic),
        easing_code(Easing::easeOutCubic) == 8i8,
        easing_from_code(8i8) == Some(Easing::easeOutCubic),
        easing_code(Easing::easeInOutCubic) == 9i8,
        easing_from_code(9i8) == Some(Easing::easeInOutCubic),
        easing_code(Easing::easeInQuart) == 10i8,
        easing_from_code(10i8) == Some(Easing::easeInQuart),
        easing_code(Easing::easeOutQuart) == 11i8,
        easing_from_code(11i8) == Some(Easing::easeOutQuart),
        easing_code(Easing::easeinOutQuart) == 12i8,
        easing_from_code(12i8) == Some(Easing::easeinOutQuart),
        easing_code(Easing::easeInQuint) == 13i8,
        easing_from_code(13i8) == Some(Easing::easeInQuint),
        easing_code(Easing::easeOutQuint) == 14i8,
        easing_from_code(14i8) == Some(Easing::easeOutQuint),
        easing_code(Easing::easeInOutQuint) == 15i8,
        easing_from_code(15i8) == Some(Easing::easeInOutQuint),
        easing_code(Easing::easeInExpo) == 16i8,
        easing_from_code(16i8) == Some(Easing::easeInExpo),
        easing_code(Easing::easeOutExpo) == 17i8,
        easing_from_code(17i8) == Some(Easing::easeOutExpo),
        easing_code(Easing::easeInOutExpo) == 18i8,
        easing_from_code(18i8) == Some(Easing::easeInOutExpo),
        easing_code(Easing::easeInCirc) == 19i8,
        easing_from_code(19i8) == Some(Easing::easeInCirc),
        easing_code(Easing::easeOutCirc) == 20i8,
        easing_from_code(20i8) == Some(Easing::easeOutCirc),
        easing_code(Easing::easeinOutCirc) == 21i8,
        easing_from_code(21i8) == Some(Easing::easeinOutCirc),
        easing_code(Easing::easeInBack) == 22i8,
        easing_from_code(22i8) == Some(Easing::easeInBack),
        easing_code(Easing::easeOutBack) == 23i8,
        easing_from_code(23i8) == Some(Easing::easeOutBack),
        easing_code(Easing::easeInOutBack) == 24i8,
        easing_from_code(24i8) == Some(Easing::easeInOutBack),
        easing_code(Easing::easeInElastic) == 25i8,
        easing_from_code(25i8) == Some(Easing::easeInElastic),
        easing_code(Easing::easeOutElastic) == 26i8,
        easing_from_code(26i8) == Some(Easing::easeOutElastic),
        easing_code(Easing::easeInOutElastic) == 27i8,
        easing_from_code(27i8) == Some(Easing::easeInOutElastic),
        easing_code(Easing::easeInBounce) == 28i8,
        easing_from_code(28i8) == Some(Easing::easeInBounce),
        easing_code(Easing::easeOutBounce) == 29i8,
        easing_from_code(29i8) == Some(Easing::easeOutBounce),
        easing_code(Easing::easeInOutBounce) == 30i8,
        easing_from_code(30i8) == Some(Easing::easeInOutBounce),
        easing_code(Easing::easeBeatSaberInOutBack) == 100i8,
        easing_from_code(100i8) == Some(Easing::easeBeatSaberInOutBack),
        easing_code(Easing::easeBeatSaberInOutElastic) == 101i8,
        easing_from_code(101i8) == Some(Easing::easeBeatSaberInOutElastic),
        easing_code(Easing::easeBeatSaberInOutBounce) == 102i8,
        easing_from_code(102i8) == Some(Easing::easeBeatSaberInOutBounce),
{
}

/// The name shown for each curve, as the editor lists it.
pub proof fn lemma_easing_display_names()
    ensures
        easing_display_name(Easing::easeStep) == "Step           "@,
        easing_display_name(Easing::easeLinear) == "Linear         "@,
        easing_display_name(Easing::easeInQuad) == "Quad       (I) "@,
        easing_display_name(Easing::easeOutQuad) == "Quad        (O)"@,
        easing_display_name(Easing::easeInOutQuad) == "Quad       (IO)"@,
        easing_display_name(Easing::easeInSine) == "Sine       (I) "@,
        easing_display_name(Easing::easeOutSine) == "Sine        (O)"@,
        easing_display_name(Easing::easeInOutSine) == "Sine       (IO)"@,
        easing_display_name(Easing::easeInCubic) == "Cubic      (I) "@,
        easing_display_name(Easing::easeOutCubic) == "Cubic       (O)"@,
        easing_display_name(Easing::easeInOutCubic) == "Cubid      (IO)"@,
        easing_display_name(Easing::easeInQuart) == "Quart      (I) "@,
        easing_display_name(Easing::easeOutQuart) == "Quart       (O)"@,
        easing_display_name(Easing::easeinOutQuart) == "Quart      (IO)"@,
        easing_display_name(Easing::easeInQuint) == "Quint      (I) "@,
        easing_display_name(Easing::easeOutQuint) == "Quint       (O)"@,
        easing_display_name(Easing::easeInOutQuint) == "Quint      (IO)"@,
        easing_display_name(Easing::easeInExpo) == "Expo       (I) "@,
        easing_display_name(Easing::easeOutExpo) == "Expo        (O)"@,
        easing_display_name(Easing::easeInOutExpo) == "Expo       (IO)"@,
        easing_display_name(Easing::easeInCirc) == "Circ       (I) "@,
        easing_display_name(Easing::easeOutCirc) == "Circ        (O)"@,
        easing_display_name(Easing::easeinOutCirc) == "Circ       (IO)"@,
        easing_display_name(Easing::easeInBack) == "Back       (I) "@,
        easing_display_name(Easing::easeOutBack) == "Back        (O)"@,
        easing_display_name(Easing::easeInOutBack) == "Back       (IO)"@,
        easing_display_name(Easing::easeInElastic) == "Elastic    (I) "@,
        easing_display_name(Easing::easeOutElastic) == "Elastic     (O)"@,
        easing_display_name(Easing::easeInOutElastic) == "Elastic    (IO)"@,
        easing_display_name(Easing::easeInBounce) == "Bounce     (I) "@,
        easing_display_name(Easing::easeOutBounce) == "Bounce      (O)"@,
        easing_display_name(Easing::easeInOutBounce) == "Bounce     (IO)"@,
        easing_display_name(Easing::easeBeatSaberInOutBack) == "BS Back    (IO)"@,
        easing_display_name(Easing::easeBeatSaberInOutElastic) == "BS Elastic (IO)"@,
        easing_display_name(Easing::easeBeatSaberInOutBounce) == "BS Bounce  (IO)"@,
{
}

} // verus!
