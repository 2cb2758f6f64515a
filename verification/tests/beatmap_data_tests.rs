use beatcraft_editor::beatmap_data::{
    BeatmapDataError, DistributionType, EventAxis, GagaSideV2, HydraulicsTypeV2, IndexFilterType,
    LightEventColor, LightEventTypeV2, LightEventValueV2, LimitBehavior, RandomizationBehavior,
    RingLightEventTypeV2, RotationDirection, SpinningLaserSideV2, TransitionType,
};
use beatcraft_editor::player_settings::{
    MainEffectGraphicsSettings, MaxShockwaveParticles, MirrorGraphicsSettings, SmokeGraphicsSettings,
};

fn rejected(r: Result<impl std::fmt::Debug, BeatmapDataError>, name: &str, value: u8) {
    match r {
        Err(BeatmapDataError::ToEnum { enum_name, val }) => {
            assert_eq!(enum_name, name);
            assert_eq!(val, value as i32);
        }
        Ok(v) => panic!("{value} read as {v:?}"),
    }
}

#[test]
fn light_event_type_codes() {
    assert_eq!(LightEventTypeV2::try_from(0u8).ok(), Some(LightEventTypeV2::BackLasers));
    assert_eq!(LightEventTypeV2::try_from(4u8).ok(), Some(LightEventTypeV2::CenterLasers));
    assert_eq!(LightEventTypeV2::try_from(11u8).ok(), Some(LightEventTypeV2::BillieRight));
    assert_eq!(u8::from(LightEventTypeV2::RightExtra), 7);
    rejected(LightEventTypeV2::try_from(5u8), "LightEventTypeV2", 5);
    rejected(LightEventTypeV2::try_from(12u8), "LightEventTypeV2", 12);
}

#[test]
fn light_event_value_codes() {
    for v in 0..=12u8 {
        let e = LightEventValueV2::try_from(v).ok().unwrap();
        assert_eq!(u8::from(e), v);
    }
    rejected(LightEventValueV2::try_from(13u8), "LightEventValueV2", 13);
}

#[test]
fn side_and_motion_codes() {
    assert_eq!(RingLightEventTypeV2::try_from(8u8).ok(), Some(RingLightEventTypeV2::Spin));
    assert_eq!(u8::from(RingLightEventTypeV2::Zoom), 9);
    assert_eq!(SpinningLaserSideV2::try_from(13u8).ok(), Some(SpinningLaserSideV2::Right));
    assert_eq!(u8::from(HydraulicsTypeV2::Raise), 17);
    assert_eq!(GagaSideV2::try_from(18u8).ok(), Some(GagaSideV2::Left));
    rejected(GagaSideV2::try_from(20u8), "GagaSideV2", 20);
    rejected(RingLightEventTypeV2::try_from(0u8), "RingLightEventTypeV2", 0);
}

#[test]
fn v3_box_codes() {
    assert_eq!(IndexFilterType::try_from(1u8).ok(), Some(IndexFilterType::Division));
    rejected(IndexFilterType::try_from(0u8), "IndexFilterType", 0);
    assert_eq!(u8::from(DistributionType::Step), 2);
    assert_eq!(EventAxis::try_from(2u8).ok(), Some(EventAxis::Z));
    rejected(EventAxis::try_from(3u8), "EventAxis", 3);
    assert_eq!(u8::from(TransitionType::Extend), 1);
    assert_eq!(RotationDirection::try_from(2u8).ok(), Some(RotationDirection::CounterClockwise));
    assert_eq!(u8::from(LightEventColor::White), 2);
    rejected(LightEventColor::try_from(3u8), "LightEventColor", 3);
}

#[test]
fn flag_sets_drop_unknown_bits() {
    assert_eq!(RandomizationBehavior::from_bits_truncate(0xff).bits(), 3);
    assert_eq!(RandomizationBehavior::from_bits_truncate(2).bits(), RandomizationBehavior::RANDOM_ELEMENTS);
    assert!(RandomizationBehavior::default().is_empty());
    assert_eq!(LimitBehavior::from_bits_truncate(5).bits(), 1);
    assert!(LimitBehavior::empty().is_empty());
    assert!(!LimitBehavior::from_bits_truncate(LimitBehavior::DISTRIBUTION).is_empty());
}

#[test]
fn graphics_setting_codes() {
    assert_eq!(MirrorGraphicsSettings::try_from(3u8).ok(), Some(MirrorGraphicsSettings::High));
    rejected(MirrorGraphicsSettings::try_from(4u8), "MirrorGraphicsSettings", 4);
    assert_eq!(u8::from(MainEffectGraphicsSettings::On), 1);
    rejected(SmokeGraphicsSettings::try_from(2u8), "SmokeGraphicsSettings", 2);
    assert_eq!(MaxShockwaveParticles::try_from(2u8).ok(), Some(MaxShockwaveParticles::High));
}
