use beatcraft_editor::info::{
    AudioInfo, ColorSchemeV4, DifficultyBeatmap, Info, InfoExportError, InfoV4, InfoVersion, MapAuthors,
    MapAuthorsV4, SongInfo,
};
use beatcraft_editor::light_mesh::BloomfogStyle;
use beatcraft_editor::projects::{
    ProjectKind, ProjectType, RawRecentProject, RawRecentProjects, RecentProject, RecentProjects,
};
use beatcraft_editor::song_core::{RequirementModName, SuggestionModName};

fn beatmap(env: &str, file: Option<&str>, light: Option<&str>, scheme: Option<u32>) -> DifficultyBeatmap {
    DifficultyBeatmap {
        characteristic: "Standard".to_string(),
        difficulty: "Expert".to_string(),
        authors: MapAuthors { mappers: vec!["me".to_string()], lighters: vec![] },
        enviornment: env.to_string(),
        color_scheme: scheme,
        njs: 1,
        jump_offset: 2,
        filename: file.map(String::from),
        lightshow_filename: light.map(String::from),
    }
}

fn info(beatmaps: Vec<DifficultyBeatmap>) -> Info {
    Info {
        song: Some(SongInfo { title: "T".into(), subtitle: "S".into(), author: "A".into() }),
        audio: Some(AudioInfo {
            filename: "song.ogg".into(),
            duration: 10,
            data_filename: Some("audio.dat".into()),
            bpm: 120,
            lufs: 0,
            preview_start: 0,
            preview_duration: 5,
        }),
        preview_filename: None,
        cover_filename: Some("cover.png".into()),
        color_schemes: vec![ColorSchemeV4 {
            use_override: true,
            color_scheme_name: "c".into(),
            saber_a_color: "FF0000FF".into(),
            saber_b_color: "0000FFFF".into(),
            obstacles_color: "FFFFFFFF".into(),
            environment_color_0: "0".into(),
            environment_color_1: "0".into(),
            environment_color_0_boost: "0".into(),
            environment_color_1_boost: "0".into(),
        }],
        beatmaps,
    }
}

fn missing(r: Result<InfoV4, InfoExportError>) -> String {
    match r {
        Err(InfoExportError::MissingComponent(s)) => s,
        Ok(_) => panic!("export succeeded"),
    }
}

#[test]
fn export_dedupes_environments() {
    let v = InfoV4::try_from_info(info(vec![
        beatmap("Origins", Some("a.dat"), Some("la.dat"), Some(0)),
        beatmap("Weave", Some("b.dat"), Some("lb.dat"), None),
        beatmap("Origins", Some("c.dat"), Some("lc.dat"), Some(3)),
    ]))
    .unwrap();
    assert_eq!(v.version, InfoVersion::V4_0_1);
    assert_eq!(v.environment_names, vec!["Origins".to_string(), "Weave".to_string()]);
    let idx: Vec<u32> = v.difficulty_beatmaps.iter().map(|d| d.environment_name_idx).collect();
    assert_eq!(idx, vec![0, 1, 0]);
    let schemes: Vec<i32> = v.difficulty_beatmaps.iter().map(|d| d.beatmap_color_scheme_idx).collect();
    assert_eq!(schemes, vec![0, -1, 3]);
    assert_eq!(v.song_preview_filename, "song.ogg");
    assert_eq!(v.cover_image_filename, "cover.png");
    assert_eq!(v.audio.audio_data_filename, "audio.dat");
    assert_eq!(v.song.sub_title, "S");
    assert_eq!(v.color_schemes.len(), 1);
    assert_eq!(v.difficulty_beatmaps[2].beatmap_data_filename, "c.dat");
    assert_eq!(v.difficulty_beatmaps[0].beatmap_authors.mappers, vec!["me".to_string()]);
}

#[test]
fn export_uses_preview_when_given() {
    let mut i = info(vec![]);
    i.preview_filename = Some("preview.ogg".into());
    let v = InfoV4::try_from_info(i).unwrap();
    assert_eq!(v.song_preview_filename, "preview.ogg");
    assert!(v.environment_names.is_empty());
}

#[test]
fn export_errors_in_order() {
    let mut i = info(vec![]);
    i.song = None;
    i.audio = None;
    assert_eq!(missing(InfoV4::try_from_info(i)), "Song Info");
    let mut i = info(vec![]);
    i.audio = None;
    assert_eq!(missing(InfoV4::try_from_info(i)), "Audio Info");
    let mut i = info(vec![]);
    i.audio.as_mut().unwrap().data_filename = None;
    i.cover_filename = None;
    assert_eq!(missing(InfoV4::try_from_info(i)), "Audio Data File");
    let mut i = info(vec![]);
    i.cover_filename = None;
    assert_eq!(missing(InfoV4::try_from_info(i)), "Cover Image");
    let i = info(vec![beatmap("E", Some("a"), Some("b"), None), beatmap("E", None, None, None)]);
    assert_eq!(missing(InfoV4::try_from_info(i)), "Beatmap File Name (Standard, Expert)");
    let i = info(vec![beatmap("E", Some("a"), None, None)]);
    assert_eq!(missing(InfoV4::try_from_info(i)), "Lightshow File Name (Standard, Expert)");
}

#[test]
fn map_authors_convert() {
    let a: MapAuthorsV4 = MapAuthors { mappers: vec!["x".into()], lighters: vec!["y".into()] }.into();
    assert_eq!(a.mappers, vec!["x".to_string()]);
    assert_eq!(a.lighters, vec!["y".to_string()]);
}

#[test]
fn project_kinds_and_names() {
    assert_eq!(ProjectType::Beatmap { img: None }.kind(), ProjectKind::Beatmap);
    assert_eq!(ProjectType::SaberMesh.kind(), ProjectKind::SaberMesh);
    assert_eq!(ProjectKind::EnvironmentMesh.to_string(), "Environment Mesh");
    assert_eq!(ProjectKind::NoteMesh.to_string(), "Note Mesh");
    assert_eq!(ProjectKind::Lightshow.to_string(), "Lightshow");
}

#[test]
fn recent_projects_roundtrip() {
    let raw = RawRecentProjects(vec![
        RawRecentProject { modified: 100, path: "/a".into(), kind: ProjectKind::Beatmap },
        RawRecentProject { modified: 200, path: "/b".into(), kind: ProjectKind::NoteMesh },
    ]);
    let list = RecentProjects::from_raw(raw, vec![Some("cover.jpg".into()), Some("ignored".into())]);
    assert_eq!(list.0[0].kind, ProjectType::Beatmap { img: Some("cover.jpg".into()) });
    assert_eq!(list.0[1].kind, ProjectType::NoteMesh);
    let back = list.to_raw();
    assert_eq!(back.0[0].kind, ProjectKind::Beatmap);
    assert_eq!(back.0[1].modified, 200);
    assert_eq!(back.0[1].path, "/b");
    let one = RecentProject::from_raw(RawRecentProject { modified: 5, path: "/c".into(), kind: ProjectKind::Lightshow }, None);
    assert_eq!(one.to_raw().kind, ProjectKind::Lightshow);
}

#[test]
fn mark_modified_updates_or_adds() {
    let mut list = RecentProjects(vec![
        RecentProject { modified: 1, path: "/a".into(), kind: ProjectType::SaberMesh },
        RecentProject { modified: 2, path: "/b".into(), kind: ProjectType::NoteMesh },
    ]);
    list.mark_modified_matching(&vec![false, true], "/b".into(), ProjectKind::NoteMesh, None, 50);
    assert_eq!(list.0.len(), 2);
    assert_eq!(list.0[1].modified, 50);
    assert_eq!(list.0[0].modified, 1);
    list.mark_modified_matching(&vec![true, false], "/a".into(), ProjectKind::Beatmap, Some("c.png".into()), 60);
    assert_eq!(list.0.len(), 3);
    assert_eq!(list.0[2].modified, 60);
    assert_eq!(list.0[2].kind, ProjectType::Beatmap { img: Some("c.png".into()) });
}

#[test]
fn mark_project_modified_by_path() {
    let mut list = RecentProjects(vec![RecentProject { modified: 1, path: "/a/x".into(), kind: ProjectType::SaberMesh }]);
    list.mark_project_modified(&"/a/x".to_string(), ProjectKind::SaberMesh, None, 50);
    assert_eq!(list.0.len(), 1);
    assert_eq!(list.0[0].modified, 50);
    list.mark_project_modified(&"/a/y".to_string(), ProjectKind::SaberMesh, None, 60);
    assert_eq!(list.0.len(), 2);
    assert_eq!(list.0[1].path, "/a/y");
    assert_eq!(list.0[1].modified, 60);
    list.mark_project_modified(&"/a/y".to_string(), ProjectKind::SaberMesh, None, 70);
    assert_eq!(list.0.len(), 2);
    assert_eq!(list.0[1].modified, 70);
    assert_eq!(list.0[0].modified, 50);
}

#[test]
fn mod_display_names() {
    assert_eq!(SuggestionModName::Chroma.display_name(), "Chroma");
    assert_eq!(SuggestionModName::Custom("Foo".into()).display_name(), "Foo");
    assert_eq!(RequirementModName::Noodle.display_name(), "Noodle Extensions");
    assert_eq!(RequirementModName::MappingExtensions.display_name(), "Mapping Extensions");
    assert_eq!(RequirementModName::Vivify.display_name(), "Vivify");
    assert_eq!(RequirementModName::Custom("Bar".into()).display_name(), "Bar");
}

#[test]
fn bloomfog_style_bytes() {
    assert_eq!(BloomfogStyle::default(), BloomfogStyle::BloomOnly);
    assert_eq!(BloomfogStyle::Everything.label(), "Everything");
    assert_eq!(BloomfogStyle::BloomOnly.label(), "Bloom Only");
    assert_eq!(BloomfogStyle::from(1u8), BloomfogStyle::Everything);
    assert_eq!(BloomfogStyle::from(200u8), BloomfogStyle::Nothing);
    assert_eq!(u8::from(BloomfogStyle::Nothing), 2);
    for s in [BloomfogStyle::BloomOnly, BloomfogStyle::Everything, BloomfogStyle::Nothing] {
        assert_eq!(BloomfogStyle::from(u8::from(s)), s);
    }
}

#[test]
fn mark_project_modified_plain_names() {
    let mut list = RecentProjects(vec![
        RecentProject { modified: 1, path: "alpha".into(), kind: ProjectType::NoteMesh },
        RecentProject { modified: 2, path: "beta".into(), kind: ProjectType::NoteMesh },
    ]);
    list.mark_project_modified(&"beta".to_string(), ProjectKind::NoteMesh, None, 9);
    assert_eq!(list.0.len(), 2);
    assert_eq!(list.0[0].modified, 1);
    assert_eq!(list.0[1].modified, 9);
    list.mark_project_modified(&"gamma".to_string(), ProjectKind::NoteMesh, None, 10);
    assert_eq!(list.0.len(), 3);
    assert_eq!(list.0[2].path, "gamma");
}
