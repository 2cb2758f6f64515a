//! A map's info in the editor's own form, and its export to the version 4
//! info file. Numbers the editor keeps as `f32` are carried as their bit
//! patterns; colour schemes arrive already in the version 4 form.
use vstd::prelude::*;
use crate::dedupe::{
    distinct_prefix, first_index, lemma_distinct_prefix_contains, lemma_distinct_prefix_no_duplicates,
    lemma_first_index_bound, lemma_first_index_of_search, lemma_first_index_prefix, string_views,
};

verus! {

#[derive(Debug)]
pub struct SongInfo {
    pub title: String,
    pub subtitle: String,
    pub author: String,
}

#[derive(Debug)]
pub struct AudioInfo {
    pub filename: String,
    pub duration: u32,
    pub data_filename: Option<String>,
    pub bpm: u32,
    pub lufs: u32,
    pub preview_start: u32,
    pub preview_duration: u32,
}

/// The authors a version 4 difficulty credits.
#[derive(Debug)]
pub struct V4BeatmapProjectDiffData {
    pub mappers: Vec<String>,
    pub lighters: Vec<String>,
}

#[derive(Debug)]
pub struct MapAuthors {
    pub mappers: Vec<String>,
    pub lighters: Vec<String>,
}

/// One difficulty of the map. `characteristic` and `difficulty` are the names
/// the characteristic and the difficulty are shown by.
#[derive(Debug)]
pub struct DifficultyBeatmap {
    pub characteristic: String,
    pub difficulty: String,
    pub authors: MapAuthors,
    pub enviornment: String,
    pub color_scheme: Option<u32>,
    pub njs: u32,
    pub jump_offset: u32,
    pub filename: Option<String>,
    pub lightshow_filename: Option<String>,
}

/// General info that can become a version 4 info file.
#[derive(Debug)]
pub struct Info {
    pub song: Option<SongInfo>,
    pub audio: Option<AudioInfo>,
    pub preview_filename: Option<String>,
    pub cover_filename: Option<String>,
    pub color_schemes: Vec<ColorSchemeV4>,
    pub beatmaps: Vec<DifficultyBeatmap>,
}

/// Why the info cannot be exported.
#[derive(Debug)]
pub enum InfoExportError {
    /// A part the export needs is missing; the text names it.
    MissingComponent(String),
}

/// The version written into an info file.
#[derive(Copy, Clone, Debug, PartialEq, Eq, Structural)]
pub enum InfoVersion {
    V4_0_1,
}

#[derive(Debug)]
pub struct SongInfoV4 {
    pub title: String,
    pub sub_title: String,
    pub author: String,
}

#[derive(Debug)]
pub struct AudioInfoV4 {
    pub song_filename: String,
    pub song_duration: u32,
    pub audio_data_filename: String,
    pub bpm: u32,
    pub lufs: u32,
    pub preview_start_time: u32,
    pub preview_duration: u32,
}

/// A colour scheme; colours are written as hexadecimal RGBA.
#[derive(Debug)]
pub struct ColorSchemeV4 {
    pub use_override: bool,
    pub color_scheme_name: String,
    pub saber_a_color: String,
    pub saber_b_color: String,
    pub obstacles_color: String,
    pub environment_color_0: String,
    pub environment_color_1: String,
    pub environment_color_0_boost: String,
    pub environment_color_1_boost: String,
}

#[derive(Debug)]
pub struct MapAuthorsV4 {
    pub mappers: Vec<String>,
    pub lighters: Vec<String>,
}

#[derive(Debug)]
pub struct DifficultyBeatmapV4 {
    pub characteristic: String,
    pub difficulty: String,
    pub beatmap_authors: MapAuthorsV4,
    pub environment_name_idx: u32,
    pub beatmap_color_scheme_idx: i32,
    pub note_jump_movement_speed: u32,
    pub note_jump_start_beat_offset: u32,
    pub beatmap_data_filename: String,
    pub lightshow_data_filename: String,
}

/// A version 4 info file.
#[derive(Debug)]
pub struct InfoV4 {
    pub version: InfoVersion,
    pub song: SongInfoV4,
    pub audio: AudioInfoV4,
    pub song_preview_filename: String,
    pub cover_image_filename: String,
    pub environment_names: Vec<String>,
    pub color_schemes: Vec<ColorSchemeV4>,
    pub difficulty_beatmaps: Vec<DifficultyBeatmapV4>,
}

impl From<MapAuthors> for MapAuthorsV4 {
    fn from(value: MapAuthors) -> (r: Self) {
        MapAuthorsV4 { mappers: value.mappers, lighters: value.lighters }
    }
}

impl vstd::std_specs::convert::FromSpecImpl<MapAuthors> for MapAuthorsV4 {
    open spec fn obeys_from_spec() -> bool {
        true
    }

    open spec fn from_spec(v: MapAuthors) -> MapAuthorsV4 {
        MapAuthorsV4 { mappers: v.mappers, lighters: v.lighters }
    }
}

/// How a difficulty is named in an error: `(characteristic, difficulty)`.
pub open spec fn beatmap_label(d: DifficultyBeatmap) -> Seq<char> {
    "("@ + d.characteristic@ + ", "@ + d.difficulty@ + ")"@
}

/// What a difficulty lacks for export, if anything: its beatmap file name,
/// else its lightshow file name.
pub open spec fn beatmap_missing(d: DifficultyBeatmap) -> Option<Seq<char>> {
    if d.filename is None {
        Some("Beatmap File Name "@ + beatmap_label(d))
    } else if d.lightshow_filename is None {
        Some("Lightshow File Name "@ + beatmap_label(d))
    } else {
        None
    }
}

/// What the first difficulty that lacks something lacks.
pub open spec fn first_missing_beatmap(ds: Seq<DifficultyBeatmap>) -> Option<Seq<char>>
    decreases ds.len(),
{
    if ds.len() == 0 {
        None
    } else {
        match beatmap_missing(ds[0]) {
            Some(m) => Some(m),
            None => first_missing_beatmap(ds.drop_first()),
        }
    }
}

/// What the export misses first, checked in this order: the song, the audio,
/// the audio's data file, the cover image, then each difficulty's files.
pub open spec fn missing_component(info: Info) -> Option<Seq<char>> {
    match info.song {
        None => Some("Song Info"@),
        Some(_) => match info.audio {
            None => Some("Audio Info"@),
            Some(a) => if a.data_filename is None {
                Some("Audio Data File"@)
            } else if info.cover_filename is None {
                Some("Cover Image"@)
            } else {
                first_missing_beatmap(info.beatmaps@)
            },
        },
    }
}

/// The environment names of the difficulties, as written.
pub open spec fn environment_views(ds: Seq<DifficultyBeatmap>) -> Seq<Seq<char>> {
    ds.map_values(|d: DifficultyBeatmap| d.enviornment@)
}

/// Difficulty `e` as exported from `d`, given the exported environment list `envs`.
pub open spec fn exported_beatmap(e: DifficultyBeatmapV4, d: DifficultyBeatmap, envs: Seq<Seq<char>>) -> bool {
    &&& e.characteristic == d.characteristic
    &&& e.difficulty == d.difficulty
    &&& e.beatmap_authors.mappers@ == d.authors.mappers@
    &&& e.beatmap_authors.lighters@ == d.authors.lighters@
    &&& e.environment_name_idx == first_index(envs, d.enviornment@) as u32
    &&& e.beatmap_color_scheme_idx == match d.color_scheme {
        Some(u) => u as i32,
        None => -1i32,
    }
    &&& e.note_jump_movement_speed == d.njs
    &&& e.note_jump_start_beat_offset == d.jump_offset
    &&& Some(e.beatmap_data_filename) == d.filename
    &&& Some(e.lightshow_data_filename) == d.lightshow_filename
}

/// `r` is the version 4 info exported from `info`, which lacks nothing.
pub open spec fn exported_info(r: InfoV4, info: Info) -> bool {
    let song = info.song.unwrap();
    let audio = info.audio.unwrap();
    let envs = distinct_prefix(environment_views(info.beatmaps@));
    &&& r.version == InfoVersion::V4_0_1
    &&& r.song == (SongInfoV4 { title: song.title, sub_title: song.subtitle, author: song.author })
    &&& r.audio.song_filename == audio.filename
    &&& r.audio.song_duration == audio.duration
    &&& Some(r.audio.audio_data_filename) == audio.data_filename
    &&& r.audio.bpm == audio.bpm
    &&& r.audio.lufs == audio.lufs
    &&& r.audio.preview_start_time == audio.preview_start
    &&& r.audio.preview_duration == audio.preview_duration
    &&& r.song_preview_filename == match info.preview_filename {
        Some(p) => p,
        None => audio.filename,
    }
    &&& Some(r.cover_image_filename) == info.cover_filename
    &&& string_views(r.environment_names@) == envs
    &&& r.color_schemes@ == info.color_schemes@
    &&& r.difficulty_beatmaps@.len() == info.beatmaps@.len()
    &&& forall|i: int| 0 <= i < info.beatmaps@.len() ==> exported_beatmap(
        #[trigger] r.difficulty_beatmaps@[i],
        info.beatmaps@[i],
        envs,
    )
}

fn clone_strings(v: &Vec<String>) -> (r: Vec<String>)
    ensures
        r@ == v@,
{
    let mut r: Vec<String> = Vec::new();
    for i in 0..v.len()
        invariant
            r@ == v@.take(i as int),
    {
        r.push(v[i].clone());
        assert(r@ =~= v@.take(i + 1));
    }
    assert(v@.take(v@.len() as int) =~= v@);
    r
}

fn label_message(prefix: &str, d: &DifficultyBeatmap) -> (m: String)
    ensures
        m@ == prefix@ + beatmap_label(*d),
{
    let mut m = prefix.to_owned();
    m.append("(");
    m.append(d.characteristic.as_str());
    m.append(", ");
    m.append(d.difficulty.as_str());
    m.append(")");
    assert(m@ =~= prefix@ + beatmap_label(*d));
    m
}

fn missing(what: &str) -> (r: Result<InfoV4, InfoExportError>)
    ensures
        r matches Err(InfoExportError::MissingComponent(m)) && m@ == what@,
{
    Err(InfoExportError::MissingComponent(what.to_owned()))
}

/// The position of `env` among the distinct environment names so far, adding
/// it at the end when it is new.
fn environment_index(names: &mut Vec<String>, env: &String, Ghost(all): Ghost<Seq<Seq<char>>>, i: usize) -> (idx: usize)
    requires
        i < all.len(),
        all[i as int] == env@,
        string_views(old(names)@) == distinct_prefix(all.take(i as int)),
    ensures
        string_views(final(names)@) == distinct_prefix(all.take(i + 1)),
        idx == first_index(distinct_prefix(all.take(i + 1)), env@),
        idx < final(names)@.len(),
        forall|y: Seq<char>| #![trigger first_index(distinct_prefix(all.take(i as int)), y)]
            distinct_prefix(all.take(i as int)).contains(y) ==> first_index(distinct_prefix(all.take(i + 1)), y)
                == first_index(distinct_prefix(all.take(i as int)), y),
{
    let ghost d = distinct_prefix(all.take(i as int));
    proof {
        assert(all.take(i + 1).drop_last() =~= all.take(i as int));
        assert(all.take(i + 1).last() == env@);
    }
    let n = names.len();
    let mut q: usize = 0;
    while q < n
        invariant
            n == names@.len(),
            string_views(names@) == d,
            d == distinct_prefix(all.take(i as int)),
            i < all.len(),
            all[i as int] == env@,
            q <= n,
            forall|p: int| 0 <= p < q ==> names@[p]@ != env@,
        decreases n - q,
    {
        if names[q] == *env {
            proof {
                assert(d[q as int] == env@);
                assert(d.contains(env@));
                assert(all.take(i + 1).drop_last() =~= all.take(i as int));
                assert(all.take(i + 1).last() == env@);
                assert(distinct_prefix(all.take(i + 1)) == d);
                assert forall|p: int| 0 <= p < q implies d[p] != env@ by {
                    assert(d[p] == names@[p]@);
                }
                lemma_first_index_of_search(d, env@, q as int);
            }
            return q;
        }
        q = q + 1;
    }
    proof {
        assert(!d.contains(env@)) by {
            if d.contains(env@) {
                let p = choose|p: int| 0 <= p < d.len() && d[p] == env@;
                assert(names@[p]@ == env@);
            }
        }
    }
    names.push(env.clone());
    proof {
        let e = d.push(env@);
        assert(string_views(names@) =~= e);
        assert forall|p: int| 0 <= p < n implies e[p] != env@ by {
            assert(e[p] == d[p]);
        }
        lemma_first_index_of_search(e, env@, n as int);
        assert forall|y: Seq<char>| #![trigger first_index(d, y)] d.contains(y) implies first_index(e, y) == first_index(d, y) by {
            assert(e.take(n as int) =~= d);
            lemma_first_index_prefix(e, y, n as int);
        }
    }
    n
}

impl InfoV4 {
    /// Exports the info as a version 4 info file. Fails on the first missing
    /// part, in the order [`missing_component`] checks them. Difficulties
    /// refer to their environment by its position in the list of distinct
    /// environment names, in order of first use; a difficulty without a colour
    /// scheme gets index -1. The preview file defaults to the song file.
    pub fn try_from_info(value: Info) -> (r: Result<InfoV4, InfoExportError>)
        ensures
            match missing_component(value) {
                Some(m) => r matches Err(InfoExportError::MissingComponent(s)) && s@ == m,
                None => r matches Ok(v) && exported_info(v, value),
            },
            r matches Ok(v) ==> {
                let song = value.song.unwrap();
                let audio = value.audio.unwrap();
                &&& v.song.title == song.title
                &&& v.song.sub_title == song.subtitle
                &&& v.song.author == song.author
                &&& v.audio.song_filename == audio.filename
                &&& v.audio.song_duration == audio.duration
                &&& value.audio.unwrap().data_filename == Some(v.audio.audio_data_filename)
                &&& v.audio.bpm == audio.bpm
                &&& v.audio.lufs == audio.lufs
                &&& v.audio.preview_start_time == audio.preview_start
                &&& v.audio.preview_duration == audio.preview_duration
                &&& value.cover_filename == Some(v.cover_image_filename)
                &&& v.song_preview_filename == match value.preview_filename {
                    Some(p) => p,
                    None => audio.filename,
                }
                &&& v.version == InfoVersion::V4_0_1
                &&& v.color_schemes@ == value.color_schemes@
                &&& v.difficulty_beatmaps@.len() == value.beatmaps@.len()
                &&& forall|i: int| 0 <= i < value.beatmaps@.len() ==> {
                    let e = #[trigger] v.difficulty_beatmaps@[i];
                    let d = value.beatmaps@[i];
                    &&& e.characteristic == d.characteristic
                    &&& e.difficulty == d.difficulty
                    &&& e.beatmap_authors.mappers@ == d.authors.mappers@
                    &&& e.beatmap_authors.lighters@ == d.authors.lighters@
                    &&& e.note_jump_movement_speed == d.njs
                    &&& e.note_jump_start_beat_offset == d.jump_offset
                    &&& d.filename == Some(e.beatmap_data_filename)
                    &&& d.lightshow_filename == Some(e.lightshow_data_filename)
                    &&& (d.color_scheme is None ==> e.beatmap_color_scheme_idx == -1)
                    &&& (d.color_scheme matches Some(c) ==> (c <= i32::MAX ==> e.beatmap_color_scheme_idx == c))
                    &&& (v.environment_names@.len() <= u32::MAX ==> {
                        &&& (e.environment_name_idx as int) < v.environment_names@.len()
                        &&& v.environment_names@[e.environment_name_idx as int]@ == d.enviornment@
                    })
                }
            },
    {
        let ghost info = value;
        let Info { song, audio, preview_filename, cover_filename, color_schemes, beatmaps } = value;
        let song = match song {
            Some(s) => s,
            None => {
                proof {
                    reveal_strlit("Song Info");
                }
                return missing("Song Info");
            },
        };
        let audio = match audio {
            Some(a) => a,
            None => {
                proof {
                    reveal_strlit("Audio Info");
                }
                return missing("Audio Info");
            },
        };
        let AudioInfo { filename, duration, data_filename, bpm, lufs, preview_start, preview_duration } = audio;
        let audio_data_filename = match data_filename {
            Some(f) => f,
            None => {
                proof {
                    reveal_strlit("Audio Data File");
                }
                return missing("Audio Data File");
            },
        };
        let song_preview_filename = match preview_filename {
            Some(p) => p,
            None => filename.clone(),
        };
        let cover_image_filename = match cover_filename {
            Some(c) => c,
            None => {
                proof {
                    reveal_strlit("Cover Image");
                }
                return missing("Cover Image");
            },
        };
        let ghost ds = beatmaps@;
        let ghost all_envs = environment_views(ds);
        let mut environment_names: Vec<String> = Vec::new();
        let mut difficulty_beatmaps: Vec<DifficultyBeatmapV4> = Vec::new();
        let n = beatmaps.len();
        proof {
            assert(ds.skip(0) =~= ds);
            assert(missing_component(info) == first_missing_beatmap(ds));
        }
        for i in 0..n
            invariant
                n == ds.len(),
                ds == beatmaps@,
                ds == info.beatmaps@,
                missing_component(info) == first_missing_beatmap(ds),
                info == value,
                all_envs == environment_views(ds),
                first_missing_beatmap(ds) == first_missing_beatmap(ds.skip(i as int)),
                string_views(environment_names@) == distinct_prefix(all_envs.take(i as int)),
                difficulty_beatmaps@.len() == i,
                forall|j: int| 0 <= j < i ==> exported_beatmap(
                    #[trigger] difficulty_beatmaps@[j],
                    ds[j],
                    distinct_prefix(all_envs.take(i as int)),
                ),
        {
            let d = &beatmaps[i];
            proof {
                assert(ds.skip(i as int)[0] == ds[i as int]);
                assert(ds.skip(i as int).drop_first() =~= ds.skip(i + 1));
                assert(first_missing_beatmap(ds.skip(i as int)) == match beatmap_missing(ds[i as int]) {
                    Some(m) => Some(m),
                    None => first_missing_beatmap(ds.skip(i + 1)),
                });
                assert(all_envs[i as int] == d.enviornment@);
            }
            let env_idx = environment_index(&mut environment_names, &d.enviornment, Ghost(all_envs), i);
            let beatmap_data_filename = match &d.filename {
                Some(f) => f.clone(),
                None => {
                    proof {
                        reveal_strlit("Beatmap File Name ");
                    }
                    let m = label_message("Beatmap File Name ", d);
                    proof {
                        assert(beatmap_missing(ds[i as int]) == Some(m@));
                        assert(first_missing_beatmap(ds) == Some(m@));
                        assert(missing_component(info) == Some(m@));
                    }
                    return Err(InfoExportError::MissingComponent(m));
                },
            };
            let lightshow_data_filename = match &d.lightshow_filename {
                Some(f) => f.clone(),
                None => {
                    proof {
                        reveal_strlit("Lightshow File Name ");
                    }
                    let m = label_message("Lightshow File Name ", d);
                    return Err(InfoExportError::MissingComponent(m));
                },
            };
            let idx: i32 = match d.color_scheme {
                Some(u) => u as i32,
                None => -1,
            };
            difficulty_beatmaps.push(DifficultyBeatmapV4 {
                characteristic: d.characteristic.clone(),
                difficulty: d.difficulty.clone(),
                beatmap_authors: MapAuthorsV4 {
                    mappers: clone_strings(&d.authors.mappers),
                    lighters: clone_strings(&d.authors.lighters),
                },
                environment_name_idx: env_idx as u32,
                beatmap_color_scheme_idx: idx,
                note_jump_movement_speed: d.njs,
                note_jump_start_beat_offset: d.jump_offset,
                beatmap_data_filename,
                lightshow_data_filename,
            });
            proof {
                let d0 = distinct_prefix(all_envs.take(i as int));
                let d1 = distinct_prefix(all_envs.take(i + 1));
                assert forall|j: int| 0 <= j < i + 1 implies exported_beatmap(
                    #[trigger] difficulty_beatmaps@[j],
                    ds[j],
                    d1,
                ) by {
                    if j < i {
                        assert(all_envs.take(i as int)[j] == ds[j].enviornment@);
                        lemma_distinct_prefix_contains(all_envs.take(i as int), ds[j].enviornment@);
                        assert(d0.contains(ds[j].enviornment@));
                        assert(first_index(d1, ds[j].enviornment@) == first_index(d0, ds[j].enviornment@));
                    }
                }
            }
        }
        proof {
            assert(all_envs.take(n as int) =~= all_envs);
            assert(ds.skip(n as int) =~= Seq::<DifficultyBeatmap>::empty());
        }
        let out = InfoV4 {
            version: InfoVersion::V4_0_1,
            song: SongInfoV4 { title: song.title, sub_title: song.subtitle, author: song.author },
            audio: AudioInfoV4 {
                song_filename: filename,
                song_duration: duration,
                audio_data_filename,
                bpm,
                lufs,
                preview_start_time: preview_start,
                preview_duration,
            },
            song_preview_filename,
            cover_image_filename,
            environment_names,
            color_schemes,
            difficulty_beatmaps,
        };
        proof {
            assert(exported_info(out, info));
            if out.environment_names@.len() <= u32::MAX {
                lemma_environment_index_names(out, info);
            }
        }
        Ok(out)
    }
}

/// In an exported info no environment name is listed twice, and each
/// difficulty's environment index names that difficulty's environment (when
/// the indices fit in 32 bits).
pub proof fn lemma_environment_index_names(v: InfoV4, info: Info)
    requires
        exported_info(v, info),
        v.environment_names@.len() <= u32::MAX,
    ensures
        string_views(v.environment_names@).no_duplicates(),
        forall|i: int| 0 <= i < info.beatmaps@.len() ==> {
            let idx = (#[trigger] v.difficulty_beatmaps@[i]).environment_name_idx as int;
            &&& idx < v.environment_names@.len()
            &&& v.environment_names@[idx]@ == info.beatmaps@[i].enviornment@
        },
{
    let all = environment_views(info.beatmaps@);
    let envs = distinct_prefix(all);
    lemma_distinct_prefix_no_duplicates(all);
    assert forall|i: int| 0 <= i < info.beatmaps@.len() implies {
        let idx = (#[trigger] v.difficulty_beatmaps@[i]).environment_name_idx as int;
        &&& idx < v.environment_names@.len()
        &&& v.environment_names@[idx]@ == info.beatmaps@[i].enviornment@
    } by {
        let e = info.beatmaps@[i].enviornment@;
        assert(all[i] == e);
        lemma_distinct_prefix_contains(all, e);
        lemma_first_index_bound(envs, e);
        let f = first_index(envs, e);
        assert(exported_beatmap(v.difficulty_beatmaps@[i], info.beatmaps@[i], envs));
        assert(string_views(v.environment_names@)[f] == v.environment_names@[f]@);
    }
}

} // verus!
