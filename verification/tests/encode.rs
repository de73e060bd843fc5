use rosu_map::encode::{
    encode_background, encode_bookmarks, encode_colors, encode_control_point_fields, encode_editor,
    encode_general, encode_metadata, EditorFields, GeneralFields,
};
use rosu_map::number::ParseNumberError;
use rosu_map::section::general::{
    parse_general_line, CountdownType, GameMode, GeneralSetting, ParseGeneralError,
};
use rosu_map::section::hit_objects::hit_samples::SampleBank;
use rosu_map::section::timing_points::{
    parse_timing_point_fields, timing_point_times, TimeSignature, TimingPointFields,
};
use rosu_map::section::events::parse_event_line;
use rosu_map::section::colors::{Color, Colors};
use rosu_map::section::editor::{parse_editor_line, EditorSetting};
use rosu_map::section::metadata::Metadata;

#[test]
fn metadata_is_written_in_order() {
    let metadata = Metadata {
        title: "song title".to_string(),
        artist: "artist name".to_string(),
        creator: "mapper".to_string(),
        version: "Insane".to_string(),
        ..Default::default()
    };
    let mut out = String::new();
    encode_metadata(&metadata, &mut out);
    assert_eq!(
        out,
        "[Metadata]\nTitle: song title\nArtist: artist name\nCreator: mapper\nVersion: Insane\n"
    );
    assert!(out.contains("Title: song title"));
}

#[test]
fn metadata_optional_fields_are_written_when_set() {
    let metadata = Metadata {
        title: "t".to_string(),
        title_unicode: "tu".to_string(),
        artist: "a".to_string(),
        artist_unicode: "au".to_string(),
        creator: "c".to_string(),
        version: "v".to_string(),
        source: "s".to_string(),
        tags: "not written".to_string(),
        beatmap_id: 5,
        beatmap_set_id: 6,
    };
    let mut out = String::from("before\n");
    encode_metadata(&metadata, &mut out);
    assert_eq!(
        out,
        "before\n[Metadata]\nTitle: t\nTitleUnicode: tu\nArtist: a\nArtistUnicode: au\nCreator: c\nVersion: v\nSource: s\n"
    );
}

#[test]
fn metadata_reads_back() {
    let metadata = Metadata {
        title: "Renatus".to_string(),
        title_unicode: "レナトゥス".to_string(),
        artist: "Soleily".to_string(),
        creator: "Gamu".to_string(),
        version: "Insane".to_string(),
        source: "src".to_string(),
        tags: "x".to_string(),
        beatmap_id: 7,
        beatmap_set_id: 8,
        ..Default::default()
    };
    let mut out = String::new();
    encode_metadata(&metadata, &mut out);
    let back: Metadata = rosu_map::from_str(&out).unwrap();
    assert_eq!(back.title, metadata.title);
    assert_eq!(back.title_unicode, metadata.title_unicode);
    assert_eq!(back.artist, metadata.artist);
    assert_eq!(back.artist_unicode, "");
    assert_eq!(back.creator, metadata.creator);
    assert_eq!(back.version, metadata.version);
    assert_eq!(back.source, metadata.source);
    assert_eq!(back.tags, "");
    assert_eq!(back.beatmap_id, -1);
    assert_eq!(back.beatmap_set_id, 0);
}

#[test]
fn combo_colors_are_numbered_from_one() {
    let colors = vec![Color::new(255, 192, 0, 255), Color::new(1, 2, 3, 4)];
    let mut out = String::new();
    encode_colors(&colors, &mut out);
    assert_eq!(out, "[Colours]\nCombo1: 255,192,0,255\nCombo2: 1,2,3,4\n");
}

#[test]
fn combo_colors_read_back_with_full_alpha() {
    let colors = vec![
        Color::new(255, 192, 0, 255),
        Color::new(0, 202, 0, 10),
        Color::new(18, 124, 255, 0),
    ];
    let mut out = String::new();
    encode_colors(&colors, &mut out);
    let back: Colors = rosu_map::from_str(&out).unwrap();
    assert_eq!(
        back.custom_combo_colors,
        vec![
            Color::new(255, 192, 0, 255),
            Color::new(0, 202, 0, 255),
            Color::new(18, 124, 255, 255),
        ]
    );
    assert!(back.custom_colors.is_empty());
}

#[test]
fn no_combo_colors_writes_only_the_header() {
    let mut out = String::new();
    encode_colors(&Vec::new(), &mut out);
    assert_eq!(out, "[Colours]\n");
}

#[test]
fn bookmarks_are_comma_separated() {
    let mut out = String::new();
    encode_bookmarks(&vec![1000, -5, 0, 2147483647], &mut out);
    assert_eq!(out, "Bookmarks: 1000,-5,0,2147483647\n");
}

#[test]
fn no_bookmarks_write_nothing() {
    let mut out = String::from("x");
    encode_bookmarks(&Vec::new(), &mut out);
    assert_eq!(out, "x");
}

#[test]
fn bookmarks_read_back() {
    let bookmarks = vec![11505, 22937, -2147483648, 7];
    let mut out = String::new();
    encode_bookmarks(&bookmarks, &mut out);
    let line = out.trim_end();
    match parse_editor_line(line) {
        Ok(Some(EditorSetting::Bookmarks(b))) => assert_eq!(b, bookmarks),
        other => panic!("unexpected {other:?}"),
    }
}

#[test]
fn background_line_reads_back() {
    let mut out = String::new();
    encode_background("bg/folder/image.jpg", &mut out);
    assert_eq!(out, "0,0,\"bg/folder/image.jpg\",0,0\n");
    let mut bg = String::from("old.png");
    assert_eq!(parse_event_line(&mut bg, out.trim_end()), Ok(None));
    assert_eq!(bg, "bg/folder/image.jpg");
    let mut out = String::new();
    encode_background("", &mut out);
    assert_eq!(out, "");
}

#[test]
fn control_point_fields_are_written_and_read_back() {
    let mut out = String::from("404,368.59,");
    encode_control_point_fields(3, 2, 1, 60, true, 9, &mut out);
    assert_eq!(out, "404,368.59,3,2,1,60,1,9\n");

    let line = out.trim_end_matches('\n');
    let (time, beat_len) = timing_point_times(line).unwrap();
    assert_eq!(time, "404");
    assert_eq!(beat_len, "368.59");
    let fields = parse_timing_point_fields(line, SampleBank::Drum, 100).unwrap();
    assert_eq!(
        fields,
        TimingPointFields {
            time_signature: TimeSignature { numerator: 3 },
            sample_bank: SampleBank::Soft,
            custom_sample_bank: 1,
            sample_volume: 60,
            timing_change: true,
            kiai: true,
            omit_first_bar_line: true,
        }
    );
}

#[test]
fn control_point_with_no_bank_reads_back_as_normal() {
    let mut out = String::from("10,-50,");
    encode_control_point_fields(4, 0, -1, 5, false, 0, &mut out);
    assert_eq!(out, "10,-50,4,0,-1,5,0,0\n");
    let fields =
        parse_timing_point_fields(out.trim_end_matches('\n'), SampleBank::Drum, 100).unwrap();
    assert_eq!(fields.sample_bank, SampleBank::Normal);
    assert_eq!(fields.custom_sample_bank, -1);
    assert!(!fields.timing_change);
    assert!(!fields.kiai);
    assert!(!fields.omit_first_bar_line);
}

fn general_fields() -> GeneralFields {
    GeneralFields {
        audio_file: "audio.mp3".to_string(),
        audio_lead_in: "0".to_string(),
        preview_time: -1,
        countdown: CountdownType::Normal,
        sample_set: SampleBank::Soft,
        stack_leniency: "0.7".to_string(),
        mode: GameMode::Osu,
        letterbox_in_breaks: false,
        epilepsy_warning: false,
        countdown_offset: 0,
        special_style: false,
        widescreen_storyboard: true,
        samples_match_playback_rate: false,
    }
}

#[test]
fn general_is_written_in_order() {
    let mut out = String::new();
    encode_general(&general_fields(), &mut out);
    assert_eq!(
        out,
        "[General]\nAudioFilename: audio.mp3\nAudioLeadIn: 0\nPreviewTime: -1\nCountdown: 1\n\
         SampleSet: 2\nStackLeniency: 0.7\nMode: 0\nLetterboxInBreaks: 0\nWidescreenStoryboard: 1\n"
    );
}

#[test]
fn general_optional_lines_are_written_when_set() {
    let fields = GeneralFields {
        mode: GameMode::Mania,
        epilepsy_warning: true,
        countdown_offset: 3,
        special_style: true,
        samples_match_playback_rate: true,
        ..general_fields()
    };
    let mut out = String::new();
    encode_general(&fields, &mut out);
    assert_eq!(
        out,
        "[General]\nAudioFilename: audio.mp3\nAudioLeadIn: 0\nPreviewTime: -1\nCountdown: 1\n\
         SampleSet: 2\nStackLeniency: 0.7\nMode: 3\nLetterboxInBreaks: 0\nEpilepsyWarning: 1\n\
         CountdownOffset: 3\nSpecialStyle: 1\nWidescreenStoryboard: 1\nSamplesMatchPlaybackRate: 1\n"
    );
}

#[test]
fn general_reads_back() {
    let fields = GeneralFields {
        mode: GameMode::Mania,
        countdown_offset: 3,
        special_style: true,
        ..general_fields()
    };
    let mut out = String::new();
    encode_general(&fields, &mut out);
    let settings: Vec<GeneralSetting> = out
        .lines()
        .skip(1)
        .map(|line| parse_general_line(line).unwrap().unwrap())
        .collect();
    assert_eq!(
        settings,
        vec![
            GeneralSetting::AudioFile("audio.mp3".to_string()),
            GeneralSetting::AudioLeadIn(0),
            GeneralSetting::PreviewTime(-1),
            GeneralSetting::Countdown(CountdownType::Normal),
            GeneralSetting::DefaultSampleBank(SampleBank::Soft),
            GeneralSetting::StackLeniency("0.7".to_string()),
            GeneralSetting::Mode(GameMode::Mania),
            GeneralSetting::LetterboxInBreaks(false),
            GeneralSetting::CountdownOffset(3),
            GeneralSetting::SpecialStyle(true),
            GeneralSetting::WidescreenStoryboard(true),
        ]
    );
}

#[test]
fn editor_is_written_in_order() {
    let fields = EditorFields {
        bookmarks: vec![100, -5, 2000],
        distance_spacing: "1.2".to_string(),
        beat_divisor: 4,
        grid_size: 32,
        timeline_zoom: "2.5".to_string(),
    };
    let mut out = String::new();
    encode_editor(&fields, &mut out);
    assert_eq!(
        out,
        "[Editor]\nBookmarks: 100,-5,2000\nDistanceSpacing: 1.2\nBeatDivisor: 4\nGridSize: 32\n\
         TimelineZoom: 2.5\n"
    );

    let settings: Vec<EditorSetting> = out
        .lines()
        .skip(1)
        .map(|line| parse_editor_line(line).unwrap().unwrap())
        .collect();
    assert_eq!(
        settings,
        vec![
            EditorSetting::Bookmarks(vec![100, -5, 2000]),
            EditorSetting::DistanceSpacing("1.2".to_string()),
            EditorSetting::BeatDivisor(4),
            EditorSetting::GridSize(32),
            EditorSetting::TimelineZoom("2.5".to_string()),
        ]
    );
}

#[test]
fn editor_without_bookmarks_leaves_their_line_out() {
    let fields = EditorFields {
        bookmarks: Vec::new(),
        distance_spacing: "1".to_string(),
        beat_divisor: 4,
        grid_size: 4,
        timeline_zoom: "1".to_string(),
    };
    let mut out = String::new();
    encode_editor(&fields, &mut out);
    assert_eq!(
        out,
        "[Editor]\nDistanceSpacing: 1\nBeatDivisor: 4\nGridSize: 4\nTimelineZoom: 1\n"
    );
}

#[test]
fn lowest_preview_time_does_not_read_back() {
    let fields = GeneralFields {
        preview_time: i32::MIN,
        ..general_fields()
    };
    let mut out = String::new();
    encode_general(&fields, &mut out);
    let line = out.lines().nth(3).unwrap();
    assert_eq!(line, "PreviewTime: -2147483648");
    assert_eq!(
        parse_general_line(line),
        Err(ParseGeneralError::Number(ParseNumberError::NumberUnderflow))
    );
}
