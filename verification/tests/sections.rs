use rosu_map::number::ParseNumberError;
use rosu_map::section::colors::{Color, Colors, CustomColor, CustomColors, ParseColorsError};
use rosu_map::section::difficulty::DifficultyKey;
use rosu_map::section::editor::{parse_editor_line, EditorKey, EditorSetting, ParseEditorError};
use rosu_map::section::events::{parse_event_line, EventType, ParseEventsError};
use rosu_map::section::general::{
    parse_general_line, CountdownType, GameMode, GeneralKey, GeneralSetting, ParseGeneralError,
};
use rosu_map::section::hit_objects::hit_samples::SampleBank;
use rosu_map::section::metadata::Metadata;
use rosu_map::section::timing_points::{
    parse_timing_point_fields, timing_point_times, ParseTimingPointsError, TimeSignature,
};

#[test]
fn general_lines() {
    assert_eq!(
        parse_general_line("AudioFilename: audio\\song.mp3"),
        Ok(Some(GeneralSetting::AudioFile("audio/song.mp3".to_string())))
    );
    assert_eq!(
        parse_general_line("AudioLeadIn: 1500 // lead"),
        Ok(Some(GeneralSetting::AudioLeadIn(1500)))
    );
    assert_eq!(
        parse_general_line("PreviewTime: -1"),
        Ok(Some(GeneralSetting::PreviewTime(-1)))
    );
    assert_eq!(
        parse_general_line("SampleSet: Soft"),
        Ok(Some(GeneralSetting::DefaultSampleBank(SampleBank::Soft)))
    );
    assert_eq!(
        parse_general_line("StackLeniency: 0.7"),
        Ok(Some(GeneralSetting::StackLeniency("0.7".to_string())))
    );
    assert_eq!(parse_general_line("Mode: 3"), Ok(Some(GeneralSetting::Mode(GameMode::Mania))));
    assert_eq!(
        parse_general_line("LetterboxInBreaks: 1"),
        Ok(Some(GeneralSetting::LetterboxInBreaks(true)))
    );
    assert_eq!(
        parse_general_line("WidescreenStoryboard: 2"),
        Ok(Some(GeneralSetting::WidescreenStoryboard(false)))
    );
    assert_eq!(
        parse_general_line("Countdown: Double speed"),
        Ok(Some(GeneralSetting::Countdown(CountdownType::DoubleSpeed)))
    );
    assert_eq!(parse_general_line("UnknownKey: 1"), Ok(None));
    assert_eq!(parse_general_line("no colon"), Ok(None));
}

#[test]
fn general_errors() {
    assert_eq!(
        parse_general_line("Mode: 4"),
        Err(ParseGeneralError::Mode(rosu_map::section::general::ParseGameModeError))
    );
    assert!(matches!(
        parse_general_line("SampleSet: 7"),
        Err(ParseGeneralError::SampleBank(_))
    ));
    assert!(matches!(
        parse_general_line("Countdown: 5"),
        Err(ParseGeneralError::CountdownType(_))
    ));
    assert_eq!(
        parse_general_line("PreviewTime: x"),
        Err(ParseGeneralError::Number(ParseNumberError::InvalidInteger))
    );
    assert_eq!(
        parse_general_line("CountdownOffset: -2147483648"),
        Err(ParseGeneralError::Number(ParseNumberError::NumberUnderflow))
    );
}

#[test]
fn general_keys_read_back() {
    for key in [
        GeneralKey::AudioFilename,
        GeneralKey::AudioLeadIn,
        GeneralKey::SamplesMatchPlaybackRate,
        GeneralKey::CountdownOffset,
    ] {
        assert_eq!(GeneralKey::from_name(key.as_str()), Ok(key));
    }
    assert!(GeneralKey::from_name("audiofilename").is_err());
}

#[test]
fn difficulty_and_editor_keys() {
    assert_eq!(DifficultyKey::from_name("HPDrainRate"), Ok(DifficultyKey::HPDrainRate));
    assert_eq!(DifficultyKey::SliderTickRate.as_str(), "SliderTickRate");
    assert!(DifficultyKey::from_name("Hp").is_err());
    assert_eq!(EditorKey::from_name("GridSize"), Ok(EditorKey::GridSize));
    assert_eq!(EditorKey::TimelineZoom.as_str(), "TimelineZoom");
}

#[test]
fn editor_lines() {
    assert_eq!(
        parse_editor_line("Bookmarks: 100, 200,x,300"),
        Ok(Some(EditorSetting::Bookmarks(vec![100, 300])))
    );
    assert_eq!(
        parse_editor_line("DistanceSpacing: 1.2"),
        Ok(Some(EditorSetting::DistanceSpacing("1.2".to_string())))
    );
    assert_eq!(parse_editor_line("BeatDivisor: 4"), Ok(Some(EditorSetting::BeatDivisor(4))));
    assert_eq!(
        parse_editor_line("GridSize: big"),
        Err(ParseEditorError::Number(ParseNumberError::InvalidInteger))
    );
    assert_eq!(parse_editor_line("Other: 1"), Ok(None));
}

#[test]
fn timing_point_texts() {
    assert_eq!(
        timing_point_times("404,368.59,4,2,1,60,1,0"),
        Ok(("404".to_string(), "368.59".to_string()))
    );
    assert_eq!(timing_point_times("404"), Err(ParseTimingPointsError::InvalidLine));
}

#[test]
fn timing_point_fields() {
    let f = parse_timing_point_fields("404,368.59,3,2,1,60,1,9", SampleBank::Normal, 100).unwrap();
    assert_eq!(f.time_signature, TimeSignature { numerator: 3 });
    assert_eq!(f.sample_bank, SampleBank::Soft);
    assert_eq!(f.custom_sample_bank, 1);
    assert_eq!(f.sample_volume, 60);
    assert!(f.timing_change);
    assert!(f.kiai);
    assert!(f.omit_first_bar_line);

    let f = parse_timing_point_fields("10,-50,0,0,0,70,0", SampleBank::Drum, 100).unwrap();
    assert_eq!(f.time_signature, TimeSignature { numerator: 4 });
    assert_eq!(f.sample_bank, SampleBank::Normal);
    assert!(!f.timing_change);
    assert!(!f.kiai);

    let f = parse_timing_point_fields("10,500", SampleBank::Drum, 80).unwrap();
    assert_eq!(f.sample_bank, SampleBank::Drum);
    assert_eq!(f.sample_volume, 80);
    assert!(f.timing_change);

    let f = parse_timing_point_fields("10,500,4,9", SampleBank::Soft, 80).unwrap();
    assert_eq!(f.sample_bank, SampleBank::Soft);
}

#[test]
fn timing_point_errors() {
    assert_eq!(
        parse_timing_point_fields("10", SampleBank::Normal, 100),
        Err(ParseTimingPointsError::InvalidLine)
    );
    assert!(matches!(
        parse_timing_point_fields("10,500,-3", SampleBank::Normal, 100),
        Err(ParseTimingPointsError::TimeSignature(_))
    ));
    assert_eq!(
        parse_timing_point_fields("10,500,4,x", SampleBank::Normal, 100),
        Err(ParseTimingPointsError::Number(ParseNumberError::InvalidInteger))
    );
    assert!(matches!(
        parse_timing_point_fields("10,500,4,1,0,100,1,k", SampleBank::Normal, 100),
        Err(ParseTimingPointsError::EffectFlags(_))
    ));
}

#[test]
fn event_lines() {
    let mut bg = String::new();
    assert_eq!(parse_event_line(&mut bg, "0,0,\"bg\\\\image.jpg\",0,0").unwrap(), None);
    assert_eq!(bg, "bg/image.jpg");

    let mut bg = String::new();
    parse_event_line(&mut bg, "Video,0,\"intro.MP4\"").unwrap();
    assert_eq!(bg, "");
    parse_event_line(&mut bg, "1,0,\"still.png\"").unwrap();
    assert_eq!(bg, "still.png");

    let mut bg = String::new();
    parse_event_line(&mut bg, "Sprite,Foreground,Centre,\"sb/x.png\",320,240").unwrap();
    assert_eq!(bg, "sb/x.png");
    parse_event_line(&mut bg, "Sprite,Foreground,Centre,\"other.png\"").unwrap();
    assert_eq!(bg, "sb/x.png");

    let mut bg = String::new();
    let b = parse_event_line(&mut bg, "2,100,200 // break").unwrap().unwrap();
    assert_eq!(b.start_time, "100");
    assert_eq!(b.end_time, "200");
    assert_eq!(parse_event_line(&mut bg, "Sample,1,2").unwrap(), None);
}

#[test]
fn event_errors() {
    let mut bg = String::new();
    assert_eq!(parse_event_line(&mut bg, "0,0"), Err(ParseEventsError::InvalidLine));
    assert!(matches!(
        parse_event_line(&mut bg, "9,0,x"),
        Err(ParseEventsError::EventType(_))
    ));
    assert_eq!(parse_event_line(&mut bg, "4,0,x"), Err(ParseEventsError::InvalidLine));
    assert_eq!(EventType::from_name("Colour"), Ok(EventType::Color));
}

#[test]
fn color_lines() {
    let mut colors = Colors::default();
    colors.parse_colors_line("Combo1 : 255,128,0").unwrap();
    colors.parse_colors_line("SliderBorder: 1,2,3,4").unwrap();
    colors.parse_colors_line("SliderBorder: 5,6,7").unwrap();
    assert_eq!(colors.custom_combo_colors, vec![Color::new(255, 128, 0, 255)]);
    assert_eq!(colors.custom_colors.len(), 1);
    assert_eq!(colors.custom_colors[0].color, Color::new(5, 6, 7, 255));
    assert_eq!(
        colors.parse_colors_line("Combo2: 1,2"),
        Err(ParseColorsError::IncorrectColor)
    );
    assert_eq!(
        colors.parse_colors_line("Combo2: 1,2,300"),
        Err(ParseColorsError::Number(ParseNumberError::InvalidInteger))
    );
    assert_eq!(colors.custom_combo_colors.len(), 1);
}

#[test]
fn custom_color_insert_then_get() {
    let mut custom = CustomColors::new();
    custom.insert(CustomColor {
        name: "SliderTrackOverride".to_string(),
        color: Color::new(1, 1, 1, 255),
    });
    custom.insert(CustomColor {
        name: "SliderBorder".to_string(),
        color: Color::new(2, 2, 2, 255),
    });
    custom.insert(CustomColor {
        name: "SliderTrackOverride".to_string(),
        color: Color::new(3, 3, 3, 255),
    });
    assert_eq!(custom.0.len(), 2);
    assert_eq!(custom.get("SliderTrackOverride"), Some(Color::new(3, 3, 3, 255)));
    assert_eq!(custom.get("SliderBorder"), Some(Color::new(2, 2, 2, 255)));
    assert_eq!(custom.get("Missing"), None);
}

#[test]
fn default_combo_colors() {
    let c = Colors::default_combo_colors();
    assert_eq!(c[0], Color::new(255, 192, 0, 255));
    assert_eq!(c[3].red(), 242);
    assert_eq!(c[3].alpha(), 255);
}

#[test]
fn numbers_of_modes_and_banks_read_back() {
    for mode in [GameMode::Osu, GameMode::Taiko, GameMode::Catch, GameMode::Mania] {
        assert_eq!(GameMode::from_u8(mode.number()), mode);
    }
    assert_eq!(GameMode::from_u8(9), GameMode::Osu);
    for bank in [SampleBank::NoBank, SampleBank::Normal, SampleBank::Soft, SampleBank::Drum] {
        assert_eq!(SampleBank::try_from_i32(bank.number()), Ok(bank));
        assert_eq!(SampleBank::from_lowercase(bank.to_lowercase_str()), bank);
    }
    assert!(SampleBank::try_from_i32(4).is_err());
    assert_eq!(CountdownType::from_name("1").map(|c| c.number()), Ok(1));
}

#[test]
fn metadata_decoding_passes_over_other_sections() {
    let with_others = "[General]\nTitle: not metadata\n[Metadata]\nTitle: t\n[Colours]\nCombo1: 1,2,3";
    let alone = "[Metadata]\nTitle: t";
    let a: Metadata = rosu_map::from_str(with_others).unwrap();
    let b: Metadata = rosu_map::from_str(alone).unwrap();
    assert_eq!(a, b);
}
