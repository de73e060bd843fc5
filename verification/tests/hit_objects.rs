use rosu_map::number::ParseNumberError;
use rosu_map::section::general::GameMode;
use rosu_map::section::hit_objects::decode::{
    parse_repeat_count, slider_node_samples, starts_new_combo, HitObjectShape,
    ParseHitObjectsError,
};
use rosu_map::section::hit_objects::hit_samples::{
    apply_sample_point, get_sample_bank, HitSampleDefaultName, HitSampleInfo, HitSampleInfoName,
    HitSoundType, ParseSampleBankInfoError, SampleBank, SampleBankInfo,
};
use rosu_map::section::hit_objects::path::{
    path_segments, segment_path_type, segment_points, PathControlPoint, PathSegment,
};
use rosu_map::section::hit_objects::{encode_path_type, HitObjectType, PathType, SplineType};

#[test]
fn type_number_is_taken_apart() {
    // new combo, combo offset 3, slider
    let t = HitObjectType(2 | 4 | (3 << 4));
    let (rest, new_combo, offset) = t.split_combo();
    assert_eq!(rest, HitObjectType(2));
    assert!(new_combo);
    assert_eq!(offset, 3);
    assert_eq!(rest.shape(), Some(HitObjectShape::Slider));
    assert_eq!(HitObjectType(0).shape(), None);
    assert_eq!(HitObjectType(1 | 2).shape(), Some(HitObjectShape::Circle));
    assert_eq!(HitObjectType(128).shape(), Some(HitObjectShape::Hold));
}

#[test]
fn type_number_is_written() {
    assert_eq!(HitObjectType::from_parts(HitObjectShape::Circle, true, 2).0, 1 | 4 | 32);
    assert_eq!(HitObjectType::from_parts(HitObjectShape::Slider, false, 0).0, 2);
    assert_eq!(HitObjectType::from_parts(HitObjectShape::Spinner, true, 5).0, 8 | 4);
    assert_eq!(HitObjectType::from_parts(HitObjectShape::Hold, true, 5).0, 128);
}

#[test]
fn type_number_reads_back() {
    for shape in [
        HitObjectShape::Circle,
        HitObjectShape::Slider,
        HitObjectShape::Spinner,
        HitObjectShape::Hold,
    ] {
        for new_combo in [false, true] {
            for offset in [0, 1, 6, 7, 9] {
                let t = HitObjectType::from_parts(shape, new_combo, offset);
                let (rest, nc, off) = t.split_combo();
                assert_eq!(rest.shape(), Some(shape));
                assert_eq!(nc, new_combo && shape != HitObjectShape::Hold);
                let expected = match shape {
                    HitObjectShape::Circle | HitObjectShape::Slider => offset & 7,
                    _ => 0,
                };
                assert_eq!(off, expected);
            }
        }
    }
}

#[test]
fn new_combo_rules() {
    assert!(starts_new_combo(true, None, false));
    assert!(starts_new_combo(false, Some(HitObjectType(8)), false));
    assert!(!starts_new_combo(false, Some(HitObjectType(1)), false));
    assert!(starts_new_combo(false, Some(HitObjectType(1)), true));
}

#[test]
fn repeat_counts() {
    assert_eq!(parse_repeat_count("1"), Ok(0));
    assert_eq!(parse_repeat_count(" 3 "), Ok(2));
    assert_eq!(parse_repeat_count("0"), Ok(0));
    assert_eq!(parse_repeat_count("-5"), Ok(0));
    assert_eq!(parse_repeat_count("9000"), Ok(8999));
    assert_eq!(
        parse_repeat_count("9001"),
        Err(ParseHitObjectsError::InvalidRepeatCount(9001))
    );
    assert_eq!(
        parse_repeat_count("2.5"),
        Err(ParseHitObjectsError::Number(ParseNumberError::InvalidInteger))
    );
}

#[test]
fn node_samples_of_a_slider() {
    let info = SampleBankInfo {
        bank_for_normal: Some(SampleBank::Soft),
        bank_for_addition: Some(SampleBank::Soft),
        volume: 50,
        ..Default::default()
    };
    let nodes = slider_node_samples(&info, HitSoundType(2), 1, Some("4|x"), Some("3:2|0:0"))
        .unwrap();
    assert_eq!(nodes.len(), 3);
    // node 0: finish, drum normal bank and soft addition bank
    assert_eq!(nodes[0].len(), 2);
    assert_eq!(nodes[0][0].bank, SampleBank::Drum);
    assert_eq!(nodes[0][1].name, HitSampleInfoName::Default(HitSampleDefaultName::Finish));
    assert_eq!(nodes[0][1].bank, SampleBank::Soft);
    // node 1: invalid sound type counts as none; banks 0:0 leave them unset
    assert_eq!(nodes[1].len(), 1);
    assert_eq!(nodes[1][0].bank, SampleBank::Normal);
    assert!(!nodes[1][0].bank_specified);
    // node 2: the hit object's own sound and banks
    assert_eq!(nodes[2].len(), 2);
    assert_eq!(nodes[2][1].name, HitSampleInfoName::Default(HitSampleDefaultName::Whistle));
    assert_eq!(nodes[2][0].bank, SampleBank::Soft);
    assert_eq!(nodes[2][0].volume, 50);
}

#[test]
fn node_samples_errors() {
    let info = SampleBankInfo::default();
    assert_eq!(
        slider_node_samples(&info, HitSoundType(0), 0, None, Some("1:1|2")),
        Err(ParseHitObjectsError::SampleBankInfo(ParseSampleBankInfoError::MissingInfo))
    );
    let nodes = slider_node_samples(&info, HitSoundType(0), 0, Some(""), Some("")).unwrap();
    assert_eq!(nodes.len(), 2);
}

#[test]
fn path_types_from_letters() {
    assert_eq!(PathType::new_from_str("B"), PathType::new(SplineType::BSpline));
    assert_eq!(PathType::new_from_str("B3"), PathType::new_b_spline(3));
    assert_eq!(PathType::new_from_str("B-3"), PathType::new(SplineType::BSpline));
    assert_eq!(PathType::new_from_str("L"), PathType::new(SplineType::Linear));
    assert_eq!(PathType::new_from_str("P"), PathType::new(SplineType::PerfectCurve));
    assert_eq!(PathType::new_from_str("C"), PathType::new(SplineType::Catmull));
    assert_eq!(PathType::new_from_str(""), PathType::new(SplineType::Catmull));
}

#[test]
fn perfect_curves_need_three_points() {
    let p = PathType::new(SplineType::PerfectCurve);
    assert_eq!(segment_path_type(p, 3, false), p);
    assert_eq!(segment_path_type(p, 3, true), PathType::new(SplineType::Linear));
    assert_eq!(segment_path_type(p, 4, false), PathType::new(SplineType::BSpline));
    let l = PathType::new(SplineType::Linear);
    assert_eq!(segment_path_type(l, 4, true), l);
}

#[test]
fn segments_of_a_path() {
    let (pieces, segs, failed) = path_segments("B|1:2|3:4|L|5:6|P|7:8|9:10");
    assert_eq!(pieces.len(), 8);
    assert!(!failed);
    assert_eq!(
        segs,
        vec![
            PathSegment { start: 0, end: 3, end_point: Some(4), first: true },
            PathSegment { start: 3, end: 5, end_point: Some(6), first: false },
            PathSegment { start: 5, end: 8, end_point: None, first: false },
        ]
    );
    let (_, segs, failed) = path_segments("L|1:2||3:4");
    assert!(failed);
    assert!(segs.is_empty());
    let (_, segs, failed) = path_segments("B|1:1|L|2:2||");
    assert!(failed);
    assert_eq!(segs, vec![PathSegment { start: 0, end: 2, end_point: Some(3), first: true }]);
}

#[test]
fn repeated_points_split_a_segment() {
    let b = PathType::new(SplineType::BSpline);
    let mut out = Vec::new();
    segment_points(&vec![(0, 0), (10, 10), (10, 10), (20, 0), (30, 5)], b, false, &mut out);
    assert_eq!(
        out,
        vec![
            PathControlPoint { x: 0, y: 0, path_type: Some(b) },
            PathControlPoint { x: 10, y: 10, path_type: Some(b) },
            PathControlPoint { x: 20, y: 0, path_type: None },
            PathControlPoint { x: 30, y: 5, path_type: None },
        ]
    );
}

#[test]
fn end_point_and_catmull_are_kept() {
    let c = PathType::new(SplineType::Catmull);
    let mut out = Vec::new();
    segment_points(&vec![(0, 0), (1, 1), (1, 1), (2, 2)], c, true, &mut out);
    assert_eq!(
        out,
        vec![
            PathControlPoint { x: 0, y: 0, path_type: Some(c) },
            PathControlPoint { x: 1, y: 1, path_type: None },
            PathControlPoint { x: 1, y: 1, path_type: None },
        ]
    );
    let l = PathType::new(SplineType::Linear);
    let mut out = Vec::new();
    segment_points(&vec![(5, 5)], l, true, &mut out);
    assert_eq!(out, vec![PathControlPoint { x: 5, y: 5, path_type: Some(l) }]);
}

#[test]
fn custom_sample_banks() {
    let mut info = SampleBankInfo::default();
    info.read_custom_sample_banks(&["2", "0", "3", "-10", "drum.wav"]).unwrap();
    assert_eq!(info.bank_for_normal, Some(SampleBank::Soft));
    assert_eq!(info.bank_for_addition, Some(SampleBank::Soft));
    assert_eq!(info.custom_sample_bank, 3);
    assert_eq!(info.volume, 0);
    assert_eq!(info.filename.as_deref(), Some("drum.wav"));
    info.read_custom_sample_banks(&["1", "3"]).unwrap();
    assert_eq!(info.bank_for_addition, Some(SampleBank::Drum));
    assert_eq!(info.filename, None);
    assert_eq!(
        info.read_custom_sample_banks(&["1"]),
        Err(ParseSampleBankInfoError::MissingInfo)
    );
    assert!(matches!(
        info.read_custom_sample_banks(&["x", "1"]),
        Err(ParseSampleBankInfoError::Number(_))
    ));
}

#[test]
fn sound_types_become_samples_and_back() {
    let info = SampleBankInfo {
        bank_for_normal: Some(SampleBank::Normal),
        bank_for_addition: Some(SampleBank::Drum),
        volume: 70,
        custom_sample_bank: 2,
        ..Default::default()
    };
    let samples = info.clone().convert_sound_type(HitSoundType(2 | 4 | 8));
    assert_eq!(samples.len(), 4);
    assert!(samples[0].is_layered);
    assert_eq!(samples[0].suffix, Some(2));
    assert_eq!(HitSoundType::from_samples(&samples), HitSoundType(14));
    assert_eq!(samples[1].lookup_name(), "Gameplay/drum-hitfinish2");
    let file = SampleBankInfo {
        filename: Some("x.wav".to_string()),
        ..Default::default()
    };
    let samples = file.convert_sound_type(HitSoundType(1));
    assert_eq!(samples[0].lookup_name(), "x.wav");
    assert!(!samples[0].is_layered);
}

#[test]
fn sample_points_apply_once() {
    let mut h = HitSampleInfo::new(HitSampleInfo::hit_normal(), None, 0, 0);
    apply_sample_point(SampleBank::Soft, 40, 3, &mut h);
    assert_eq!(h.bank, SampleBank::Soft);
    assert_eq!(h.volume, 40);
    assert_eq!(h.custom_sample_bank, 3);
    assert_eq!(h.suffix, Some(3));
    let once = h.clone();
    apply_sample_point(SampleBank::Soft, 40, 3, &mut h);
    assert_eq!(h, once);
}

#[test]
fn sample_bank_text() {
    let samples = vec![
        HitSampleInfo::new(HitSampleInfo::hit_normal(), Some(SampleBank::Soft), 4, 60),
        HitSampleInfo::new(
            HitSampleInfoName::Default(HitSampleDefaultName::Clap),
            Some(SampleBank::Drum),
            4,
            60,
        ),
    ];
    assert_eq!(get_sample_bank(&samples, true, GameMode::Osu), "2:3");
    assert_eq!(get_sample_bank(&samples, false, GameMode::Osu), "2:3:0:0:");
    assert_eq!(get_sample_bank(&samples, false, GameMode::Mania), "2:3:4:60:");
    assert_eq!(get_sample_bank(&Vec::new(), false, GameMode::Mania), "1:0:0:100:");
}

#[test]
fn path_types_are_written_and_read_back() {
    let types = [
        PathType::new(SplineType::Catmull),
        PathType::new(SplineType::BSpline),
        PathType::new_b_spline(3),
        PathType::new(SplineType::Linear),
        PathType::new(SplineType::PerfectCurve),
    ];
    let mut out = String::new();
    for path_type in types {
        encode_path_type(path_type, &mut out);
    }
    assert_eq!(out, "C|B|B3|L|P|");
    let read: Vec<PathType> = out
        .trim_end_matches('|')
        .split('|')
        .map(PathType::new_from_str)
        .collect();
    assert_eq!(read, types.to_vec());
}
