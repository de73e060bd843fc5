use rosu_map::section::Section;

#[test]
fn finds_valid_sections() {
    assert_eq!(Section::try_from_line("[General]"), Some(Section::General));
    assert_eq!(
        Section::try_from_line("[Difficulty]"),
        Some(Section::Difficulty)
    );
    assert_eq!(
        Section::try_from_line("[HitObjects]"),
        Some(Section::HitObjects)
    );
}

#[test]
fn requires_brackets() {
    assert_eq!(Section::try_from_line("General"), None);
    assert_eq!(Section::try_from_line("[General"), None);
    assert_eq!(Section::try_from_line("General]"), None);
}

#[test]
fn denies_invalid_sections() {
    assert_eq!(Section::try_from_line("abc"), None);
    assert_eq!(Section::try_from_line("HitObject"), None);
}

#[test]
fn all_section_names() {
    let cases = [
        ("[Editor]", Section::Editor),
        ("[Metadata]", Section::Metadata),
        ("[Events]", Section::Events),
        ("[TimingPoints]", Section::TimingPoints),
        ("[Colours]", Section::Colors),
        ("[Variables]", Section::Variables),
        ("[CatchTheBeat]", Section::CatchTheBeat),
        ("[Mania]", Section::Mania),
    ];
    for (line, section) in cases {
        assert_eq!(Section::try_from_line(line), Some(section));
    }
    assert_eq!(Section::try_from_line("[Colors]"), None);
    assert_eq!(Section::try_from_line("[]"), None);
    assert_eq!(Section::try_from_line("["), None);
    assert_eq!(Section::try_from_line("[general]"), None);
}
