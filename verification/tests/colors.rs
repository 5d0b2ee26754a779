use mcfly::colors::{color_from_name, Color, ColorEntry, ColorSection, Colors};

fn entry(key: &str, text: Option<&str>) -> ColorEntry {
    ColorEntry { key: key.to_string(), text: text.map(|t| t.to_string()) }
}

#[test]
fn color_names_are_read_in_any_case() {
    assert_eq!(color_from_name("Dark_Blue"), Color::DarkBlue);
    assert_eq!(color_from_name("red"), Color::Red);
    assert_eq!(color_from_name("GREY"), Color::Grey);
    assert_eq!(color_from_name("purple"), Color::White);
}

#[test]
fn merge_config_sets_named_colors_only() {
    let mut colors = Colors::default();
    let sections = vec![
        ColorSection {
            name: "menubar".to_string(),
            entries: Some(vec![entry("bg", Some("red")), entry("fg", None)]),
        },
        ColorSection {
            name: "lightmode".to_string(),
            entries: Some(vec![entry("prompt", Some("cyan")), entry("unknown", Some("red"))]),
        },
        ColorSection { name: "darkmode".to_string(), entries: None },
    ];
    colors.merge_config(Some(&sections));
    assert_eq!(colors.menubar_bg, Color::Red);
    assert_eq!(colors.menubar_fg, Color::White);
    assert_eq!(colors.lightmode_colors.prompt, Color::Cyan);
    assert_eq!(colors.lightmode_colors.timing, Color::DarkBlue);
    assert_eq!(colors.darkmode_colors, Colors::default().darkmode_colors);
}

#[test]
fn merge_config_without_table_keeps_colors() {
    let mut colors = Colors::default();
    colors.merge_config(None);
    assert_eq!(colors, Colors::default());
}
