use nbody::config::{field_of_key, is_body_section, parse_sections, Field};

fn value_of(section: &nbody::config::BodySection, field: Field) -> Option<String> {
    section
        .assignments
        .iter()
        .filter(|a| a.field == field)
        .last()
        .map(|a| a.value.clone())
}

#[test]
fn test_parse_simple_config() {
    let content = r#"
[Body1]
mass = 1e30
position_x = 0
position_y = 0
position_z = 0
velocity_x = 0
velocity_y = 0
velocity_z = 0

[Body2]
mass = 2e30
position_x = 1e11
position_y = 0
position_z = 0
velocity_x = 0
velocity_y = 500
velocity_z = 0
"#;
    let sections = parse_sections(content);
    assert_eq!(sections.len(), 2);
    assert_eq!(value_of(&sections[0], Field::Mass).unwrap().parse::<f64>().unwrap(), 1e30);
    assert_eq!(value_of(&sections[1], Field::Mass).unwrap().parse::<f64>().unwrap(), 2e30);
    assert_eq!(value_of(&sections[1], Field::VelocityY).unwrap().parse::<f64>().unwrap(), 500.0);
}

#[test]
fn test_parse_ignores_comments() {
    let content = r#"
# This is a comment
[Body1]
mass = 1e30  # Inline comment
position_x = 0
position_y = 0
position_z = 0
velocity_x = 0
velocity_y = 0
velocity_z = 0
"#;
    let sections = parse_sections(content);
    assert_eq!(sections.len(), 1);
    assert_eq!(value_of(&sections[0], Field::Mass).unwrap(), "1e30");
}

#[test]
fn test_empty_config_fails() {
    let content = "# Just comments\n; More comments\n";
    assert!(parse_sections(content).is_empty());
}

#[test]
fn empty_text_has_no_sections() {
    assert!(parse_sections("").is_empty());
}

#[test]
fn assignments_keep_file_order_and_all_fields() {
    let content = "[body]\nvelocity_z = 6\nmass=1\nposition_x= 2 \nposition_y =3\nposition_z\t=\t4\nvelocity_x = 5\nvelocity_y = 7\nmass = 8\n";
    let sections = parse_sections(content);
    assert_eq!(sections.len(), 1);
    let got: Vec<(Field, String)> =
        sections[0].assignments.iter().map(|a| (a.field, a.value.clone())).collect();
    let want = vec![
        (Field::VelocityZ, "6"),
        (Field::Mass, "1"),
        (Field::PositionX, "2"),
        (Field::PositionY, "3"),
        (Field::PositionZ, "4"),
        (Field::VelocityX, "5"),
        (Field::VelocityY, "7"),
        (Field::Mass, "8"),
    ];
    assert_eq!(got.len(), want.len());
    for (g, w) in got.iter().zip(want.iter()) {
        assert_eq!(g.0, w.0);
        assert_eq!(g.1, w.1);
    }
}

#[test]
fn section_names_and_keys_are_lowercased() {
    let content = "[BODY_Sun]\nMASS = 3\nPosition_X = 4\n[Body2]\nVelocity_Z = -1\n";
    let sections = parse_sections(content);
    assert_eq!(sections.len(), 2);
    assert_eq!(value_of(&sections[0], Field::Mass).unwrap(), "3");
    assert_eq!(value_of(&sections[0], Field::PositionX).unwrap(), "4");
    assert_eq!(value_of(&sections[1], Field::VelocityZ).unwrap(), "-1");
}

#[test]
fn other_sections_are_skipped_and_close_a_body() {
    let content = "mass = 9\n[settings]\nmass = 1\n[planet]\nmass = 2\n[Body1]\nmass = 3\n[meta]\nmass = 4\n";
    let sections = parse_sections(content);
    assert_eq!(sections.len(), 1);
    assert_eq!(sections[0].assignments.len(), 1);
    assert_eq!(value_of(&sections[0], Field::Mass).unwrap(), "3");
}

#[test]
fn inline_comments_and_whitespace_are_stripped() {
    let content = "  [body a]  \r\n mass = 5 ; note\r\nposition_x = 1e3 # a ; b\r\nposition_y=\u{3000}2\u{a0}\r\nposition_z = ;\r\n";
    let sections = parse_sections(content);
    assert_eq!(sections.len(), 1);
    assert_eq!(value_of(&sections[0], Field::Mass).unwrap(), "5");
    assert_eq!(value_of(&sections[0], Field::PositionX).unwrap(), "1e3");
    assert_eq!(value_of(&sections[0], Field::PositionY).unwrap(), "2");
    assert_eq!(value_of(&sections[0], Field::PositionZ).unwrap(), "");
}

#[test]
fn unknown_keys_and_lines_without_equals_are_ignored() {
    let content = "[body]\ncolour = red\njust text\nmass\n = 3\nvelocity_x = = 2\n";
    let sections = parse_sections(content);
    assert_eq!(sections.len(), 1);
    assert_eq!(sections[0].assignments.len(), 1);
    assert_eq!(sections[0].assignments[0].field, Field::VelocityX);
    assert_eq!(sections[0].assignments[0].value, "= 2");
}

#[test]
fn bracket_lines_need_both_brackets() {
    let content = "[body1]\n[body2\nmass = 1\n]\n[]\nmass = 2\n";
    let sections = parse_sections(content);
    assert_eq!(sections.len(), 1);
    assert_eq!(sections[0].assignments.len(), 1);
    assert_eq!(value_of(&sections[0], Field::Mass).unwrap(), "1");
}

#[test]
fn empty_body_sections_are_kept() {
    let sections = parse_sections("[body1]\n[body2]\nmass = 1");
    assert_eq!(sections.len(), 2);
    assert!(sections[0].assignments.is_empty());
    assert_eq!(value_of(&sections[1], Field::Mass).unwrap(), "1");
}

#[test]
fn field_names_are_exact() {
    assert_eq!(field_of_key("mass"), Some(Field::Mass));
    assert_eq!(field_of_key("position_x"), Some(Field::PositionX));
    assert_eq!(field_of_key("position_y"), Some(Field::PositionY));
    assert_eq!(field_of_key("position_z"), Some(Field::PositionZ));
    assert_eq!(field_of_key("velocity_x"), Some(Field::VelocityX));
    assert_eq!(field_of_key("velocity_y"), Some(Field::VelocityY));
    assert_eq!(field_of_key("velocity_z"), Some(Field::VelocityZ));
    assert_eq!(field_of_key("Mass"), None);
    assert_eq!(field_of_key("mass "), None);
    assert_eq!(field_of_key("masses"), None);
    assert_eq!(field_of_key(""), None);
}

#[test]
fn body_section_names_start_with_body() {
    assert!(is_body_section("body"));
    assert!(is_body_section("body42"));
    assert!(is_body_section("body_moon"));
    assert!(!is_body_section("bod"));
    assert!(!is_body_section("Body1"));
    assert!(!is_body_section("the body"));
    assert!(!is_body_section(""));
}
