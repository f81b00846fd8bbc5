use rogue_grid::{
    default_user_config, index_to_letter, parse_color_code, parse_glyph, to_cp437, Config,
    ConfigParseError, Rgb,
};

#[test]
fn test_default_config() {
    let res: Result<Config, _> = Config::try_from_user_config(default_user_config());
    assert!(res.is_ok());
}

#[test]
fn test_index_to_letter() {
    assert_eq!(index_to_letter(0), 'a' as u16);
    assert_eq!(index_to_letter(25), 'z' as u16);
}

#[test]
fn parse_color_code_exact_value() {
    let rgb = parse_color_code("#0a1b2c".to_string()).unwrap();
    assert_eq!(rgb, Rgb { r: 0x0a, g: 0x1b, b: 0x2c });
    let rgb = parse_color_code("#FFffFF".to_string()).unwrap();
    assert_eq!(rgb, Rgb { r: 255, g: 255, b: 255 });
}

#[test]
fn parse_color_code_rejects_bad_codes() {
    assert!(matches!(
        parse_color_code("0a1b2c".to_string()),
        Err(ConfigParseError::BadColorCode(_))
    ));
    assert!(matches!(
        parse_color_code("#0a1b2".to_string()),
        Err(ConfigParseError::BadColorCode(_))
    ));
    assert!(matches!(
        parse_color_code("#0a1b2cc".to_string()),
        Err(ConfigParseError::BadColorCode(_))
    ));
    assert!(matches!(
        parse_color_code("#0a1b2g".to_string()),
        Err(ConfigParseError::BadColorCode(_))
    ));
}

#[test]
fn parse_glyph_values() {
    assert_eq!(parse_glyph('@').unwrap(), 64);
    assert_eq!(parse_glyph('.').unwrap(), 46);
    assert_eq!(parse_glyph('#').unwrap(), 35);
    assert!(matches!(
        parse_glyph('\u{20ac}'),
        Err(ConfigParseError::UnrecognizedGlyph('\u{20ac}'))
    ));
}

#[test]
fn cp437_table_spot_checks() {
    assert_eq!(to_cp437('\u{263a}'), 1); // white smiling face
    assert_eq!(to_cp437('\u{a1}'), 173); // inverted exclamation mark
    assert_eq!(to_cp437('a'), 97);
    assert_eq!(to_cp437(' '), 32);
    assert_eq!(to_cp437('\u{2593}'), 178); // dark shade
    assert_eq!(to_cp437('\n'), 0);
}

#[test]
fn resolved_config_uses_defaults_for_missing_colors() {
    let user = default_user_config();
    let config = Config::try_from_user_config(user).unwrap();
    // The player tile has no explicit background: it falls back to the
    // default background #0c0c0c.
    assert_eq!(config.player.bg, Rgb { r: 0x0c, g: 0x0c, b: 0x0c });
    assert_eq!(config.player.glyph, 64);
    assert_eq!(config.wall.glyph, 35);
    assert_eq!(config.health_potion.glyph, 173);
    assert_eq!(config.bg, Rgb { r: 0x0c, g: 0x0c, b: 0x0c });
    assert!(!config.post_scanlines);
    assert_eq!(config.post_burnin, Some(Rgb { r: 0x8d, g: 0x62, b: 0x68 }));
}

#[test]
fn bad_glyph_in_user_config_is_rejected() {
    let mut user = default_user_config();
    user.wall.glyph = '\u{20ac}';
    assert!(matches!(
        Config::try_from_user_config(user),
        Err(ConfigParseError::UnrecognizedGlyph('\u{20ac}'))
    ));
}
