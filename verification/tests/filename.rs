use pyro::filename::{
    is_reserved_windows_name, preview_filename, render_filename_template, sanitize_filename,
    validate_filename_template, week_number_from_jan1, week_number_sunday_start, DateTimeParts,
};

fn march_15_2025() -> DateTimeParts {
    DateTimeParts {
        year: 2025,
        month: 3,
        day: 15,
        hour: 9,
        minute: 5,
        second: 7,
        ordinal: 74,
        weekday_from_monday: 6,
        iso_week: 11,
    }
}

fn jan_6_2024() -> DateTimeParts {
    DateTimeParts {
        year: 2024,
        month: 1,
        day: 6,
        hour: 0,
        minute: 0,
        second: 0,
        ordinal: 6,
        weekday_from_monday: 6,
        iso_week: 1,
    }
}

#[test]
fn renders_every_pattern_like_strftime() {
    let now = march_15_2025();
    assert_eq!(
        render_filename_template("%Y %y %C %m %d %e %H %I %M %S %j %u %V %U %F", now),
        "2025 25 20 03 15 15 09 09 05 07 074 6 11 10 2025-03-15"
    );
    assert_eq!(render_filename_template("pyro-%Y%m%d-%H%M%S", now), "pyro-20250315-090507");
    assert_eq!(render_filename_template("100%% %q", now), "100% %q");
}

#[test]
fn week_number_uses_the_weekday_of_january_first() {
    // 2024 starts on a Monday, so its first Sunday is January 7th.
    assert_eq!(week_number_sunday_start(jan_6_2024()), 0);
    let mut jan7 = jan_6_2024();
    jan7.day = 7;
    jan7.ordinal = 7;
    jan7.weekday_from_monday = 7;
    assert_eq!(week_number_sunday_start(jan7), 1);
    assert_eq!(week_number_sunday_start(march_15_2025()), 10);
    // 2023 starts on a Sunday.
    let jan1_2023 = DateTimeParts { year: 2023, month: 1, day: 1, hour: 0, minute: 0, second: 0, ordinal: 1, weekday_from_monday: 7, iso_week: 52 };
    assert_eq!(week_number_sunday_start(jan1_2023), 1);
}

#[test]
fn week_number_formula() {
    assert_eq!(week_number_from_jan1(0, 1), 1);
    assert_eq!(week_number_from_jan1(3, 4), 0);
    assert_eq!(week_number_from_jan1(3, 5), 1);
    assert_eq!(week_number_from_jan1(3, 74), 10);
}

#[test]
fn blank_rendering_becomes_capture() {
    assert_eq!(render_filename_template("   ", march_15_2025()), "capture");
}

#[test]
fn sanitizes_invalid_characters_and_reserved_names() {
    assert_eq!(sanitize_filename("a<b>c:d\"e/f\\g|h?i*j"), "a_b_c_d_e_f_g_h_i_j");
    assert_eq!(sanitize_filename("name. . "), "name");
    assert_eq!(sanitize_filename("con"), "con_");
    assert_eq!(sanitize_filename("LPT1.txt"), "LPT1.txt_");
    assert_eq!(sanitize_filename(""), "capture");
}

#[test]
fn reserved_windows_names() {
    assert!(is_reserved_windows_name("NUL"));
    assert!(is_reserved_windows_name("com3.png"));
    assert!(!is_reserved_windows_name("com0"));
    assert!(!is_reserved_windows_name("console"));
}

#[test]
fn preview_adds_png_extension() {
    let now = march_15_2025();
    assert_eq!(preview_filename("shot-%F", now), "shot-2025-03-15.png");
    assert_eq!(preview_filename("shot.jpg", now), "shot.jpg");
}

#[test]
fn filename_template_validation() {
    let now = march_15_2025();
    assert_eq!(validate_filename_template("  pyro-%Y  ", now), Ok("pyro-%Y".to_string()));
    assert_eq!(
        validate_filename_template("   ", now),
        Err("Filename pattern cannot be empty.".to_string())
    );
}

#[test]
fn week_number_before_the_common_era_follows_the_gregorian_calendar() {
    // 1 January of year -1 (2 BC) is a Friday: the first Sunday is day 3.
    let mut d = jan_6_2024();
    d.year = -1;
    d.ordinal = 2;
    assert_eq!(week_number_sunday_start(d), 0);
    d.ordinal = 3;
    assert_eq!(week_number_sunday_start(d), 1);
    d.ordinal = 365;
    assert_eq!(week_number_sunday_start(d), 52);
}
