use rustboss::config::Config;

fn args_of(list: &[&str]) -> Vec<String> {
    list.iter().map(|s| s.to_string()).collect()
}

#[test]
fn build_parses_all_fields() {
    let args = args_of(&["prog", "2", "3", "1", "1", "false"]);
    let c = Config::build(&args).unwrap();
    assert_eq!(c.get_ready, 2);
    assert_eq!(c.first, 3);
    assert_eq!(c.second, 1);
    assert_eq!(c.rounds, 1);
    assert!(!c.one_shot);
}

#[test]
fn build_trims_blanks() {
    let args = args_of(&["prog", " 10 ", "\t20", "30\n", " 5\r\n", " true "]);
    let c = Config::build(&args).unwrap();
    assert_eq!(c.get_ready, 10);
    assert_eq!(c.first, 20);
    assert_eq!(c.second, 30);
    assert_eq!(c.rounds, 5);
    assert!(c.one_shot);
}

#[test]
fn build_rejects_missing_arguments() {
    let args = args_of(&["prog", "1", "2", "3", "4"]);
    let e = Config::build(&args).unwrap_err();
    assert_eq!(e.msg, "not enough arguments");
}

#[test]
fn build_ignores_extra_arguments() {
    let args = args_of(&["prog", "1", "2", "3", "4", "true", "ignored"]);
    assert!(Config::build(&args).is_ok());
}

#[test]
fn build_rejects_bad_integer() {
    let args = args_of(&["prog", "two", "3", "1", "1", "false"]);
    let e = Config::build(&args).unwrap_err();
    assert_eq!(e.msg, "invalid get_ready seconds");
}

#[test]
fn build_rejects_negative_number() {
    let args = args_of(&["prog", "1", "-3", "1", "1", "false"]);
    let e = Config::build(&args).unwrap_err();
    assert_eq!(e.msg, "invalid first timer seconds");
}

#[test]
fn build_rejects_bad_bool() {
    let args = args_of(&["prog", "1", "2", "3", "4", "yes"]);
    let e = Config::build(&args).unwrap_err();
    assert_eq!(e.msg, "invalid one_shot flag");
}

#[test]
fn build_accepts_u32_max_duration() {
    let args = args_of(&["prog", "4294967295", "0", "0", "1", "false"]);
    let c = Config::build(&args).unwrap();
    assert_eq!(c.get_ready, u32::MAX);
}

#[test]
fn build_rejects_duration_overflow() {
    let args = args_of(&["prog", "4294967296", "0", "0", "1", "false"]);
    let e = Config::build(&args).unwrap_err();
    assert_eq!(e.msg, "invalid get_ready seconds");
}

#[test]
fn build_accepts_u16_max_rounds() {
    let args = args_of(&["prog", "0", "1", "1", "65535", "false"]);
    let c = Config::build(&args).unwrap();
    assert_eq!(c.rounds, 65535);
}

#[test]
fn build_rejects_rounds_overflow() {
    let args = args_of(&["prog", "0", "1", "1", "65536", "false"]);
    let e = Config::build(&args).unwrap_err();
    assert_eq!(e.msg, "invalid rounds");
}

#[test]
fn build_rejects_zero_rounds() {
    let args = args_of(&["prog", "0", "1", "1", "0", "false"]);
    let e = Config::build(&args).unwrap_err();
    assert_eq!(e.msg, "rounds must be at least 1");
}

#[test]
fn build_rejects_empty_numeral() {
    let args = args_of(&["prog", "  ", "1", "1", "1", "false"]);
    assert!(Config::build(&args).is_err());
}

#[test]
fn parse_uint_exact_values() {
    assert_eq!(rustboss::config::parse_uint("0", u32::MAX), Some(0));
    assert_eq!(rustboss::config::parse_uint("007", u32::MAX), Some(7));
    assert_eq!(rustboss::config::parse_uint("123456", u32::MAX), Some(123456));
    assert_eq!(rustboss::config::parse_uint("10", 9), None);
    assert_eq!(rustboss::config::parse_uint("1 2", u32::MAX), None);
    assert_eq!(rustboss::config::parse_uint("", u32::MAX), None);
}

#[test]
fn trim_blanks_exact() {
    assert_eq!(rustboss::config::trim_blanks("  a b \r\n"), "a b");
    assert_eq!(rustboss::config::trim_blanks("\t\n \r"), "");
    assert_eq!(rustboss::config::trim_blanks("x"), "x");
}

#[test]
fn parse_bool_exact() {
    assert_eq!(rustboss::config::parse_bool("true"), Some(true));
    assert_eq!(rustboss::config::parse_bool("false"), Some(false));
    assert_eq!(rustboss::config::parse_bool("True"), None);
    assert_eq!(rustboss::config::parse_bool(""), None);
}
