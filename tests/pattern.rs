use wally_vibe::pattern::{default_pattern, parse_pattern, parse_step, pattern_or_default, PatternError, StepText};

fn tokens(v: &[StepText]) -> Vec<(String, String)> {
    v.iter().map(|t| (t.speed.clone(), t.seconds.clone())).collect()
}

fn pair(a: &str, b: &str) -> (String, String) {
    (a.to_string(), b.to_string())
}

#[test]
fn parses_two_steps_in_order() {
    let v = parse_pattern("0.5 3s/0.75 1.5s").unwrap();
    assert_eq!(tokens(&v), vec![pair("0.5", "3"), pair("0.75", "1.5")]);
    let speeds: Vec<f64> = v.iter().map(|t| t.speed.parse().unwrap()).collect();
    let secs: Vec<f64> = v.iter().map(|t| t.seconds.parse().unwrap()).collect();
    assert_eq!(speeds, vec![0.5, 0.75]);
    assert_eq!(secs, vec![3.0, 1.5]);
}

#[test]
fn parses_single_step() {
    let v = parse_pattern("1 10s").unwrap();
    assert_eq!(tokens(&v), vec![pair("1", "10")]);
}

#[test]
fn one_step_per_segment() {
    let v = parse_pattern("0.1 1s/0.2 2s/0.3 3s/0.4 4s").unwrap();
    assert_eq!(v.len(), 4);
    assert_eq!(tokens(&v)[3], pair("0.4", "4"));
}

#[test]
fn splits_at_first_space_only() {
    let v = parse_pattern("0.5 1 2s").unwrap();
    assert_eq!(tokens(&v), vec![pair("0.5", "1 2")]);
}

#[test]
fn out_of_range_speed_passes_through() {
    let v = parse_pattern("2.5 1s").unwrap();
    assert_eq!(tokens(&v), vec![pair("2.5", "1")]);
}

#[test]
fn missing_space_is_rejected() {
    assert_eq!(parse_pattern("0.53s").unwrap_err(), PatternError::MissingSpace);
    assert_eq!(parse_pattern("0.5 3s/0.751.5s").unwrap_err(), PatternError::MissingSpace);
}

#[test]
fn missing_suffix_is_rejected() {
    assert_eq!(parse_pattern("0.5 3").unwrap_err(), PatternError::MissingSuffix);
    assert_eq!(parse_pattern("0.5 3s/0.75 1.5").unwrap_err(), PatternError::MissingSuffix);
}

#[test]
fn empty_text_is_rejected() {
    assert_eq!(parse_pattern("").unwrap_err(), PatternError::MissingSpace);
    assert_eq!(parse_pattern("0.5 3s/").unwrap_err(), PatternError::MissingSpace);
}

#[test]
fn first_bad_segment_decides_the_error() {
    assert_eq!(parse_pattern("0.5 3/0.75").unwrap_err(), PatternError::MissingSuffix);
    assert_eq!(parse_pattern("0.5/0.75 1").unwrap_err(), PatternError::MissingSpace);
}

#[test]
fn step_tokens() {
    let t = parse_step("0.25 0.5s").unwrap();
    assert_eq!(t.speed, "0.25");
    assert_eq!(t.seconds, "0.5");
    assert_eq!(parse_step("x").unwrap_err(), PatternError::MissingSpace);
    assert_eq!(parse_step("x y").unwrap_err(), PatternError::MissingSuffix);
}

#[test]
fn default_is_full_speed_for_three_seconds() {
    let v = default_pattern();
    assert_eq!(tokens(&v), vec![pair("1.0", "3")]);
    assert_eq!(v[0].speed.parse::<f64>().unwrap(), 1.0);
    assert_eq!(v[0].seconds.parse::<f64>().unwrap(), 3.0);
}

#[test]
fn bad_or_absent_text_falls_back_to_default() {
    assert_eq!(tokens(&pattern_or_default(None)), vec![pair("1.0", "3")]);
    assert_eq!(tokens(&pattern_or_default(Some("0.5 3"))), vec![pair("1.0", "3")]);
    assert_eq!(tokens(&pattern_or_default(Some("fast"))), vec![pair("1.0", "3")]);
    assert_eq!(tokens(&pattern_or_default(Some("0.5 2s"))), vec![pair("0.5", "2")]);
}

#[test]
fn parsing_twice_gives_equal_steps() {
    let a = parse_pattern("0.5 3s/0.75 1.5s").unwrap();
    let b = parse_pattern("0.5 3s/0.75 1.5s").unwrap();
    assert_eq!(tokens(&a), tokens(&b));
}
