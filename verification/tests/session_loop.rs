use allergens::person::Person;
use allergens::session::{apply_remove, classify, parse_u32, run_session, step, Event, LineInput, StepResult};
use allergens::set::Allergen;
use allergens::universe::{EGGS, TMTO};

fn john() -> Person {
    Person::new((18, "John Doe", 180, 7000, Allergen::new(0)))
}

fn lines(raw: &[&str]) -> Vec<String> {
    raw.iter().map(|s| s.to_string()).collect()
}

#[test]
fn parse_u32_accepts_plain_and_signed_decimals() {
    assert_eq!(parse_u32("16"), Some(16));
    assert_eq!(parse_u32("+7"), Some(7));
    assert_eq!(parse_u32("0"), Some(0));
    assert_eq!(parse_u32("4294967295"), Some(4294967295));
}

#[test]
fn parse_u32_rejects_everything_else() {
    assert_eq!(parse_u32(""), None);
    assert_eq!(parse_u32("+"), None);
    assert_eq!(parse_u32("4294967296"), None);
    assert_eq!(parse_u32("1a"), None);
    assert_eq!(parse_u32("-1"), None);
    assert_eq!(parse_u32("1 6"), None);
}

#[test]
fn classify_prefers_numbers_then_single_characters() {
    assert_eq!(classify("17"), LineInput::Num(17));
    assert_eq!(classify("q"), LineInput::Ch('q'));
    assert_eq!(classify("+"), LineInput::Ch('+'));
    assert_eq!(classify("ab"), LineInput::Other);
    assert_eq!(classify(""), LineInput::Other);
}

#[test]
fn step_adds_a_valid_mask_silently() {
    let mut p = john();
    assert_eq!(step(&mut p, "17"), StepResult::Continue);
    assert_eq!(p.allergies.0, EGGS | TMTO);
}

#[test]
fn step_rejects_a_mask_with_no_valid_bit() {
    let mut p = john();
    assert_eq!(step(&mut p, "0"), StepResult::Invalid);
    assert_eq!(step(&mut p, "256"), StepResult::Invalid);
    assert_eq!(p.allergies.0, 0);
}

#[test]
fn step_dispatches_the_commands() {
    let mut p = john();
    assert_eq!(step(&mut p, "q"), StepResult::Quit);
    assert_eq!(step(&mut p, "c"), StepResult::NeedRemoveMask);
    assert_eq!(step(&mut p, "z"), StepResult::Continue);
    assert_eq!(step(&mut p, "howdy"), StepResult::Continue);
    assert_eq!(p.allergies.0, 0);
}

#[test]
fn step_reports_the_rendered_allergies() {
    let mut p = john();
    step(&mut p, "17");
    assert_eq!(
        step(&mut p, "a"),
        StepResult::Output("John Doe has EGGS|TMTO allergies.".to_string())
    );
}

#[test]
fn step_reports_the_profile_facts() {
    let mut p = john();
    assert_eq!(
        step(&mut p, "i"),
        StepResult::Output("John Doe: Age = 18; Height = 1.80; Weight = 70.00".to_string())
    );
}

#[test]
fn apply_remove_clears_valid_bits_and_ignores_the_rest() {
    let mut p = john();
    step(&mut p, "17");
    apply_remove(&mut p, "1");
    assert_eq!(p.allergies.0, TMTO);
    apply_remove(&mut p, "0");
    apply_remove(&mut p, "nonsense");
    assert_eq!(p.allergies.0, TMTO);
}

#[test]
fn session_reports_added_allergies() {
    let mut p = john();
    let events = run_session(&mut p, &lines(&["1", "16", "a"]));
    assert_eq!(
        events,
        vec![Event::Out("John Doe has EGGS|TMTO allergies.".to_string())]
    );
    assert_eq!(p.allergies.0, EGGS | TMTO);
}

#[test]
fn session_rejects_a_zero_mask_without_mutation() {
    let mut p = john();
    let events = run_session(&mut p, &lines(&["0"]));
    assert_eq!(events, vec![Event::Diag("Invalid option".to_string())]);
    assert_eq!(p.allergies.0, 0);
}

#[test]
fn session_removes_bits_through_the_c_command() {
    let mut p = john();
    let events = run_session(&mut p, &lines(&["17", "c", "1", "a"]));
    assert_eq!(
        events,
        vec![Event::Out("John Doe has TMTO allergies.".to_string())]
    );
    assert_eq!(p.allergies.0, TMTO);
}

#[test]
fn session_quits_at_once_on_q() {
    let mut p = john();
    let events = run_session(&mut p, &lines(&["q", "1", "a"]));
    assert_eq!(events, Vec::<Event>::new());
    assert_eq!(p.allergies.0, 0);
}

#[test]
fn session_ignores_an_invalid_removal_mask_silently() {
    let mut p = john();
    let events = run_session(&mut p, &lines(&["1", "c", "0", "a"]));
    assert_eq!(
        events,
        vec![Event::Out("John Doe has EGGS allergies.".to_string())]
    );
    assert_eq!(p.allergies.0, EGGS);
}

#[test]
fn session_ends_when_the_removal_prompt_has_no_answer() {
    let mut p = john();
    let events = run_session(&mut p, &lines(&["1", "c"]));
    assert_eq!(events, Vec::<Event>::new());
    assert_eq!(p.allergies.0, EGGS);
}

#[test]
fn session_ignores_noise_and_unknown_commands() {
    let mut p = john();
    let events = run_session(&mut p, &lines(&["z", "hello", "", "2", "a"]));
    assert_eq!(
        events,
        vec![Event::Out("John Doe has PNTS allergies.".to_string())]
    );
    assert_eq!(p.allergies.0, 2);
}

#[test]
fn session_add_is_idempotent_across_lines() {
    let mut p = john();
    run_session(&mut p, &lines(&["16", "16"]));
    assert_eq!(p.allergies.0, TMTO);
}
