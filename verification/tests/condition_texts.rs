use xiv_emote_parser::log_message::ast::condition_texts::ConditionTexts;
use xiv_emote_parser::log_message::ast::types::{ConditionText, Text};
use xiv_emote_parser::log_message::condition::{
    Character, DynamicTextAnswer, Gender, LogMessageAnswers,
};
use xiv_emote_parser::log_message::extract_condition_texts;
use xiv_emote_parser::log_message::parser::LogMessageParser;

const WAVES: &str = "<If(Equal(ObjectParameter(1),ObjectParameter(2)))>you<Else/>them</If> waves.";

fn answers(origin_is_self: bool) -> LogMessageAnswers {
    let origin = Character::new("K'haldru Alaba", Gender::Female, true, origin_is_self);
    let target = Character::new("Puruo Jelly", Gender::Male, true, false);
    LogMessageAnswers::new(origin, target).unwrap()
}

fn text_to_string(a: &LogMessageAnswers, t: &Text) -> String {
    match t {
        Text::Dynamic(d) => a.as_string(d),
        Text::Static(s) => s.clone(),
    }
}

#[test]
fn process_string_reduces_once() {
    let message = LogMessageParser::message(WAVES).unwrap();
    let condition_texts = message.process_string().unwrap();
    // one entry per branch leaf plus the trailing text
    assert_eq!(condition_texts.len(), 3);
}

#[test]
fn evaluate_selects_one_branch() {
    let condition_texts = extract_condition_texts(WAVES).unwrap();
    assert_eq!(condition_texts.evaluate(&answers(true)), "you waves.");
    assert_eq!(condition_texts.evaluate(&answers(false)), "them waves.");
}

#[test]
fn map_texts_collects_selected() {
    let condition_texts = extract_condition_texts(WAVES).unwrap();
    let a = answers(true);
    let parts: Vec<String> = condition_texts.map_texts(&a, |t: &Text| text_to_string(&a, t));
    assert_eq!(parts, vec!["you".to_string(), " waves.".to_string()]);
}

#[test]
fn map_texts_mut_collects_with_state() {
    let condition_texts = extract_condition_texts(WAVES).unwrap();
    let a = answers(false);
    let parts: Vec<usize> = condition_texts.map_texts_mut(&a, |t: &Text| match t {
        Text::Static(s) => s.len(),
        Text::Dynamic(_) => 0,
    });
    assert_eq!(parts, vec!["them".len(), " waves.".len()]);
}

#[test]
fn filter_map_texts_keeps_some() {
    let condition_texts = extract_condition_texts(WAVES).unwrap();
    let a = answers(false);
    let kept: Vec<String> = condition_texts.filter_map_texts(&a, |t: &Text| match t {
        Text::Static(s) if s.starts_with(' ') => Some(s.clone()),
        _ => None,
    });
    assert_eq!(kept, vec![" waves.".to_string()]);
}

#[test]
fn filter_map_texts_mut_keeps_some() {
    let condition_texts = extract_condition_texts(WAVES).unwrap();
    let a = answers(true);
    let kept: Vec<String> = condition_texts.filter_map_texts_mut(&a, |t: &Text| match t {
        Text::Static(s) if !s.starts_with(' ') => Some(s.clone()),
        _ => None,
    });
    assert_eq!(kept, vec!["you".to_string()]);
}

#[test]
fn into_map_texts_consumes() {
    let condition_texts = extract_condition_texts(WAVES).unwrap();
    let a = answers(true);
    let parts: Vec<String> = condition_texts.into_map_texts(&a, |t: Text| match t {
        Text::Static(s) => s,
        Text::Dynamic(_) => String::new(),
    });
    assert_eq!(parts, vec!["you".to_string(), " waves.".to_string()]);
}

#[test]
fn into_map_texts_mut_consumes() {
    let condition_texts = extract_condition_texts(WAVES).unwrap();
    let a = answers(false);
    let parts: Vec<String> = condition_texts.into_map_texts_mut(&a, |t: Text| match t {
        Text::Static(s) => s,
        Text::Dynamic(_) => String::new(),
    });
    assert_eq!(parts, vec!["them".to_string(), " waves.".to_string()]);
}

#[test]
fn into_filter_map_texts_consumes_and_filters() {
    let condition_texts = extract_condition_texts(WAVES).unwrap();
    let a = answers(true);
    let kept: Vec<String> = condition_texts.into_filter_map_texts(&a, |t: Text| match t {
        Text::Static(s) if !s.starts_with(' ') => Some(s),
        _ => None,
    });
    assert_eq!(kept, vec!["you".to_string()]);
}

#[test]
fn into_filter_map_texts_mut_consumes_and_filters() {
    let condition_texts = extract_condition_texts(WAVES).unwrap();
    let a = answers(false);
    let kept: Vec<String> = condition_texts.into_filter_map_texts_mut(&a, |t: Text| match t {
        Text::Static(s) if s.starts_with(' ') => Some(s),
        _ => None,
    });
    assert_eq!(kept, vec![" waves.".to_string()]);
}

#[test]
fn for_each_texts_visits_selected() {
    let condition_texts = extract_condition_texts(WAVES).unwrap();
    let a = answers(true);
    // a Verus `Fn` handler cannot mutate captures, so observe through a Cell
    let count = std::cell::Cell::new(0usize);
    condition_texts.for_each_texts(&a, |_t: &Text| count.set(count.get() + 1));
    assert_eq!(count.get(), 2);
}

#[test]
fn into_for_each_texts_visits_selected() {
    let condition_texts = extract_condition_texts(WAVES).unwrap();
    let a = answers(false);
    let count = std::cell::Cell::new(0usize);
    condition_texts.into_for_each_texts(&a, |_t: Text| count.set(count.get() + 1));
    assert_eq!(count.get(), 2);
}

#[test]
fn new_and_into_inner_round_trip() {
    let condition_texts = extract_condition_texts(WAVES).unwrap();
    let entries: Vec<ConditionText> = condition_texts.clone().into_inner();
    assert_eq!(entries.len(), 3);
    let rebuilt = ConditionTexts::new(entries);
    assert_eq!(rebuilt, condition_texts);
}
