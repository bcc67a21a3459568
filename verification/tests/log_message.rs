use xiv_emote_parser::log_message::condition::{
    Character, Condition, DynamicText, DynamicTextAnswer, Gender, LogMessageAnswers,
    LogMessageAnswersError,
};
use xiv_emote_parser::log_message::ast::types::{EmoteTextProcessError, FuncName, Function, Param};
use xiv_emote_parser::log_message::parser::LogMessageParser;
use xiv_emote_parser::log_message::{extract_condition_texts, process_log_message, EmoteTextError};

#[test]
fn can_parse_en() {
    let log_msg = "<Clickable(<If(Equal(ObjectParameter(1),ObjectParameter(2)))>you<Else/><If(PlayerParameter(7))><SheetEn(ObjStr,2,PlayerParameter(7),1,1)/><Else/>ObjectParameter(2)</If></If>)/> <If(Equal(ObjectParameter(1),ObjectParameter(2)))>look<Else/>looks</If> at <If(Equal(ObjectParameter(1),ObjectParameter(3)))><If(PlayerParameter(8))><SheetEn(ObjStr,2,PlayerParameter(8),1,1)/><Else/>you</If><Else/><If(PlayerParameter(8))><SheetEn(ObjStr,2,PlayerParameter(8),1,1)/><Else/>ObjectParameter(3)</If></If> in surprise.";

    let message = LogMessageParser::message(log_msg);
    println!("{:#?}", message);

    assert!(message.is_ok(), "did not parse correctly");
}

#[test]
fn can_parse_jp() {
    let log_msg = "<If(PlayerParameter(7))><Sheet(ObjStr,PlayerParameter(7),0)/><Else/>ObjectParameter(2)</If>はおどろいた。";

    let message = LogMessageParser::message(log_msg);
    println!("{:#?}", message);

    assert!(message.is_ok(), "did not parse correctly");
}

#[test]
fn can_parse_en_with_ast() {
    let log_msg = "<Clickable(<If(Equal(ObjectParameter(1),ObjectParameter(2)))>you<Else/><If(PlayerParameter(7))><SheetEn(ObjStr,2,PlayerParameter(7),1,1)/><Else/>ObjectParameter(2)</If></If>)/> <If(Equal(ObjectParameter(1),ObjectParameter(2)))>look<Else/>looks</If> at <If(Equal(ObjectParameter(1),ObjectParameter(3)))><If(PlayerParameter(8))><SheetEn(ObjStr,2,PlayerParameter(8),1,1)/><Else/>you</If><Else/><If(PlayerParameter(8))><SheetEn(ObjStr,2,PlayerParameter(8),1,1)/><Else/>ObjectParameter(3)</If></If> in surprise.";

    let origin = Character::new("K'haldru Alaba", Gender::Female, true, true);
    let target = Character::new("Puruo Jelly", Gender::Male, true, false);
    let text = process_log_message(log_msg, &LogMessageAnswers::new(origin, target).unwrap());
    println!("{:?}", text);
    assert!(text.is_ok());
}

#[test]
fn log_message_can_parse_en_with_ast() {
    let log_msg = "<Clickable(<If(Equal(ObjectParameter(1),ObjectParameter(2)))>you<Else/><If(PlayerParameter(7))><SheetEn(ObjStr,2,PlayerParameter(7),1,1)/><Else/>ObjectParameter(2)</If></If>)/> <If(Equal(ObjectParameter(1),ObjectParameter(2)))>look<Else/>looks</If> at <If(Equal(ObjectParameter(1),ObjectParameter(3)))><If(PlayerParameter(8))><SheetEn(ObjStr,2,PlayerParameter(8),1,1)/><Else/>you</If><Else/><If(PlayerParameter(8))><SheetEn(ObjStr,2,PlayerParameter(8),1,1)/><Else/>ObjectParameter(3)</If></If> in surprise.";

    let origin = Character::new("K'haldru Alaba", Gender::Female, true, true);
    let target = Character::new("Puruo Jelly", Gender::Male, true, false);
    let answers = LogMessageAnswers::new(origin, target).unwrap();
    let text = process_log_message(log_msg, &answers);

    println!("{}", text.expect("did not parse correctly"));
}

#[test]
fn can_parse_en_with_ast_gendered_speaker() {
    let log_msg = "<Clickable(<If(Equal(ObjectParameter(1),ObjectParameter(2)))>you<Else/><If(PlayerParameter(7))><SheetEn(ObjStr,2,PlayerParameter(7),1,1)/><Else/>ObjectParameter(2)</If></If>)/> <If(Equal(ObjectParameter(1),ObjectParameter(2)))>express<Else/>expresses</If> <If(Equal(ObjectParameter(1),ObjectParameter(2)))>your<Else/><If(PlayerParameter(7))><If(<Sheet(BNpcName,PlayerParameter(7),6)/>)>her<Else/>his</If><Else/><If(PlayerParameter(5))>her<Else/>his</If></If></If> annoyance with <If(Equal(ObjectParameter(1),ObjectParameter(3)))><If(PlayerParameter(8))><SheetEn(ObjStr,2,PlayerParameter(8),1,1)/><Else/>you</If><Else/><If(PlayerParameter(8))><SheetEn(ObjStr,2,PlayerParameter(8),1,1)/><Else/>ObjectParameter(3)</If></If>.";

    let origin = Character::new("K'haldru Alaba", Gender::Female, true, true);
    let target = Character::new("Puruo Jelly", Gender::Male, true, false);
    let text = process_log_message(log_msg, &LogMessageAnswers::new(origin, target).unwrap());
    println!("{:?}", text);
    assert!(text.is_ok());
}

#[test]
fn log_message_can_parse_en_with_ast_gendered_speaker() {
    let log_msg = "<Clickable(<If(Equal(ObjectParameter(1),ObjectParameter(2)))>you<Else/><If(PlayerParameter(7))><SheetEn(ObjStr,2,PlayerParameter(7),1,1)/><Else/>ObjectParameter(2)</If></If>)/> <If(Equal(ObjectParameter(1),ObjectParameter(2)))>express<Else/>expresses</If> <If(Equal(ObjectParameter(1),ObjectParameter(2)))>your<Else/><If(PlayerParameter(7))><If(<Sheet(BNpcName,PlayerParameter(7),6)/>)>her<Else/>his</If><Else/><If(PlayerParameter(5))>her<Else/>his</If></If></If> annoyance with <If(Equal(ObjectParameter(1),ObjectParameter(3)))><If(PlayerParameter(8))><SheetEn(ObjStr,2,PlayerParameter(8),1,1)/><Else/>you</If><Else/><If(PlayerParameter(8))><SheetEn(ObjStr,2,PlayerParameter(8),1,1)/><Else/>ObjectParameter(3)</If></If>.";

    let origin = Character::new("K'haldru Alaba", Gender::Female, true, true);
    let target = Character::new("Puruo Jelly", Gender::Male, true, false);
    let answers = LogMessageAnswers::new(origin, target).unwrap();
    let text = process_log_message(log_msg, &answers);

    println!("{}", text.expect("did not parse correctly"));
}

#[test]
fn can_parse_en_cry() {
    let log_msg = "<Clickable(<If(Equal(ObjectParameter(1),ObjectParameter(2)))>your<Else/><If(Equal(ObjectParameter(1),ObjectParameter(2)))>you<Else/><If(PlayerParameter(7))><SheetEn(ObjStr,2,PlayerParameter(7),1,1)/><Else/>ObjectParameter(2)</If></If>'s</If>)/> eyes brim over with tears.";

    let origin = Character::new("K'haldru Alaba", Gender::Female, true, true);
    let target = Character::new("Puruo Jelly", Gender::Male, true, false);
    let text = process_log_message(log_msg, &LogMessageAnswers::new(origin, target).unwrap());
    println!("{:?}", text);
    assert!(text.is_ok());
}

// ---------------------------------------------------------------------------
// Exact output values.
// ---------------------------------------------------------------------------

fn self_answers() -> LogMessageAnswers {
    let origin = Character::new("K'haldru Alaba", Gender::Female, true, true);
    let target = Character::new("Puruo Jelly", Gender::Male, true, false);
    LogMessageAnswers::new(origin, target).unwrap()
}

fn other_answers() -> LogMessageAnswers {
    let origin = Character::new("K'haldru Alaba", Gender::Female, true, false);
    let target = Character::new("Puruo Jelly", Gender::Male, true, false);
    LogMessageAnswers::new(origin, target).unwrap()
}

#[test]
fn evaluates_en_surprise_exactly() {
    let log_msg = "<Clickable(<If(Equal(ObjectParameter(1),ObjectParameter(2)))>you<Else/><If(PlayerParameter(7))><SheetEn(ObjStr,2,PlayerParameter(7),1,1)/><Else/>ObjectParameter(2)</If></If>)/> <If(Equal(ObjectParameter(1),ObjectParameter(2)))>look<Else/>looks</If> at <If(Equal(ObjectParameter(1),ObjectParameter(3)))><If(PlayerParameter(8))><SheetEn(ObjStr,2,PlayerParameter(8),1,1)/><Else/>you</If><Else/><If(PlayerParameter(8))><SheetEn(ObjStr,2,PlayerParameter(8),1,1)/><Else/>ObjectParameter(3)</If></If> in surprise.";

    let text = process_log_message(log_msg, &self_answers()).unwrap();
    assert_eq!(text, "you look at Puruo Jelly in surprise.");

    let text = process_log_message(log_msg, &other_answers()).unwrap();
    assert_eq!(text, "K'haldru Alaba looks at Puruo Jelly in surprise.");
}

#[test]
fn evaluates_if_else_waves() {
    let log_msg = "<If(Equal(ObjectParameter(1),ObjectParameter(2)))>you<Else/>them</If> waves.";

    let text = process_log_message(log_msg, &self_answers()).unwrap();
    assert_eq!(text, "you waves.");

    let text = process_log_message(log_msg, &other_answers()).unwrap();
    assert_eq!(text, "them waves.");
}

#[test]
fn evaluates_npc_origin_name() {
    let log_msg = "<If(PlayerParameter(7))><Sheet(ObjStr,PlayerParameter(7),0)/><Else/>ObjectParameter(2)</If>はおどろいた。";

    let origin = Character::new("Nanamo Ul Namo", Gender::Female, false, false);
    let target = Character::new("Puruo Jelly", Gender::Male, true, false);
    let answers = LogMessageAnswers::new(origin, target).unwrap();
    let text = process_log_message(log_msg, &answers).unwrap();
    assert_eq!(text, "Nanamo Ul Namoはおどろいた。");
}

#[test]
fn evaluates_bare_dynamic_leaf() {
    let log_msg = "<If(PlayerParameter(7))><SheetEn(ObjStr,2,PlayerParameter(7),1,1)/><Else/>ObjectParameter(2)</If>";

    let origin = Character::new("Puruo Jelly", Gender::Male, false, false);
    let target = Character::new("K'haldru Alaba", Gender::Female, true, false);
    let answers = LogMessageAnswers::new(origin, target).unwrap();
    let text = process_log_message(log_msg, &answers).unwrap();
    assert_eq!(text, "Puruo Jelly");

    assert_eq!(answers.as_string(&DynamicText::NpcOriginName), "Puruo Jelly");
}

#[test]
fn evaluates_sheet_objstr_origin_name() {
    let log_msg = "<Sheet(ObjStr,PlayerParameter(7),0)/>";

    let origin = Character::new("K'haldru Alaba", Gender::Female, true, true);
    let target = Character::new("Puruo Jelly", Gender::Male, true, false);
    let answers = LogMessageAnswers::new(origin, target).unwrap();
    let text = process_log_message(log_msg, &answers).unwrap();
    assert_eq!(text, "K'haldru Alaba");
}

#[test]
fn preserves_source_order() {
    let log_msg = "a<If(PlayerParameter(7))>b<Else/>c</If>d";

    let text = process_log_message(log_msg, &self_answers()).unwrap();
    assert_eq!(text, "abd");

    let origin = Character::new("Nanamo Ul Namo", Gender::Female, false, false);
    let target = Character::new("Puruo Jelly", Gender::Male, true, false);
    let answers = LogMessageAnswers::new(origin, target).unwrap();
    let text = process_log_message(log_msg, &answers).unwrap();
    assert_eq!(text, "acd");
}

#[test]
fn pure_text_round_trips() {
    let log_msg = "Hello, world! ObjectParameter(2) stays text at top level.";
    let text = process_log_message(log_msg, &self_answers()).unwrap();
    assert_eq!(text, log_msg);

    let empty = process_log_message("", &self_answers()).unwrap();
    assert_eq!(empty, "");
}

#[test]
fn reduction_is_idempotent() {
    let log_msg = "<If(Equal(ObjectParameter(1),ObjectParameter(2)))>you<Else/>them</If> waves.";

    let first = extract_condition_texts(log_msg).unwrap();
    let second = extract_condition_texts(log_msg).unwrap();
    assert_eq!(first, second);

    let answers = self_answers();
    let out1 = first.evaluate(&answers);
    let out2 = first.evaluate(&answers);
    assert_eq!(out1, out2);
    assert_eq!(out1, second.evaluate(&answers));
}

// ---------------------------------------------------------------------------
// Errors.
// ---------------------------------------------------------------------------

#[test]
fn multiple_selves_is_rejected() {
    let origin = Character::new("K'haldru Alaba", Gender::Female, true, true);
    let target = Character::new("Puruo Jelly", Gender::Male, true, true);
    let r = LogMessageAnswers::new(origin, target);
    assert!(matches!(r, Err(LogMessageAnswersError::MultipleSelves)));
}

#[test]
fn same_character_twice_as_self_is_accepted() {
    let origin = Character::new("K'haldru Alaba", Gender::Female, true, true);
    let target = Character::new("K'haldru Alaba", Gender::Female, true, true);
    assert!(LogMessageAnswers::new(origin, target).is_ok());
}

#[test]
fn unclosed_clickable_is_rejected() {
    let r = process_log_message("<Clickable>", &self_answers());
    assert!(matches!(r, Err(EmoteTextError::ParseError(_))));
}

#[test]
fn unknown_tag_is_rejected() {
    let r = process_log_message("<Bogus/>", &self_answers());
    assert!(matches!(r, Err(EmoteTextError::ParseError(_))));
}

#[test]
fn oversized_number_is_rejected() {
    let r = process_log_message("<Clickable(99999999999)/>", &self_answers());
    assert!(matches!(r, Err(EmoteTextError::ParseError(_))));
}

#[test]
fn unknown_condition_shape_is_rejected() {
    let r = process_log_message("<If(PlayerParameter(9))>a<Else/>b</If>", &self_answers());
    assert!(matches!(
        r,
        Err(EmoteTextError::ProcessError(EmoteTextProcessError::ConditionError(_)))
    ));
}

#[test]
fn unknown_dynamic_text_shape_is_rejected() {
    let r = process_log_message("<Sheet(ObjStr,PlayerParameter(9),0)/>", &self_answers());
    assert!(matches!(
        r,
        Err(EmoteTextError::ProcessError(EmoteTextProcessError::DynamicTextError(_)))
    ));
}

#[test]
fn dangling_function_is_rejected() {
    let r = process_log_message(
        "<If(PlayerParameter(7))>PlayerParameter(7)<Else/>b</If>",
        &self_answers(),
    );
    assert!(matches!(
        r,
        Err(EmoteTextError::ProcessError(EmoteTextProcessError::DanglingFunction { .. }))
    ));
}

#[test]
fn object_literal_leaf_is_rejected() {
    let r = process_log_message("<Clickable(ObjStr)/>", &self_answers());
    assert!(matches!(
        r,
        Err(EmoteTextError::ProcessError(EmoteTextProcessError::UnexpectedObj { .. }))
    ));
}

#[test]
fn number_leaf_is_rejected() {
    let r = process_log_message("<Clickable(5)/>", &self_answers());
    assert!(matches!(
        r,
        Err(EmoteTextError::ProcessError(EmoteTextProcessError::UnexpectedNum { .. }))
    ));
}

// ---------------------------------------------------------------------------
// The semantic table, called directly.
// ---------------------------------------------------------------------------

#[test]
fn resolves_condition_shapes() {
    let op = |n: u32| {
        Param::Function(Function { name: FuncName::ObjectParameter, params: vec![Param::Num(n)] })
    };
    let equal_12 = Function { name: FuncName::Equal, params: vec![op(1), op(2)] };
    assert!(matches!(Condition::try_from_function(&equal_12), Ok(Condition::IsSelfOrigin)));

    let equal_13 = Function { name: FuncName::Equal, params: vec![op(1), op(3)] };
    assert!(matches!(Condition::try_from_function(&equal_13), Ok(Condition::IsSelfTarget)));

    let pp7 = Function { name: FuncName::PlayerParameter, params: vec![Param::Num(7)] };
    assert!(matches!(Condition::try_from_function(&pp7), Ok(Condition::IsOriginPlayer)));

    let pp9 = Function { name: FuncName::PlayerParameter, params: vec![Param::Num(9)] };
    assert!(Condition::try_from_function(&pp9).is_err());

    let equal_21 = Function { name: FuncName::Equal, params: vec![op(2), op(1)] };
    assert!(Condition::try_from_function(&equal_21).is_err());
}

#[test]
fn resolves_dynamic_text_shapes() {
    let op2 = Function { name: FuncName::ObjectParameter, params: vec![Param::Num(2)] };
    assert!(matches!(
        DynamicText::try_from_function(op2),
        Ok(DynamicText::NpcOriginName)
    ));

    let op3 = Function { name: FuncName::ObjectParameter, params: vec![Param::Num(3)] };
    assert!(matches!(
        DynamicText::try_from_function(op3),
        Ok(DynamicText::NpcTargetName)
    ));

    let op4 = Function { name: FuncName::ObjectParameter, params: vec![Param::Num(4)] };
    assert!(DynamicText::try_from_function(op4).is_err());
}
