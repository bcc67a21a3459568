use xiv_emote_parser::log_message::props::{
    LogMessageProps, ObjectProp, PParam, Player, PlayerProp,
};
use xiv_emote_parser::log_message::types::Gender;

fn props() -> LogMessageProps {
    let object = ObjectProp::new("K'haldru Alaba", "Nanamo Ul Namo", Some("Puruo Jelly"));
    let origin = Player::new("Nanamo Ul Namo", "Lamia", Gender::Female);
    let target = Player::new("Puruo Jelly", "Lamia", Gender::Male);
    let player = PlayerProp::new(Some(origin), Some(target), Gender::Female);
    LogMessageProps::new(object, player)
}

#[test]
fn object_parameter_indices() {
    let p = props();
    assert_eq!(p.object_parameter(1).unwrap(), "Nanamo Ul Namo");
    assert_eq!(p.object_parameter(2).unwrap(), "K'haldru Alaba");
    assert_eq!(p.object_parameter(3).unwrap(), "Puruo Jelly");
}

#[test]
fn object_parameter_unknown_index() {
    let p = props();
    let e = p.object_parameter(4).unwrap_err();
    assert_eq!(e.name, "ObjectParameter");
    assert_eq!(e.params, vec!["4".to_string()]);

    let e = p.object_parameter(40).unwrap_err();
    assert_eq!(e.params, vec!["40".to_string()]);
}

#[test]
fn object_parameter_missing_target() {
    let object = ObjectProp::new("Me", "Origin", None::<&str>);
    let player = PlayerProp::new(None, None, Gender::Male);
    let p = LogMessageProps::new(object, player);
    let e = p.object_parameter(3).unwrap_err();
    assert_eq!(e.name, "ObjectParameter");
    assert_eq!(e.params, vec!["3".to_string()]);
}

#[test]
fn player_parameter_indices() {
    let p = props();
    match p.player_parameter(7).unwrap() {
        PParam::Player(Some(player)) => assert_eq!(player.name, "Nanamo Ul Namo"),
        other => panic!("unexpected player parameter: {:?}", other),
    }
    match p.player_parameter(8).unwrap() {
        PParam::Player(Some(player)) => assert_eq!(player.name, "Puruo Jelly"),
        other => panic!("unexpected player parameter: {:?}", other),
    }
    assert_eq!(p.player_parameter(5).unwrap(), PParam::Bool(true));
}

#[test]
fn player_parameter_unknown_index() {
    let p = props();
    let e = p.player_parameter(9).unwrap_err();
    assert_eq!(e.name, "PlayerParameter");
    assert_eq!(e.params, vec!["9".to_string()]);
}

#[test]
fn sheet_en_full_name() {
    let player = Player::new("K'haldru Alaba", "Coeurl", Gender::Female);
    let s = LogMessageProps::sheet_en(2, &player, 1, 1).unwrap();
    assert_eq!(s, "K'haldru Alaba@Coeurl");
}

#[test]
fn sheet_en_unknown_shape() {
    let player = Player::new("K'haldru Alaba", "Coeurl", Gender::Female);
    let e = LogMessageProps::sheet_en(3, &player, 1, 1).unwrap_err();
    assert_eq!(e.name, "SheetEn");
    assert_eq!(
        e.params,
        vec![
            "3".to_string(),
            "K'haldru Alaba@Coeurl (F)".to_string(),
            "1".to_string(),
            "1".to_string(),
        ]
    );
}

#[test]
fn sheet_objstr_name() {
    let player = Player::new("Puruo Jelly", "Lamia", Gender::Male);
    assert_eq!(LogMessageProps::sheet_objstr(&player, 0).unwrap(), "Puruo Jelly@Lamia");
    let e = LogMessageProps::sheet_objstr(&player, 1).unwrap_err();
    assert_eq!(e.name, "Sheet");
    assert_eq!(
        e.params,
        vec!["ObjStr".to_string(), "Puruo Jelly@Lamia (M)".to_string(), "1".to_string()]
    );
}

#[test]
fn sheet_bnpcname_gender() {
    let female = Player::new("K'haldru Alaba", "Coeurl", Gender::Female);
    let male = Player::new("Puruo Jelly", "Lamia", Gender::Male);
    assert_eq!(LogMessageProps::sheet_bnpcname(&female, 6).unwrap(), true);
    assert_eq!(LogMessageProps::sheet_bnpcname(&male, 6).unwrap(), false);
    let e = LogMessageProps::sheet_bnpcname(&male, 7).unwrap_err();
    assert_eq!(e.name, "Sheet");
    assert_eq!(
        e.params,
        vec!["BNpcName".to_string(), "Puruo Jelly@Lamia (M)".to_string(), "7".to_string()]
    );
}

#[test]
fn player_display_form() {
    let player = Player::new("K'haldru Alaba", "Coeurl", Gender::Female);
    assert_eq!(player.to_string(), "K'haldru Alaba@Coeurl (F)");
}

#[test]
fn gender_letters() {
    assert_eq!(Gender::Male.to_string(), "M");
    assert_eq!(Gender::Female.to_string(), "F");
}
