use xiv_emote_parser::repository::{
    xivapi, Language, LogMessageData, LogMessagePair, LogMessageRepository,
    LogMessageRepositoryError,
};

fn pair(t: &str, u: &str) -> LogMessagePair {
    LogMessagePair { targeted: t.to_string(), untargeted: u.to_string() }
}

fn sample_data() -> Vec<LogMessageData> {
    vec![
        LogMessageData {
            id: 5,
            name: "wave".to_string(),
            commands: vec!["/wave".to_string(), "/w".to_string()],
            en: pair("waves to target", "waves"),
            ja: pair("に手を振る", "手を振る"),
        },
        LogMessageData {
            id: 3,
            name: "cry".to_string(),
            commands: vec!["/cry".to_string()],
            en: pair("cries at target", "cries"),
            ja: pair("に泣く", "泣く"),
        },
    ]
}

#[test]
fn from_data_lookups() {
    let repo = LogMessageRepository::from_data(sample_data());
    assert_eq!(repo.targeted("/wave", Language::En).unwrap(), "waves to target");
    assert_eq!(repo.untargeted("/wave", Language::En).unwrap(), "waves");
    assert_eq!(repo.targeted("/w", Language::Ja).unwrap(), "に手を振る");
    assert_eq!(repo.untargeted("/cry", Language::Ja).unwrap(), "泣く");
    assert_eq!(repo.messages("/cry").unwrap().name, "cry");
}

#[test]
fn missing_command_is_not_found() {
    let repo = LogMessageRepository::from_data(sample_data());
    assert!(matches!(
        repo.targeted("/nope", Language::En),
        Err(LogMessageRepositoryError::NotFound)
    ));
    assert!(matches!(
        repo.untargeted("/nope", Language::Ja),
        Err(LogMessageRepositoryError::NotFound)
    ));
    assert!(matches!(repo.messages("/nope"), Err(LogMessageRepositoryError::NotFound)));
    assert!(!repo.contains_emote("/nope"));
    assert_eq!(repo.find_emote_id("/nope"), None);
}

#[test]
fn contains_and_ids() {
    let repo = LogMessageRepository::from_data(sample_data());
    assert!(repo.contains_emote("/wave"));
    assert!(repo.contains_emote("/w"));
    assert_eq!(repo.find_emote_id("/wave"), Some(5));
    assert_eq!(repo.find_emote_id("/cry"), Some(3));
}

#[test]
fn emote_lists() {
    let repo = LogMessageRepository::from_data(sample_data());
    let mut all = repo.emote_list();
    all.sort();
    assert_eq!(all, vec!["/cry".to_string(), "/w".to_string(), "/wave".to_string()]);

    let by_id = repo.emote_list_by_id();
    assert_eq!(by_id.len(), 3);
    // "/cry" has id 3, the wave aliases id 5
    assert_eq!(by_id[0], "/cry");
    let mut tail = vec![by_id[1].clone(), by_id[2].clone()];
    tail.sort();
    assert_eq!(tail, vec!["/w".to_string(), "/wave".to_string()]);
}

#[test]
fn all_messages_returns_each_entry() {
    let repo = LogMessageRepository::from_data(sample_data());
    assert_eq!(repo.all_messages().len(), 3);
    assert_eq!(repo.messages_map().len(), 3);
}

#[test]
fn later_data_overwrites_earlier() {
    let mut data = sample_data();
    data.push(LogMessageData {
        id: 9,
        name: "wave2".to_string(),
        commands: vec!["/wave".to_string()],
        en: pair("waves again", "waves once more"),
        ja: pair("again", "once more"),
    });
    let repo = LogMessageRepository::from_data(data);
    assert_eq!(repo.find_emote_id("/wave"), Some(9));
    assert_eq!(repo.targeted("/wave", Language::En).unwrap(), "waves again");
    // the other alias of the old record is untouched
    assert_eq!(repo.find_emote_id("/w"), Some(5));
    assert_eq!(repo.messages_map().len(), 3);
}

fn raw_record(
    id: Option<u32>,
    name: Option<&str>,
    aliases: [Option<&str>; 4],
) -> xivapi::EmoteData {
    xivapi::EmoteData {
        log_message_targeted: Some(xivapi::LogMessageData {
            text_en: "targeted en".to_string(),
            text_ja: "targeted ja".to_string(),
        }),
        log_message_untargeted: Some(xivapi::LogMessageData {
            text_en: "untargeted en".to_string(),
            text_ja: "untargeted ja".to_string(),
        }),
        text_command: Some(xivapi::TextCommand {
            alias_en: aliases[0].map(|s| s.to_string()),
            alias_ja: aliases[1].map(|s| s.to_string()),
            command_en: aliases[2].map(|s| s.to_string()),
            command_ja: aliases[3].map(|s| s.to_string()),
        }),
        name: name.map(|s| s.to_string()),
        id,
    }
}

#[test]
fn parse_xivapi_binds_nonempty_aliases() {
    let results = vec![raw_record(Some(7), Some("bow"), [Some("/bow"), Some(""), Some("/vow"), None])];
    let entries = LogMessageRepository::parse_xivapi(results);
    let repo = LogMessageRepository::new(entries, Vec::new());
    assert!(repo.contains_emote("/bow"));
    assert!(repo.contains_emote("/vow"));
    assert!(!repo.contains_emote(""));
    assert_eq!(repo.find_emote_id("/bow"), Some(7));
    assert_eq!(repo.targeted("/bow", Language::En).unwrap(), "targeted en");
    assert_eq!(repo.untargeted("/bow", Language::Ja).unwrap(), "untargeted ja");
}

#[test]
fn parse_xivapi_skips_incomplete_records() {
    let results = vec![
        raw_record(None, Some("broken"), [Some("/broken"), None, None, None]),
        raw_record(Some(2), None, [Some("/nameless"), None, None, None]),
        raw_record(Some(4), Some("ok"), [Some("/ok"), None, None, None]),
    ];
    let entries = LogMessageRepository::parse_xivapi(results);
    let repo = LogMessageRepository::new(entries, Vec::new());
    assert!(!repo.contains_emote("/broken"));
    assert!(!repo.contains_emote("/nameless"));
    assert!(repo.contains_emote("/ok"));
}

#[test]
fn prep_xivapi_query_contents() {
    let q = LogMessageRepository::prep_xivapi_query(None);
    assert_eq!(q.len(), 2);
    assert_eq!(q[0], ("snake_case".to_string(), "1".to_string()));
    assert_eq!(
        q[1],
        (
            "columns".to_string(),
            "LogMessageTargeted,LogMessageUntargeted,Name,TextCommand,ID".to_string()
        )
    );

    let q = LogMessageRepository::prep_xivapi_query(Some("test-key".to_string()));
    assert_eq!(q.len(), 3);
    assert_eq!(q[2].0, "private_key");
    assert_eq!(q[2].1, "test-key");
}

#[test]
fn query_is_stored() {
    let mut repo = LogMessageRepository::from_data(sample_data());
    assert_eq!(repo.xivapi_query().len(), 0);
    repo.set_xivapi_query(LogMessageRepository::prep_xivapi_query(None));
    assert_eq!(repo.xivapi_query().len(), 2);
    assert!(repo.contains_emote("/wave"));
}
