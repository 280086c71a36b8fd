use pepo::emote::{
    Emote, EmoteCache, EmoteCacheTrait, EmoteManager, EmoteProvider, NoneCache, TwitchProvider,
    GLOBAL_SCOPE_KEY,
};
use pepo::message::{EmoteFragment, Fragment, Parser, TextFragment};

#[test]
fn test_parse_message_empty_cache() {
    let emote_cache = NoneCache::new("test_parse_message_empty_cache".to_string());

    let msg = "this is a test message LUL with only twitch emotes".to_string();
    assert_eq!(
        Parser::parse(msg.clone(), &emote_cache),
        vec![Fragment::Text(TextFragment {
            index: 0,
            text: msg.clone()
        })]
    );
}

#[test]
fn test_parse_single_word_empty_cache() {
    let emote_cache = NoneCache::new("test_parse_single_word_empty_cache".to_string());

    let msg = "test".to_string();
    assert_eq!(
        Parser::parse(msg.clone(), &emote_cache),
        vec![Fragment::Text(TextFragment {
            index: 0,
            text: msg.clone()
        })]
    );
}

#[test]
fn test_parse_single_emote_with_cache() {
    let mut emote_cache = EmoteCache::new(
        "test_simple_emote_cache".to_string(),
        "TestProvider".to_string(),
    );

    let msg = "LUL".to_string();
    let emote = Emote {
        id: "1234".to_string(),
        name: "LUL".to_string(),
        ..Default::default()
    };

    emote_cache.set_emote(emote.name.clone(), emote.clone());

    assert_eq!(
        Parser::parse(msg.clone(), &emote_cache),
        vec![Fragment::Emote(EmoteFragment {
            index: 0,
            emote: emote.clone()
        })]
    );
}

#[test]
fn test_simple_emote_cache() {
    let mut emote_cache = EmoteCache::new(
        "test_simple_emote_cache".to_string(),
        "TestProvider".to_string(),
    );

    let msg = "this is a test message LUL with only twitch emotes".to_string();
    let emote = Emote {
        id: "1234".to_string(),
        name: "LUL".to_string(),
        ..Default::default()
    };

    emote_cache.set_emote(emote.name.clone(), emote.clone());

    assert_eq!(
        Parser::parse(msg.clone(), &emote_cache),
        vec![
            Fragment::Text(TextFragment {
                index: 0,
                text: "this is a test message ".to_string(),
            }),
            Fragment::Emote(EmoteFragment {
                index: 1,
                emote: emote.clone()
            }),
            Fragment::Text(TextFragment {
                index: 2,
                text: " with only twitch emotes".to_string(),
            })
        ]
    );
}

fn lul_cache() -> EmoteCache {
    let mut c = EmoteCache::new("scope".to_string(), "TestProvider".to_string());
    c.set_emote("LUL".to_string(), Emote { id: "1".to_string(), name: "LUL".to_string(), ..Default::default() });
    c
}

#[test]
fn parse_emote_before_punctuation() {
    let c = lul_cache();
    let r = Parser::parse("LUL!".to_string(), &c);
    assert_eq!(r.len(), 2);
    assert!(matches!(&r[0], Fragment::Emote(EmoteFragment { index: 0, .. })));
    assert_eq!(r[1], Fragment::Text(TextFragment { index: 1, text: "!".to_string() }));
}

#[test]
fn parse_trailing_separator_kept_once() {
    let c = lul_cache();
    assert_eq!(
        Parser::parse("hi there!".to_string(), &c),
        vec![Fragment::Text(TextFragment { index: 0, text: "hi there!".to_string() })]
    );
}

#[test]
fn parse_empty_message() {
    let c = lul_cache();
    assert!(Parser::parse(String::new(), &c).is_empty());
}

#[test]
fn parse_emote_inside_word_is_text() {
    let c = lul_cache();
    assert_eq!(
        Parser::parse("LULW LUL".to_string(), &c),
        vec![
            Fragment::Text(TextFragment { index: 0, text: "LULW ".to_string() }),
            Fragment::Emote(EmoteFragment {
                index: 1,
                emote: Emote { id: "1".to_string(), name: "LUL".to_string(), ..Default::default() },
            }),
        ]
    );
}

#[test]
fn cache_replaces_and_reports() {
    let mut c = lul_cache();
    assert!(c.has_emote("LUL".to_string()));
    assert!(!c.has_emote("Kappa".to_string()));
    c.set_emote("LUL".to_string(), Emote { id: "2".to_string(), ..Default::default() });
    assert_eq!(c.get_emote("LUL".to_string()).unwrap().id, "2");
    assert_eq!(c.name(), "TestProvider:scope");
    assert_eq!(c.providers(), vec!["TestProvider".to_string()]);
}

#[test]
fn manager_offers_global_emotes_by_provider() {
    let kappa = Emote { id: "25".to_string(), name: "Kappa".to_string(), ..Default::default() };
    let kappa2 = Emote { id: "26".to_string(), name: "Kappa".to_string(), ..Default::default() };
    let m = EmoteManager::new(vec![kappa, kappa2]);
    let c = m.get_emote_cache("123".to_string(), "TwitchProvider".to_string()).unwrap();
    assert_eq!(c.get_emote("Kappa".to_string()).unwrap().id, "26");
    assert_eq!(c.name(), format!("TwitchProvider:{GLOBAL_SCOPE_KEY}"));
    assert!(m.get_emote_cache("123".to_string(), "Other".to_string()).is_none());
    let p = TwitchProvider::new();
    assert_eq!(p.get_name(), "TwitchProvider");
    assert!(p.get_emote_cache("x".to_string()).is_none());
}

#[test]
fn none_cache_keeps_nothing() {
    let mut c = NoneCache::new("scope".to_string());
    c.set_emote("LUL".to_string(), Emote { id: "1".to_string(), ..Default::default() });
    assert!(c.get_emote("LUL".to_string()).is_none());
    assert!(!c.has_emote("LUL".to_string()));
    assert_eq!(c.name(), "NoneCache:scope");
    assert!(c.providers().is_empty());
}
