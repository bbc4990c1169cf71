use fractal_bot::errors::BotError;
use fractal_bot::model::Achievement;
use fractal_bot::model::Daily;
use fractal_bot::model::DailySet;
use fractal_bot::model::Level;
use fractal_bot::pipeline::achievements_url;
use fractal_bot::pipeline::dailies_url;
use fractal_bot::pipeline::fractal_ids;
use fractal_bot::pipeline::ids_query;
use fractal_bot::pipeline::summarize;

fn mk_daily(id: i32) -> Daily {
    Daily { id, level: Level { min: 1, max: 80 }, required_access: Vec::new() }
}

fn mk_daily_set(fractal_ids: &[i32]) -> DailySet {
    DailySet {
        pve: Vec::new(),
        pvp: Vec::new(),
        wvw: Vec::new(),
        fractals: fractal_ids.iter().map(|&id| mk_daily(id)).collect(),
    }
}

fn mk_achievement(id: i32, name: &str) -> Achievement {
    Achievement {
        id,
        name: name.to_string(),
        description: String::new(),
        requirement: String::new(),
        locked_text: String::new(),
        kind: "Default".to_string(),
        flags: Vec::new(),
        tiers: Vec::new(),
        rewards: Vec::new(),
    }
}

#[test]
fn query_joins_ids_in_order_without_trailing_separator() {
    let ds = mk_daily_set(&[101, 102, 103, 104, 105, 106, 107, 108, 109, 110, 111, 112, 113, 114, 115]);
    let ids = fractal_ids(&ds);
    assert_eq!(ids, vec![101, 102, 103, 104, 105, 106, 107, 108, 109, 110, 111, 112, 113, 114, 115]);
    let q = ids_query(&ids);
    assert_eq!(q, "101,102,103,104,105,106,107,108,109,110,111,112,113,114,115");
}

#[test]
fn query_of_single_id_has_no_separator() {
    assert_eq!(ids_query(&vec![7]), "7");
}

#[test]
fn query_of_no_ids_is_empty() {
    assert_eq!(ids_query(&Vec::new()), "");
}

#[test]
fn query_renders_negative_and_zero_ids() {
    assert_eq!(ids_query(&vec![-5, 0, i32::MAX, i32::MIN]), "-5,0,2147483647,-2147483648");
}

#[test]
fn achievements_url_appends_the_query() {
    let url = achievements_url(&vec![1, 22, 333]);
    assert_eq!(url, "https://api.guildwars2.com/v2/achievements?ids=1,22,333");
}

#[test]
fn dailies_url_is_the_tomorrow_endpoint() {
    assert_eq!(dailies_url(), "http://api.guildwars2.com/v2/achievements/daily/tomorrow");
}

#[test]
fn summary_selects_the_fixed_indices() {
    let mut achs: Vec<Achievement> = Vec::new();
    for i in 0..15 {
        achs.push(mk_achievement(100 + i, &format!("Ach{}", i)));
    }
    let (daily, recommended) = summarize(&achs).unwrap();
    assert_eq!(daily, "Ach6, Ach10, Ach14");
    assert_eq!(recommended, "Ach0, Ach1, Ach2");
}

#[test]
fn summary_of_a_short_response_is_an_index_error() {
    let mut achs: Vec<Achievement> = Vec::new();
    for i in 0..14 {
        achs.push(mk_achievement(i, &format!("Ach{}", i)));
    }
    match summarize(&achs) {
        Err(BotError::IndexError(n)) => assert_eq!(n, 14),
        _ => panic!("a 14-element response must fail with IndexError"),
    }
}

#[test]
fn summary_of_an_empty_response_is_an_index_error() {
    match summarize(&Vec::new()) {
        Err(BotError::IndexError(n)) => assert_eq!(n, 0),
        _ => panic!("an empty response must fail with IndexError"),
    }
}

#[test]
fn error_messages_carry_the_cause() {
    assert_eq!(
        BotError::NetworkError("connection refused".to_string()).message(),
        "Network Error: connection refused"
    );
    assert_eq!(
        BotError::DecodeError("malformed daily set response".to_string()).message(),
        "Decode Error: malformed daily set response"
    );
    assert_eq!(
        BotError::IndexError(14).message(),
        "Index Error: the achievements endpoint returned 14 entries where at least 15 are required"
    );
}
