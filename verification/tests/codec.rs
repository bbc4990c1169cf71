use fractal_bot::codec::decode_achievements;
use fractal_bot::codec::decode_daily_set;
use fractal_bot::codec::encode_achievements;
use fractal_bot::codec::encode_daily_set;
use fractal_bot::dispatch::on_dailies;
use fractal_bot::dispatch::DailiesStep;
use fractal_bot::errors::BotError;
use fractal_bot::model::Achievement;
use fractal_bot::model::Daily;
use fractal_bot::model::DailySet;
use fractal_bot::model::Expansion;
use fractal_bot::model::Level;
use fractal_bot::model::RewardItem;
use fractal_bot::model::Tier;

const DAILY_SET_SAMPLE: &str = "{\"pve\":[],\"pvp\":[],\"wvw\":[{\"id\":5,\"level\":{\"min\":1,\"max\":80},\"required_access\":[\"GuildWars2\"]}],\"fractals\":[{\"id\":101,\"level\":{\"min\":1,\"max\":80},\"required_access\":[\"GuildWars2\",\"HeartOfThorns\"]},{\"id\":102,\"level\":{\"min\":-10,\"max\":0},\"required_access\":[\"PathOfFire\"]},{\"id\":103,\"level\":{\"min\":26,\"max\":50},\"required_access\":[]}]}";

const ACHIEVEMENTS_SAMPLE: &str = "[{\"id\":2891,\"name\":\"Daily Recommended Fractal 1\",\"description\":\"\",\"requirement\":\"Complete the specified fractal.\",\"locked_text\":\"\",\"type\":\"Default\",\"flags\":[\"Daily\"],\"tiers\":[{\"count\":1,\"points\":10}],\"rewards\":[{\"type\":\"Item\",\"id\":70,\"count\":2}]},{\"id\":2892,\"name\":\"Daily Fractal Tier 2\",\"description\":\"d\",\"requirement\":\"r\",\"locked_text\":\"l\",\"type\":\"Default\",\"flags\":[],\"tiers\":[{\"count\":1,\"points\":5},{\"count\":2,\"points\":10}],\"rewards\":[]}]";

#[test]
fn daily_set_round_trip_preserves_the_text() {
    let ds = decode_daily_set(DAILY_SET_SAMPLE).unwrap();
    assert_eq!(encode_daily_set(&ds), DAILY_SET_SAMPLE);
}

#[test]
fn daily_set_sample_decodes_field_by_field() {
    let ds = decode_daily_set(DAILY_SET_SAMPLE).unwrap();
    assert!(ds.pve.is_empty());
    assert!(ds.pvp.is_empty());
    assert_eq!(ds.wvw.len(), 1);
    assert_eq!(ds.wvw[0].id, 5);
    assert_eq!(ds.fractals.len(), 3);
    assert_eq!(ds.fractals[0].id, 101);
    assert_eq!(ds.fractals[0].level, Level { min: 1, max: 80 });
    assert_eq!(
        ds.fractals[0].required_access,
        vec![Expansion::GuildWars2, Expansion::HeartOfThorns]
    );
    assert_eq!(ds.fractals[1].id, 102);
    assert_eq!(ds.fractals[1].level, Level { min: -10, max: 0 });
    assert_eq!(ds.fractals[1].required_access, vec![Expansion::PathOfFire]);
    assert_eq!(ds.fractals[2].id, 103);
    assert!(ds.fractals[2].required_access.is_empty());
}

#[test]
fn achievements_round_trip_preserves_the_text() {
    let achs = decode_achievements(ACHIEVEMENTS_SAMPLE).unwrap();
    assert_eq!(encode_achievements(&achs), ACHIEVEMENTS_SAMPLE);
}

#[test]
fn achievements_sample_decodes_field_by_field() {
    let achs = decode_achievements(ACHIEVEMENTS_SAMPLE).unwrap();
    assert_eq!(achs.len(), 2);
    assert_eq!(achs[0].id, 2891);
    assert_eq!(achs[0].name, "Daily Recommended Fractal 1");
    assert_eq!(achs[0].description, "");
    assert_eq!(achs[0].requirement, "Complete the specified fractal.");
    assert_eq!(achs[0].kind, "Default");
    assert_eq!(achs[0].flags, vec!["Daily".to_string()]);
    assert_eq!(achs[0].tiers, vec![Tier { count: 1, points: 10 }]);
    assert_eq!(
        achs[0].rewards,
        vec![RewardItem { kind: "Item".to_string(), id: 70, count: 2 }]
    );
    assert_eq!(achs[1].id, 2892);
    assert_eq!(achs[1].tiers.len(), 2);
    assert!(achs[1].rewards.is_empty());
}

#[test]
fn encoding_a_built_value_decodes_back_to_it() {
    let ds = DailySet {
        pve: vec![Daily {
            id: i32::MIN,
            level: Level { min: 0, max: 2147483647 },
            required_access: vec![
                Expansion::GuildWars2,
                Expansion::HeartOfThorns,
                Expansion::PathOfFire,
            ],
        }],
        pvp: Vec::new(),
        wvw: Vec::new(),
        fractals: vec![Daily {
            id: 7,
            level: Level { min: 1, max: 9 },
            required_access: Vec::new(),
        }],
    };
    let text = encode_daily_set(&ds);
    assert_eq!(decode_daily_set(&text).unwrap(), ds);
}

#[test]
fn encoding_achievements_decodes_back_to_them() {
    let achs = vec![Achievement {
        id: 1,
        name: "A fractal of note".to_string(),
        description: "Some words".to_string(),
        requirement: "Do the thing".to_string(),
        locked_text: "".to_string(),
        kind: "Default".to_string(),
        flags: vec!["Daily".to_string(), "Pvp".to_string()],
        tiers: vec![Tier { count: 3, points: 0 }],
        rewards: vec![RewardItem { kind: "Coins".to_string(), id: -1, count: 10000 }],
    }];
    let text = encode_achievements(&achs);
    assert_eq!(decode_achievements(&text).unwrap(), achs);
}

#[test]
fn trailing_garbage_is_a_decode_error_that_names_the_position() {
    let mut text = DAILY_SET_SAMPLE.to_string();
    text.push(' ');
    match decode_daily_set(&text) {
        Err(BotError::DecodeError(t)) => {
            let expected = format!(
                "the daily set response is not in the expected wire form; parsing stopped at character {}",
                DAILY_SET_SAMPLE.chars().count()
            );
            assert_eq!(t, expected);
        },
        _ => panic!("trailing garbage must be a decode error"),
    }
}

#[test]
fn a_truncated_body_reports_where_parsing_stopped() {
    match decode_daily_set("{") {
        Err(BotError::DecodeError(t)) => assert_eq!(
            t,
            "the daily set response is not in the expected wire form; parsing stopped at character 1"
        ),
        _ => panic!("a truncated body must be a decode error"),
    }
    match decode_achievements("[{\"id\":9x") {
        Err(BotError::DecodeError(t)) => assert!(
            t.starts_with(
                "the achievements response is not in the expected wire form; parsing stopped at character "
            ),
            "unexpected message: {}",
            t
        ),
        _ => panic!("a truncated body must be a decode error"),
    }
}

#[test]
fn strings_with_escapes_or_control_characters_are_decode_errors() {
    let with_backslash = "[{\"id\":1,\"name\":\"a\\\\b\"}]";
    assert!(matches!(
        decode_achievements(with_backslash),
        Err(BotError::DecodeError(_))
    ));
    let with_control = "[{\"id\":1,\"name\":\"a\u{1}b\"}]";
    assert!(matches!(
        decode_achievements(with_control),
        Err(BotError::DecodeError(_))
    ));
}

#[test]
fn malformed_bodies_are_decode_errors() {
    for bad in [
        "",
        "{",
        "null",
        "{\"pve\":[]}",
        "{\"pvp\":[],\"pve\":[],\"wvw\":[],\"fractals\":[]}",
        "{\"pve\":[],\"pvp\":[],\"wvw\":[],\"fractals\":}",
        "{\"pve\":[],\"pvp\":[],\"wvw\":[],\"fractals\":[{\"id\":01,\"level\":{\"min\":1,\"max\":2},\"required_access\":[]}]}",
        "{\"pve\":[],\"pvp\":[],\"wvw\":[],\"fractals\":[{\"id\":-0,\"level\":{\"min\":1,\"max\":2},\"required_access\":[]}]}",
        "{\"pve\":[],\"pvp\":[],\"wvw\":[],\"fractals\":[{\"id\":2147483648,\"level\":{\"min\":1,\"max\":2},\"required_access\":[]}]}",
        "{ \"pve\":[],\"pvp\":[],\"wvw\":[],\"fractals\":[]}",
    ] {
        assert!(
            matches!(decode_daily_set(bad), Err(BotError::DecodeError(_))),
            "must be rejected: {}",
            bad
        );
    }
    for bad in [
        "",
        "{}",
        "[",
        "[]x",
        "[{\"id\":1}]",
        "[{\"id\":1,\"name\":\"unterminated,\"description\":\"\",\"requirement\":\"\",\"locked_text\":\"\",\"type\":\"\",\"flags\":[],\"tiers\":[],\"rewards\":[]}]",
    ] {
        assert!(
            matches!(decode_achievements(bad), Err(BotError::DecodeError(_))),
            "must be rejected: {}",
            bad
        );
    }
}

#[test]
fn the_empty_array_body_decodes_to_no_achievements() {
    let achs = decode_achievements("[]").unwrap();
    assert!(achs.is_empty());
    assert_eq!(encode_achievements(&achs), "[]");
}

#[test]
fn encoded_bodies_are_ordinary_json() {
    let ds = decode_daily_set(DAILY_SET_SAMPLE).unwrap();
    let v: Result<serde_json::Value, serde_json::Error> =
        serde_json::from_str(&encode_daily_set(&ds));
    assert!(v.is_ok());
    let achs = decode_achievements(ACHIEVEMENTS_SAMPLE).unwrap();
    let w: Result<serde_json::Value, serde_json::Error> =
        serde_json::from_str(&encode_achievements(&achs));
    assert!(w.is_ok());
}

#[test]
fn a_decoded_dailies_body_drives_the_achievements_fetch() {
    let ds = decode_daily_set(DAILY_SET_SAMPLE).unwrap();
    match on_dailies(Ok(ds)) {
        DailiesStep::FetchAchievements(url) => {
            assert_eq!(url, "https://api.guildwars2.com/v2/achievements?ids=101,102,103");
        },
        _ => panic!("decoded dailies must ask for the achievements"),
    }
}
