use fractal_bot::dispatch::on_achievements;
use fractal_bot::dispatch::on_dailies;
use fractal_bot::dispatch::on_message;
use fractal_bot::dispatch::Action;
use fractal_bot::dispatch::DailiesStep;
use fractal_bot::errors::BotError;
use fractal_bot::model::Achievement;
use fractal_bot::model::Daily;
use fractal_bot::model::DailySet;
use fractal_bot::model::Level;

fn mk_daily(id: i32) -> Daily {
    Daily { id, level: Level { min: 1, max: 80 }, required_access: Vec::new() }
}

fn mk_achievement(id: i32, name: &str) -> Achievement {
    Achievement {
        id,
        name: name.to_string(),
        description: String::new(),
        requirement: String::new(),
        locked_text: String::new(),
        kind: "Default".to_string(),
        flags: Vec::new(),
        tiers: Vec::new(),
        rewards: Vec::new(),
    }
}

#[test]
fn hello_sends_one_message_with_one_attachment_and_one_three_field_embed() {
    match on_message("!hello") {
        Action::Send(m) => {
            assert_eq!(m.content, Some("Hello, World!".to_string()));
            assert_eq!(m.attachments.len(), 1);
            assert_eq!(m.attachments[0], "./ferris_eyes.png");
            assert_eq!(m.embeds.len(), 1);
            let e = &m.embeds[0];
            assert_eq!(e.title, "This is a title");
            assert_eq!(e.description, Some("This is a description".to_string()));
            assert_eq!(e.image, Some("attachment://ferris_eyes.png".to_string()));
            assert_eq!(e.fields.len(), 3);
            assert_eq!(e.fields[0].name, "This is the first field");
            assert_eq!(e.fields[0].value, "This is a field body");
            assert!(e.fields[0].inline);
            assert_eq!(e.fields[1].name, "This is the second field");
            assert_eq!(e.fields[1].value, "Both of these fields are inline");
            assert!(e.fields[1].inline);
            assert_eq!(e.fields[2].name, "This is the third field");
            assert_eq!(e.fields[2].value, "This is not an inline field");
            assert!(!e.fields[2].inline);
            assert_eq!(e.footer, Some("This is a footer".to_string()));
        },
        _ => panic!("!hello must answer with a message"),
    }
}

#[test]
fn fractals_asks_for_the_dailies() {
    assert_eq!(on_message("!fractals"), Action::FetchDailies);
}

#[test]
fn unmatched_messages_send_nothing() {
    assert_eq!(on_message(""), Action::Ignore);
    assert_eq!(on_message("hello"), Action::Ignore);
    assert_eq!(on_message("!HELLO"), Action::Ignore);
    assert_eq!(on_message("!hello "), Action::Ignore);
    assert_eq!(on_message("!fractal"), Action::Ignore);
    assert_eq!(on_message("say !fractals"), Action::Ignore);
}

#[test]
fn a_dailies_network_failure_answers_one_error_embed_and_fetches_nothing() {
    let step = on_dailies(Err(BotError::NetworkError("connection refused".to_string())));
    assert!(!matches!(step, DailiesStep::FetchAchievements(_)));
    match step {
        DailiesStep::Respond(m) => {
            assert_eq!(m.embeds.len(), 1);
            assert_eq!(m.embeds[0].title, "Error");
            let description = m.embeds[0].description.clone().unwrap();
            assert_eq!(description, "Network Error: connection refused");
            assert!(description.contains("connection refused"));
            assert!(m.attachments.is_empty());
        },
        _ => panic!("a failed dailies fetch must answer an error embed"),
    }
}

#[test]
fn successful_dailies_ask_for_the_achievements_of_the_fractal_ids() {
    let ds = DailySet {
        pve: vec![mk_daily(1)],
        pvp: Vec::new(),
        wvw: Vec::new(),
        fractals: vec![mk_daily(101), mk_daily(102), mk_daily(103)],
    };
    match on_dailies(Ok(ds)) {
        DailiesStep::FetchAchievements(url) => {
            assert_eq!(url, "https://api.guildwars2.com/v2/achievements?ids=101,102,103");
        },
        _ => panic!("successful dailies must ask for the achievements"),
    }
}

#[test]
fn a_full_achievement_response_becomes_the_summary_embed() {
    let mut achs: Vec<Achievement> = Vec::new();
    for i in 0..15 {
        achs.push(mk_achievement(i, &format!("Ach{}", i)));
    }
    let m = on_achievements(Ok(achs));
    assert!(m.content.is_none());
    assert!(m.attachments.is_empty());
    assert_eq!(m.embeds.len(), 1);
    let e = &m.embeds[0];
    assert_eq!(e.title, "Tomorrow's Daily Fractals:");
    assert_eq!(e.fields.len(), 2);
    assert_eq!(e.fields[0].name, "Daily Fractals");
    assert_eq!(e.fields[0].value, "Ach6, Ach10, Ach14");
    assert!(!e.fields[0].inline);
    assert_eq!(e.fields[1].name, "Recommended Fractals");
    assert_eq!(e.fields[1].value, "Ach0, Ach1, Ach2");
    assert!(!e.fields[1].inline);
}

#[test]
fn a_short_achievement_response_becomes_an_index_error_embed() {
    let mut achs: Vec<Achievement> = Vec::new();
    for i in 0..5 {
        achs.push(mk_achievement(i, &format!("Ach{}", i)));
    }
    let m = on_achievements(Ok(achs));
    assert_eq!(m.embeds.len(), 1);
    assert_eq!(m.embeds[0].title, "Error");
    assert_eq!(
        m.embeds[0].description.clone().unwrap(),
        "Index Error: the achievements endpoint returned 5 entries where at least 15 are required"
    );
}

#[test]
fn a_failed_achievement_fetch_becomes_an_error_embed() {
    let m = on_achievements(Err(BotError::NetworkError("timed out".to_string())));
    assert_eq!(m.embeds.len(), 1);
    assert_eq!(m.embeds[0].title, "Error");
    assert_eq!(m.embeds[0].description.clone().unwrap(), "Network Error: timed out");
}

#[test]
fn hello_answers_the_same_on_repeated_messages() {
    let first = on_message("!hello");
    let second = on_message("!hello");
    assert_eq!(first, second);
    assert!(matches!(second, Action::Send(_)));
}
