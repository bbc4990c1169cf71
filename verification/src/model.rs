//! Plain data records decoded from the game API's JSON responses, plus the
//! bot's startup credentials. All fields are plain values; nothing here is
//! mutated after construction.

use vstd::prelude::*;

verus! {

/// Which game expansion a daily objective requires access to.
#[derive(Debug, Clone, Copy, PartialEq, Eq, Structural)]
pub enum Expansion {
    GuildWars2,
    HeartOfThorns,
    PathOfFire,
}

/// The character-level range over which a daily objective is offered.
#[derive(Debug, Clone, Copy, PartialEq, Eq, Structural)]
pub struct Level {
    pub min: i32,
    pub max: i32,
}

/// One daily objective: its achievement ID, level range, and the
/// expansions required to play it.
#[derive(Debug, Clone, PartialEq)]
pub struct Daily {
    pub id: i32,
    pub level: Level,
    pub required_access: Vec<Expansion>,
}

/// Tomorrow's daily objectives, one ordered list per game mode. Only the
/// `fractals` list is consumed by the pipeline.
#[derive(Debug, Clone, PartialEq)]
pub struct DailySet {
    pub pve: Vec<Daily>,
    pub pvp: Vec<Daily>,
    pub wvw: Vec<Daily>,
    pub fractals: Vec<Daily>,
}

/// One reward tier of an achievement: how many repetitions it takes and
/// how many points it grants.
#[derive(Debug, Clone, Copy, PartialEq, Eq, Structural)]
pub struct Tier {
    pub count: i32,
    pub points: i32,
}

/// One concrete reward item attached to an achievement.
#[derive(Debug, Clone, PartialEq)]
pub struct RewardItem {
    pub kind: String,
    pub id: i32,
    pub count: i32,
}

/// Achievement metadata as returned by the achievements endpoint.
#[derive(Debug, Clone, PartialEq)]
pub struct Achievement {
    pub id: i32,
    pub name: String,
    pub description: String,
    pub requirement: String,
    pub locked_text: String,
    pub kind: String,
    pub flags: Vec<String>,
    pub tiers: Vec<Tier>,
    pub rewards: Vec<RewardItem>,
}

/// Bot credentials, loaded once at process start and never mutated.
#[derive(Debug, Clone, PartialEq)]
pub struct Credentials {
    pub client_id: u64,
    pub client_secret: String,
    pub bot_token: String,
}

/// The mathematical model of a `Daily`.
pub ghost struct DailyV {
    pub id: i32,
    pub level: Level,
    pub required_access: Seq<Expansion>,
}

impl View for Daily {
    type V = DailyV;

    open spec fn view(&self) -> DailyV {
        DailyV { id: self.id, level: self.level, required_access: self.required_access@ }
    }
}

/// The mathematical model of a `DailySet`.
pub ghost struct DailySetV {
    pub pve: Seq<DailyV>,
    pub pvp: Seq<DailyV>,
    pub wvw: Seq<DailyV>,
    pub fractals: Seq<DailyV>,
}

impl View for DailySet {
    type V = DailySetV;

    open spec fn view(&self) -> DailySetV {
        DailySetV {
            pve: self.pve@.map_values(|d: Daily| d@),
            pvp: self.pvp@.map_values(|d: Daily| d@),
            wvw: self.wvw@.map_values(|d: Daily| d@),
            fractals: self.fractals@.map_values(|d: Daily| d@),
        }
    }
}

/// The mathematical model of a `RewardItem`.
pub ghost struct RewardItemV {
    pub kind: Seq<char>,
    pub id: i32,
    pub count: i32,
}

impl View for RewardItem {
    type V = RewardItemV;

    open spec fn view(&self) -> RewardItemV {
        RewardItemV { kind: self.kind@, id: self.id, count: self.count }
    }
}

/// The mathematical model of an `Achievement`.
pub ghost struct AchievementV {
    pub id: i32,
    pub name: Seq<char>,
    pub description: Seq<char>,
    pub requirement: Seq<char>,
    pub locked_text: Seq<char>,
    pub kind: Seq<char>,
    pub flags: Seq<Seq<char>>,
    pub tiers: Seq<Tier>,
    pub rewards: Seq<RewardItemV>,
}

impl View for Achievement {
    type V = AchievementV;

    open spec fn view(&self) -> AchievementV {
        AchievementV {
            id: self.id,
            name: self.name@,
            description: self.description@,
            requirement: self.requirement@,
            locked_text: self.locked_text@,
            kind: self.kind@,
            flags: self.flags@.map_values(|f: String| f@),
            tiers: self.tiers@,
            rewards: self.rewards@.map_values(|r: RewardItem| r@),
        }
    }
}

} // verus!
