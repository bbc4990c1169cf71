//! The wire format of the two API responses, as this library pins it
//! down: a canonical JSON shape with fixed keys in a fixed order,
//! compact whitespace, canonical decimal numbers, and plain strings
//! written verbatim (no quote, backslash or control character: the
//! parser rejects anything else, and the encoders require the same of
//! their input). `ser_*` state the exact character sequence of each
//! record; `parse_*` read it back, and a failed decode reports the
//! character position where parsing stopped. Whatever the parser
//! accepts re-serializes to the very text it consumed (see
//! `lemma_parse_then_ser_daily_set` and its companions), so a decoded
//! sample keeps every field across a round trip. The surrounding
//! application may decode the live responses more leniently and hand
//! the records over as plain values.

use vstd::prelude::*;
use crate::model::Expansion;
use crate::model::Level;
use crate::model::Daily;
use crate::model::DailyV;
use crate::model::DailySet;
use crate::model::DailySetV;
use crate::model::Tier;
use crate::model::RewardItem;
use crate::model::RewardItemV;
use crate::model::Achievement;
use crate::model::AchievementV;
use crate::errors::BotError;
use crate::numbers::ser_int;
use crate::numbers::dec_rep;
use crate::numbers::append_dec_u64;
use crate::numbers::parse_i32_at;
use crate::numbers::append_dec_i32;
use crate::numbers::scan_i32;
use crate::numbers::lemma_parse_i32_canonical;

verus! {

// ---------------------------------------------------------------------
// Serialized form, character by character
// ---------------------------------------------------------------------

/// A JSON string literal: the characters verbatim between double quotes.
pub open spec fn ser_jstr(t: Seq<char>) -> Seq<char> {
    seq!['"'] + t + seq!['"']
}

/// A character that may stand verbatim inside a quoted wire string:
/// anything but the quote itself, the backslash, and control characters.
pub open spec fn plain_char(c: char) -> bool {
    c != '"' && c != '\\' && c as u32 >= 32
}

/// Whether every character of `t` may stand verbatim in a wire string.
pub open spec fn jstr_plain(t: Seq<char>) -> bool {
    forall|k: int| 0 <= k < t.len() ==> plain_char(t[k])
}

/// Whether every string of `a` may stand verbatim in the wire form.
/// Serialization is exact only for such records; anything else would
/// render as text that is not valid JSON.
pub open spec fn achievement_encodable(a: AchievementV) -> bool {
    &&& jstr_plain(a.name)
    &&& jstr_plain(a.description)
    &&& jstr_plain(a.requirement)
    &&& jstr_plain(a.locked_text)
    &&& jstr_plain(a.kind)
    &&& forall|k: int| 0 <= k < a.flags.len() ==> jstr_plain(#[trigger] a.flags[k])
    &&& forall|k: int| 0 <= k < a.rewards.len() ==> jstr_plain((#[trigger] a.rewards[k]).kind)
}

/// Whether every achievement of `xs` may be rendered as wire text.
pub open spec fn achievements_encodable(xs: Seq<AchievementV>) -> bool {
    forall|k: int| 0 <= k < xs.len() ==> achievement_encodable(#[trigger] xs[k])
}

/// The JSON name of an expansion tag.
pub open spec fn ser_expansion(e: Expansion) -> Seq<char> {
    match e {
        Expansion::GuildWars2 => "\"GuildWars2\""@,
        Expansion::HeartOfThorns => "\"HeartOfThorns\""@,
        Expansion::PathOfFire => "\"PathOfFire\""@,
    }
}

/// The elements of a JSON array joined by single commas.
pub open spec fn ser_items<T>(xs: Seq<T>, g: spec_fn(T) -> Seq<char>) -> Seq<char>
    decreases xs.len(),
{
    if xs.len() == 0 {
        Seq::<char>::empty()
    } else if xs.len() == 1 {
        g(xs[0])
    } else {
        ser_items(xs.drop_last(), g) + seq![','] + g(xs.last())
    }
}

/// A JSON array of the serialized elements.
pub open spec fn ser_list<T>(xs: Seq<T>, g: spec_fn(T) -> Seq<char>) -> Seq<char> {
    seq!['['] + ser_items(xs, g) + seq![']']
}


/// The expansion-tag element serializer, as a value.
pub open spec fn exp_ser() -> spec_fn(Expansion) -> Seq<char> {
    |e: Expansion| ser_expansion(e)
}

/// The JSON-string element serializer, as a value.
pub open spec fn jstr_ser() -> spec_fn(Seq<char>) -> Seq<char> {
    |f: Seq<char>| ser_jstr(f)
}

/// The daily-objective element serializer, as a value.
pub open spec fn daily_ser() -> spec_fn(DailyV) -> Seq<char> {
    |d: DailyV| ser_daily(d)
}

/// The reward-tier element serializer, as a value.
pub open spec fn tier_ser() -> spec_fn(Tier) -> Seq<char> {
    |t: Tier| ser_tier(t)
}

/// The reward-item element serializer, as a value.
pub open spec fn reward_ser() -> spec_fn(RewardItemV) -> Seq<char> {
    |r: RewardItemV| ser_reward(r)
}

/// The achievement element serializer, as a value.
pub open spec fn achievement_ser() -> spec_fn(AchievementV) -> Seq<char> {
    |a: AchievementV| ser_achievement(a)
}

/// A serialized level range object.
pub open spec fn ser_level(l: Level) -> Seq<char> {
    "{\"min\":"@ + ser_int(l.min as int) + ",\"max\":"@ + ser_int(l.max as int) + "}"@
}

/// A serialized daily objective object.
pub open spec fn ser_daily(d: DailyV) -> Seq<char> {
    "{\"id\":"@ + ser_int(d.id as int) + ",\"level\":"@ + ser_level(d.level)
        + ",\"required_access\":"@ + ser_list(d.required_access, exp_ser())
        + "}"@
}

/// A serialized daily set object, one array per game mode.
pub open spec fn ser_daily_set(s: DailySetV) -> Seq<char> {
    "{\"pve\":"@ + ser_list(s.pve, daily_ser()) + ",\"pvp\":"@ + ser_list(s.pvp, daily_ser())
        + ",\"wvw\":"@ + ser_list(s.wvw, daily_ser()) + ",\"fractals\":"@ + ser_list(
        s.fractals,
        daily_ser(),
    ) + "}"@
}

/// A serialized reward tier object.
pub open spec fn ser_tier(t: Tier) -> Seq<char> {
    "{\"count\":"@ + ser_int(t.count as int) + ",\"points\":"@ + ser_int(t.points as int) + "}"@
}

/// A serialized reward item object.
pub open spec fn ser_reward(r: RewardItemV) -> Seq<char> {
    "{\"type\":"@ + ser_jstr(r.kind) + ",\"id\":"@ + ser_int(r.id as int) + ",\"count\":"@
        + ser_int(r.count as int) + "}"@
}

/// A serialized achievement object.
pub open spec fn ser_achievement(a: AchievementV) -> Seq<char> {
    "{\"id\":"@ + ser_int(a.id as int) + ",\"name\":"@ + ser_jstr(a.name) + ",\"description\":"@
        + ser_jstr(a.description) + ",\"requirement\":"@ + ser_jstr(a.requirement)
        + ",\"locked_text\":"@ + ser_jstr(a.locked_text) + ",\"type\":"@ + ser_jstr(a.kind)
        + ",\"flags\":"@ + ser_list(a.flags, jstr_ser()) + ",\"tiers\":"@
        + ser_list(a.tiers, tier_ser()) + ",\"rewards\":"@ + ser_list(a.rewards, reward_ser()) + "}"@
}

/// A serialized achievement array, in response order.
pub open spec fn ser_achievements(xs: Seq<AchievementV>) -> Seq<char> {
    ser_list(xs, achievement_ser())
}

// ---------------------------------------------------------------------
// Parsing, character by character
// ---------------------------------------------------------------------

/// Consumes the exact literal `lit` at `i`: the index past it, or `None`.
pub open spec fn parse_lit(s: Seq<char>, i: int, lit: Seq<char>) -> Option<int> {
    if 0 <= i && i + lit.len() <= s.len() && s.subrange(i, i + lit.len()) == lit {
        Some(i + lit.len())
    } else {
        None
    }
}

/// The index of the first double quote at or after `i`.
pub open spec fn quote_end(s: Seq<char>, i: int) -> int
    decreases s.len() - i,
{
    if 0 <= i < s.len() && s[i] != '"' {
        quote_end(s, i + 1)
    } else {
        i
    }
}

/// Consumes a JSON string literal at `i`: its characters and the index
/// past its closing quote.
pub open spec fn parse_jstr_at(s: Seq<char>, i: int) -> Option<(Seq<char>, int)> {
    if 0 <= i < s.len() && s[i] == '"' {
        let j = quote_end(s, i + 1);
        if j < s.len() && jstr_plain(s.subrange(i + 1, j)) {
            Some((s.subrange(i + 1, j), j + 1))
        } else {
            None
        }
    } else {
        None
    }
}

/// Consumes an expansion tag at `i`.
pub open spec fn parse_expansion_at(s: Seq<char>, i: int) -> Option<(Expansion, int)> {
    if parse_lit(s, i, "\"GuildWars2\""@) is Some {
        Some((Expansion::GuildWars2, parse_lit(s, i, "\"GuildWars2\""@)->0))
    } else if parse_lit(s, i, "\"HeartOfThorns\""@) is Some {
        Some((Expansion::HeartOfThorns, parse_lit(s, i, "\"HeartOfThorns\""@)->0))
    } else if parse_lit(s, i, "\"PathOfFire\""@) is Some {
        Some((Expansion::PathOfFire, parse_lit(s, i, "\"PathOfFire\""@)->0))
    } else {
        None
    }
}

/// Consumes `elem ("," elem)* "]"` starting at `i`, the body of a
/// non-empty JSON array, element by element through `f`.
pub open spec fn parse_items<T>(
    s: Seq<char>,
    i: int,
    f: spec_fn(Seq<char>, int) -> Option<(T, int)>,
) -> Option<(Seq<T>, int)>
    decreases s.len() - i,
{
    match f(s, i) {
        None => None,
        Some((v, j)) => if i < j && j < s.len() {
            if s[j] == ']' {
                Some((seq![v], j + 1))
            } else if s[j] == ',' {
                match parse_items(s, j + 1, f) {
                    None => None,
                    Some((vs, k)) => Some((seq![v] + vs, k)),
                }
            } else {
                None
            }
        } else {
            None
        },
    }
}

/// Consumes a JSON array at `i`, element by element through `f`.
pub open spec fn parse_list<T>(
    s: Seq<char>,
    i: int,
    f: spec_fn(Seq<char>, int) -> Option<(T, int)>,
) -> Option<(Seq<T>, int)> {
    if 0 <= i && i + 1 < s.len() && s[i] == '[' {
        if s[i + 1] == ']' {
            Some((Seq::<T>::empty(), i + 2))
        } else {
            parse_items(s, i + 1, f)
        }
    } else {
        None
    }
}


/// The expansion-tag element parser, as a value.
pub open spec fn exp_parser() -> spec_fn(Seq<char>, int) -> Option<(Expansion, int)> {
    |ss: Seq<char>, ii: int| parse_expansion_at(ss, ii)
}

/// The JSON-string element parser, as a value.
pub open spec fn jstr_parser() -> spec_fn(Seq<char>, int) -> Option<(Seq<char>, int)> {
    |ss: Seq<char>, ii: int| parse_jstr_at(ss, ii)
}

/// The daily-objective element parser, as a value.
pub open spec fn daily_parser() -> spec_fn(Seq<char>, int) -> Option<(DailyV, int)> {
    |ss: Seq<char>, ii: int| parse_daily_at(ss, ii)
}

/// The reward-tier element parser, as a value.
pub open spec fn tier_parser() -> spec_fn(Seq<char>, int) -> Option<(Tier, int)> {
    |ss: Seq<char>, ii: int| parse_tier_at(ss, ii)
}

/// The reward-item element parser, as a value.
pub open spec fn reward_parser() -> spec_fn(Seq<char>, int) -> Option<(RewardItemV, int)> {
    |ss: Seq<char>, ii: int| parse_reward_at(ss, ii)
}

/// The achievement element parser, as a value.
pub open spec fn achievement_parser() -> spec_fn(Seq<char>, int) -> Option<(AchievementV, int)> {
    |ss: Seq<char>, ii: int| parse_achievement_at(ss, ii)
}

/// Consumes an array of expansion tags at `i`.
pub open spec fn parse_expansions_at(s: Seq<char>, i: int) -> Option<(Seq<Expansion>, int)> {
    parse_list(s, i, exp_parser())
}

/// Consumes a level range object at `i`.
pub open spec fn parse_level_at(s: Seq<char>, i: int) -> Option<(Level, int)> {
    match parse_lit(s, i, "{\"min\":"@) {
        None => None,
        Some(j1) => match parse_i32_at(s, j1) {
            None => None,
            Some((mn, j2)) => match parse_lit(s, j2, ",\"max\":"@) {
                None => None,
                Some(j3) => match parse_i32_at(s, j3) {
                    None => None,
                    Some((mx, j4)) => match parse_lit(s, j4, "}"@) {
                        None => None,
                        Some(j5) => Some((Level { min: mn, max: mx }, j5)),
                    },
                },
            },
        },
    }
}

/// Consumes a daily objective object at `i`.
pub open spec fn parse_daily_at(s: Seq<char>, i: int) -> Option<(DailyV, int)> {
    match parse_lit(s, i, "{\"id\":"@) {
        None => None,
        Some(j1) => match parse_i32_at(s, j1) {
            None => None,
            Some((id, j2)) => match parse_lit(s, j2, ",\"level\":"@) {
                None => None,
                Some(j3) => match parse_level_at(s, j3) {
                    None => None,
                    Some((lv, j4)) => match parse_lit(s, j4, ",\"required_access\":"@) {
                        None => None,
                        Some(j5) => match parse_expansions_at(s, j5) {
                            None => None,
                            Some((ra, j6)) => match parse_lit(s, j6, "}"@) {
                                None => None,
                                Some(j7) => Some(
                                    (DailyV { id, level: lv, required_access: ra }, j7),
                                ),
                            },
                        },
                    },
                },
            },
        },
    }
}

/// Consumes an array of daily objectives at `i`.
pub open spec fn parse_dailies_at(s: Seq<char>, i: int) -> Option<(Seq<DailyV>, int)> {
    parse_list(s, i, daily_parser())
}

/// Consumes a daily set object at `i`.
pub open spec fn parse_daily_set_at(s: Seq<char>, i: int) -> Option<(DailySetV, int)> {
    match parse_lit(s, i, "{\"pve\":"@) {
        None => None,
        Some(j1) => match parse_dailies_at(s, j1) {
            None => None,
            Some((pve, j2)) => match parse_lit(s, j2, ",\"pvp\":"@) {
                None => None,
                Some(j3) => match parse_dailies_at(s, j3) {
                    None => None,
                    Some((pvp, j4)) => match parse_lit(s, j4, ",\"wvw\":"@) {
                        None => None,
                        Some(j5) => match parse_dailies_at(s, j5) {
                            None => None,
                            Some((wvw, j6)) => match parse_lit(s, j6, ",\"fractals\":"@) {
                                None => None,
                                Some(j7) => match parse_dailies_at(s, j7) {
                                    None => None,
                                    Some((fractals, j8)) => match parse_lit(s, j8, "}"@) {
                                        None => None,
                                        Some(j9) => Some(
                                            (DailySetV { pve, pvp, wvw, fractals }, j9),
                                        ),
                                    },
                                },
                            },
                        },
                    },
                },
            },
        },
    }
}

/// Consumes a reward tier object at `i`.
pub open spec fn parse_tier_at(s: Seq<char>, i: int) -> Option<(Tier, int)> {
    match parse_lit(s, i, "{\"count\":"@) {
        None => None,
        Some(j1) => match parse_i32_at(s, j1) {
            None => None,
            Some((count, j2)) => match parse_lit(s, j2, ",\"points\":"@) {
                None => None,
                Some(j3) => match parse_i32_at(s, j3) {
                    None => None,
                    Some((points, j4)) => match parse_lit(s, j4, "}"@) {
                        None => None,
                        Some(j5) => Some((Tier { count, points }, j5)),
                    },
                },
            },
        },
    }
}

/// Consumes a reward item object at `i`.
pub open spec fn parse_reward_at(s: Seq<char>, i: int) -> Option<(RewardItemV, int)> {
    match parse_lit(s, i, "{\"type\":"@) {
        None => None,
        Some(j1) => match parse_jstr_at(s, j1) {
            None => None,
            Some((kind, j2)) => match parse_lit(s, j2, ",\"id\":"@) {
                None => None,
                Some(j3) => match parse_i32_at(s, j3) {
                    None => None,
                    Some((id, j4)) => match parse_lit(s, j4, ",\"count\":"@) {
                        None => None,
                        Some(j5) => match parse_i32_at(s, j5) {
                            None => None,
                            Some((count, j6)) => match parse_lit(s, j6, "}"@) {
                                None => None,
                                Some(j7) => Some((RewardItemV { kind, id, count }, j7)),
                            },
                        },
                    },
                },
            },
        },
    }
}

/// Consumes an array of JSON strings at `i`.
pub open spec fn parse_strings_at(s: Seq<char>, i: int) -> Option<(Seq<Seq<char>>, int)> {
    parse_list(s, i, jstr_parser())
}

/// Consumes an array of reward tiers at `i`.
pub open spec fn parse_tiers_at(s: Seq<char>, i: int) -> Option<(Seq<Tier>, int)> {
    parse_list(s, i, tier_parser())
}

/// Consumes an array of reward items at `i`.
pub open spec fn parse_rewards_at(s: Seq<char>, i: int) -> Option<(Seq<RewardItemV>, int)> {
    parse_list(s, i, reward_parser())
}

/// Consumes an achievement object at `i`.
pub open spec fn parse_achievement_at(s: Seq<char>, i: int) -> Option<(AchievementV, int)> {
    match parse_lit(s, i, "{\"id\":"@) {
        None => None,
        Some(j1) => match parse_i32_at(s, j1) {
            None => None,
            Some((id, j2)) => match parse_lit(s, j2, ",\"name\":"@) {
                None => None,
                Some(j3) => match parse_jstr_at(s, j3) {
                    None => None,
                    Some((name, j4)) => match parse_lit(s, j4, ",\"description\":"@) {
                        None => None,
                        Some(j5) => match parse_jstr_at(s, j5) {
                            None => None,
                            Some((description, j6)) => match parse_lit(s, j6, ",\"requirement\":"@) {
                                None => None,
                                Some(j7) => match parse_jstr_at(s, j7) {
                                    None => None,
                                    Some((requirement, j8)) => match parse_lit(
                                        s,
                                        j8,
                                        ",\"locked_text\":"@,
                                    ) {
                                        None => None,
                                        Some(j9) => match parse_jstr_at(s, j9) {
                                            None => None,
                                            Some((locked_text, j10)) => match parse_lit(
                                                s,
                                                j10,
                                                ",\"type\":"@,
                                            ) {
                                                None => None,
                                                Some(j11) => match parse_jstr_at(s, j11) {
                                                    None => None,
                                                    Some((kind, j12)) => parse_achievement_tail(
                                                        s,
                                                        i,
                                                        j12,
                                                        id,
                                                        name,
                                                        description,
                                                        requirement,
                                                        locked_text,
                                                        kind,
                                                    ),
                                                },
                                            },
                                        },
                                    },
                                },
                            },
                        },
                    },
                },
            },
        },
    }
}

/// Consumes the `flags`, `tiers` and `rewards` members and the closing
/// brace of an achievement object whose scalar members ended at `j`.
pub open spec fn parse_achievement_tail(
    s: Seq<char>,
    i: int,
    j: int,
    id: i32,
    name: Seq<char>,
    description: Seq<char>,
    requirement: Seq<char>,
    locked_text: Seq<char>,
    kind: Seq<char>,
) -> Option<(AchievementV, int)> {
    match parse_lit(s, j, ",\"flags\":"@) {
        None => None,
        Some(j1) => match parse_strings_at(s, j1) {
            None => None,
            Some((flags, j2)) => match parse_lit(s, j2, ",\"tiers\":"@) {
                None => None,
                Some(j3) => match parse_tiers_at(s, j3) {
                    None => None,
                    Some((tiers, j4)) => match parse_lit(s, j4, ",\"rewards\":"@) {
                        None => None,
                        Some(j5) => match parse_rewards_at(s, j5) {
                            None => None,
                            Some((rewards, j6)) => match parse_lit(s, j6, "}"@) {
                                None => None,
                                Some(j7) => Some(
                                    (
                                        AchievementV {
                                            id,
                                            name,
                                            description,
                                            requirement,
                                            locked_text,
                                            kind,
                                            flags,
                                            tiers,
                                            rewards,
                                        },
                                        j7,
                                    ),
                                ),
                            },
                        },
                    },
                },
            },
        },
    }
}

/// Consumes an array of achievements at `i`.
pub open spec fn parse_achievements_at(s: Seq<char>, i: int) -> Option<(Seq<AchievementV>, int)> {
    parse_list(s, i, achievement_parser())
}

/// Decodes a whole response body as a daily set: the object must span the
/// entire text.
pub open spec fn spec_decode_daily_set(t: Seq<char>) -> Option<DailySetV> {
    match parse_daily_set_at(t, 0) {
        Some((v, j)) => if j == t.len() {
            Some(v)
        } else {
            None
        },
        None => None,
    }
}

/// Decodes a whole response body as an achievement array: the array must
/// span the entire text.
pub open spec fn spec_decode_achievements(t: Seq<char>) -> Option<Seq<AchievementV>> {
    match parse_achievements_at(t, 0) {
        Some((v, j)) => if j == t.len() {
            Some(v)
        } else {
            None
        },
        None => None,
    }
}

// ---------------------------------------------------------------------
// Executable parsing
// ---------------------------------------------------------------------

proof fn lemma_quote_end(s: Seq<char>, i: int)
    requires
        0 <= i <= s.len(),
    ensures
        i <= quote_end(s, i) <= s.len(),
        quote_end(s, i) < s.len() ==> s[quote_end(s, i)] == '"',
        forall|k: int| i <= k < quote_end(s, i) ==> s[k] != '"',
    decreases s.len() - i,
{
    if i < s.len() && s[i] != '"' {
        lemma_quote_end(s, i + 1);
    }
}

/// Consumes the exact literal `lit` at character index `i`. A failure
/// carries the character position of the mismatch.
fn expect_lit(s: &str, i: usize, lit: &str) -> (r: Result<usize, usize>)
    requires
        i <= s@.len(),
    ensures
        match r {
            Ok(j) => parse_lit(s@, i as int, lit@) == Some(j as int) && i <= j <= s@.len(),
            Err(_) => parse_lit(s@, i as int, lit@) is None,
        },
{
    let n = lit.unicode_len();
    let len = s.unicode_len();
    if n > len - i {
        return Err(len);
    }
    let mut k: usize = 0;
    while k < n
        invariant
            i + n <= len,
            len == s@.len(),
            n == lit@.len(),
            k <= n,
            forall|t: int| 0 <= t < k ==> s@[i + t] == lit@[t],
        decreases n - k,
    {
        if s.get_char(i + k) != lit.get_char(k) {
            proof {
                assert(s@.subrange(i as int, i + n)[k as int] == s@[i + k]);
                assert(s@.subrange(i as int, i + n) != lit@);
            }
            return Err(i + k);
        }
        k += 1;
    }
    proof {
        assert(s@.subrange(i as int, i + n) =~= lit@);
    }
    Ok(i + n)
}

/// Consumes a JSON string literal at character index `i`. A failure
/// carries the character position where scanning stopped.
fn scan_jstr(s: &str, i: usize) -> (r: Result<(String, usize), usize>)
    requires
        i <= s@.len(),
    ensures
        match r {
            Ok((v, j)) => parse_jstr_at(s@, i as int) == Some((v@, j as int)) && i < j
                <= s@.len(),
            Err(_) => parse_jstr_at(s@, i as int) is None,
        },
{
    let len = s.unicode_len();
    if i >= len {
        return Err(i);
    }
    if s.get_char(i) != '"' {
        return Err(i);
    }
    let mut j: usize = i + 1;
    while j < len
        invariant
            i + 1 <= j <= len,
            len == s@.len(),
            quote_end(s@, i + 1) == quote_end(s@, j as int),
            forall|k: int| i + 1 <= k < j ==> plain_char(s@[k]),
        ensures
            i + 1 <= j <= len,
            len == s@.len(),
            quote_end(s@, i + 1) == quote_end(s@, j as int),
            forall|k: int| i + 1 <= k < j ==> plain_char(s@[k]),
            j == len || s@[j as int] == '"' || !plain_char(s@[j as int]),
        decreases len - j,
    {
        let c = s.get_char(j);
        if c == '"' {
            break;
        }
        if c == '\\' || (c as u32) < 32 {
            break;
        }
        j += 1;
    }
    if j == len {
        proof {
            assert(quote_end(s@, j as int) == j as int);
        }
        return Err(j);
    }
    let c = s.get_char(j);
    if c != '"' {
        proof {
            lemma_quote_end(s@, j + 1);
            assert(quote_end(s@, j as int) == quote_end(s@, j + 1));
            let q = quote_end(s@, i + 1);
            assert(q >= j + 1);
            if q < s@.len() {
                assert(s@.subrange(i + 1, q)[j - (i + 1)] == s@[j as int]);
                assert(!plain_char(s@[j as int]));
                assert(!jstr_plain(s@.subrange(i + 1, q)));
            }
        }
        return Err(j);
    }
    proof {
        assert(quote_end(s@, j as int) == j as int);
        assert forall|k: int| 0 <= k < j - (i + 1) implies plain_char(
            #[trigger] s@.subrange(i + 1, j as int)[k],
        ) by {
            assert(s@.subrange(i + 1, j as int)[k] == s@[i + 1 + k]);
        }
        assert(jstr_plain(s@.subrange(i + 1, j as int)));
    }
    let content = s.substring_char(i + 1, j);
    let v = content.to_owned();
    Ok((v, j + 1))
}

/// Consumes an expansion tag at character index `i`.
fn scan_expansion(s: &str, i: usize) -> (r: Result<(Expansion, usize), usize>)
    requires
        i <= s@.len(),
    ensures
        match r {
            Ok((v, j)) => parse_expansion_at(s@, i as int) == Some((v, j as int)) && i < j
                <= s@.len(),
            Err(_) => parse_expansion_at(s@, i as int) is None,
        },
{
    proof {
        reveal_strlit("\"GuildWars2\"");
        reveal_strlit("\"HeartOfThorns\"");
        reveal_strlit("\"PathOfFire\"");
    }
    match expect_lit(s, i, "\"GuildWars2\"") {
        Ok(j) => Ok((Expansion::GuildWars2, j)),
        Err(_) => match expect_lit(s, i, "\"HeartOfThorns\"") {
            Ok(j) => Ok((Expansion::HeartOfThorns, j)),
            Err(_) => match expect_lit(s, i, "\"PathOfFire\"") {
                Ok(j) => Ok((Expansion::PathOfFire, j)),
                Err(_) => Err(i),
            },
        },
    }
}

/// Consumes a level range object at character index `i`.
fn scan_level(s: &str, i: usize) -> (r: Result<(Level, usize), usize>)
    requires
        i <= s@.len(),
    ensures
        match r {
            Ok((v, j)) => parse_level_at(s@, i as int) == Some((v, j as int)) && i < j
                <= s@.len(),
            Err(_) => parse_level_at(s@, i as int) is None,
        },
{
    proof {
        reveal_strlit("{\"min\":");
    }
    let j1 = match expect_lit(s, i, "{\"min\":") {
        Ok(j) => j,
        Err(p) => {
            return Err(p);
        },
    };
    let (mn, j2) = match scan_i32(s, j1) {
        Ok(p) => p,
        Err(p) => {
            return Err(p);
        },
    };
    let j3 = match expect_lit(s, j2, ",\"max\":") {
        Ok(j) => j,
        Err(p) => {
            return Err(p);
        },
    };
    let (mx, j4) = match scan_i32(s, j3) {
        Ok(p) => p,
        Err(p) => {
            return Err(p);
        },
    };
    let j5 = match expect_lit(s, j4, "}") {
        Ok(j) => j,
        Err(p) => {
            return Err(p);
        },
    };
    Ok((Level { min: mn, max: mx }, j5))
}

/// Consumes the body of a non-empty array of expansion tags.
fn scan_expansion_items(s: &str, i: usize) -> (r: Result<(Vec<Expansion>, usize), usize>)
    requires
        i <= s@.len(),
    ensures
        match r {
            Ok((v, j)) => parse_items(s@, i as int, exp_parser()) == Some((v@, j as int)) && i
                < j <= s@.len(),
            Err(_) => parse_items(s@, i as int, exp_parser()) is None,
        },
    decreases s@.len() - i,
{
    proof {
        assert(exp_parser()(s@, i as int) == parse_expansion_at(s@, i as int));
    }
    let len = s.unicode_len();
    match scan_expansion(s, i) {
        Err(p) => Err(p),
        Ok((v, j)) => {
            if j < len {
                let c = s.get_char(j);
                if c == ']' {
                    let mut out: Vec<Expansion> = Vec::new();
                    out.push(v);
                    proof {
                        assert(out@ =~= seq![v]);
                    }
                    Ok((out, j + 1))
                } else if c == ',' {
                    match scan_expansion_items(s, j + 1) {
                        Err(p) => Err(p),
                        Ok((vs, k)) => {
                            let ghost rest = vs@;
                            let mut vs = vs;
                            vs.insert(0, v);
                            proof {
                                assert(vs@ =~= seq![v] + rest);
                            }
                            Ok((vs, k))
                        },
                    }
                } else {
                    Err(j)
                }
            } else {
                Err(j)
            }
        },
    }
}

/// Consumes an array of expansion tags at character index `i`.
fn scan_expansions(s: &str, i: usize) -> (r: Result<(Vec<Expansion>, usize), usize>)
    requires
        i <= s@.len(),
    ensures
        match r {
            Ok((v, j)) => parse_expansions_at(s@, i as int) == Some((v@, j as int)) && i < j
                <= s@.len(),
            Err(_) => parse_expansions_at(s@, i as int) is None,
        },
{
    let len = s.unicode_len();
    if i < len && s.get_char(i) == '[' && i + 1 < len {
        if s.get_char(i + 1) == ']' {
            let out: Vec<Expansion> = Vec::new();
            proof {
                assert(out@ =~= Seq::<Expansion>::empty());
            }
            Ok((out, i + 2))
        } else {
            scan_expansion_items(s, i + 1)
        }
    } else {
        Err(i)
    }
}

/// Consumes a daily objective object at character index `i`.
fn scan_daily(s: &str, i: usize) -> (r: Result<(Daily, usize), usize>)
    requires
        i <= s@.len(),
    ensures
        match r {
            Ok((v, j)) => parse_daily_at(s@, i as int) == Some((v@, j as int)) && i < j
                <= s@.len(),
            Err(_) => parse_daily_at(s@, i as int) is None,
        },
{
    let j1 = match expect_lit(s, i, "{\"id\":") {
        Ok(j) => j,
        Err(p) => {
            return Err(p);
        },
    };
    let (id, j2) = match scan_i32(s, j1) {
        Ok(p) => p,
        Err(p) => {
            return Err(p);
        },
    };
    let j3 = match expect_lit(s, j2, ",\"level\":") {
        Ok(j) => j,
        Err(p) => {
            return Err(p);
        },
    };
    let (lv, j4) = match scan_level(s, j3) {
        Ok(p) => p,
        Err(p) => {
            return Err(p);
        },
    };
    let j5 = match expect_lit(s, j4, ",\"required_access\":") {
        Ok(j) => j,
        Err(p) => {
            return Err(p);
        },
    };
    let (ra, j6) = match scan_expansions(s, j5) {
        Ok(p) => p,
        Err(p) => {
            return Err(p);
        },
    };
    let j7 = match expect_lit(s, j6, "}") {
        Ok(j) => j,
        Err(p) => {
            return Err(p);
        },
    };
    Ok((Daily { id, level: lv, required_access: ra }, j7))
}

/// Consumes the body of a non-empty array of daily objectives.
fn scan_daily_items(s: &str, i: usize) -> (r: Result<(Vec<Daily>, usize), usize>)
    requires
        i <= s@.len(),
    ensures
        match r {
            Ok((v, j)) => parse_items(s@, i as int, daily_parser()) == Some(
                (v@.map_values(|d: Daily| d@), j as int),
            ) && i < j <= s@.len(),
            Err(_) => parse_items(s@, i as int, daily_parser()) is None,
        },
    decreases s@.len() - i,
{
    proof {
        assert(daily_parser()(s@, i as int) == parse_daily_at(s@, i as int));
    }
    let len = s.unicode_len();
    match scan_daily(s, i) {
        Err(p) => Err(p),
        Ok((v, j)) => {
            if j < len {
                let c = s.get_char(j);
                if c == ']' {
                    let ghost dv = v@;
                    let mut out: Vec<Daily> = Vec::new();
                    out.push(v);
                    proof {
                        assert(out@.map_values(|d: Daily| d@) =~= seq![dv]);
                    }
                    Ok((out, j + 1))
                } else if c == ',' {
                    match scan_daily_items(s, j + 1) {
                        Err(p) => Err(p),
                        Ok((vs, k)) => {
                            let ghost rest = vs@;
                            let ghost dv = v@;
                            let mut vs = vs;
                            vs.insert(0, v);
                            proof {
                                assert(vs@ =~= seq![vs@[0]] + rest);
                                assert(vs@.map_values(|d: Daily| d@) =~= seq![dv]
                                    + rest.map_values(|d: Daily| d@));
                            }
                            Ok((vs, k))
                        },
                    }
                } else {
                    Err(j)
                }
            } else {
                Err(j)
            }
        },
    }
}

/// Consumes an array of daily objectives at character index `i`.
fn scan_dailies(s: &str, i: usize) -> (r: Result<(Vec<Daily>, usize), usize>)
    requires
        i <= s@.len(),
    ensures
        match r {
            Ok((v, j)) => parse_dailies_at(s@, i as int) == Some(
                (v@.map_values(|d: Daily| d@), j as int),
            ) && i < j <= s@.len(),
            Err(_) => parse_dailies_at(s@, i as int) is None,
        },
{
    let len = s.unicode_len();
    if i < len && s.get_char(i) == '[' && i + 1 < len {
        if s.get_char(i + 1) == ']' {
            let out: Vec<Daily> = Vec::new();
            proof {
                assert(out@.map_values(|d: Daily| d@) =~= Seq::<DailyV>::empty());
            }
            Ok((out, i + 2))
        } else {
            scan_daily_items(s, i + 1)
        }
    } else {
        Err(i)
    }
}

/// Consumes a daily set object at character index `i`.
fn scan_daily_set(s: &str, i: usize) -> (r: Result<(DailySet, usize), usize>)
    requires
        i <= s@.len(),
    ensures
        match r {
            Ok((v, j)) => parse_daily_set_at(s@, i as int) == Some((v@, j as int)) && i < j
                <= s@.len(),
            Err(_) => parse_daily_set_at(s@, i as int) is None,
        },
{
    let j1 = match expect_lit(s, i, "{\"pve\":") {
        Ok(j) => j,
        Err(p) => {
            return Err(p);
        },
    };
    let (pve, j2) = match scan_dailies(s, j1) {
        Ok(p) => p,
        Err(p) => {
            return Err(p);
        },
    };
    let j3 = match expect_lit(s, j2, ",\"pvp\":") {
        Ok(j) => j,
        Err(p) => {
            return Err(p);
        },
    };
    let (pvp, j4) = match scan_dailies(s, j3) {
        Ok(p) => p,
        Err(p) => {
            return Err(p);
        },
    };
    let j5 = match expect_lit(s, j4, ",\"wvw\":") {
        Ok(j) => j,
        Err(p) => {
            return Err(p);
        },
    };
    let (wvw, j6) = match scan_dailies(s, j5) {
        Ok(p) => p,
        Err(p) => {
            return Err(p);
        },
    };
    let j7 = match expect_lit(s, j6, ",\"fractals\":") {
        Ok(j) => j,
        Err(p) => {
            return Err(p);
        },
    };
    let (fractals, j8) = match scan_dailies(s, j7) {
        Ok(p) => p,
        Err(p) => {
            return Err(p);
        },
    };
    let j9 = match expect_lit(s, j8, "}") {
        Ok(j) => j,
        Err(p) => {
            return Err(p);
        },
    };
    Ok((DailySet { pve, pvp, wvw, fractals }, j9))
}

/// Consumes a reward tier object at character index `i`.
fn scan_tier(s: &str, i: usize) -> (r: Result<(Tier, usize), usize>)
    requires
        i <= s@.len(),
    ensures
        match r {
            Ok((v, j)) => parse_tier_at(s@, i as int) == Some((v, j as int)) && i < j
                <= s@.len(),
            Err(_) => parse_tier_at(s@, i as int) is None,
        },
{
    let j1 = match expect_lit(s, i, "{\"count\":") {
        Ok(j) => j,
        Err(p) => {
            return Err(p);
        },
    };
    let (count, j2) = match scan_i32(s, j1) {
        Ok(p) => p,
        Err(p) => {
            return Err(p);
        },
    };
    let j3 = match expect_lit(s, j2, ",\"points\":") {
        Ok(j) => j,
        Err(p) => {
            return Err(p);
        },
    };
    let (points, j4) = match scan_i32(s, j3) {
        Ok(p) => p,
        Err(p) => {
            return Err(p);
        },
    };
    let j5 = match expect_lit(s, j4, "}") {
        Ok(j) => j,
        Err(p) => {
            return Err(p);
        },
    };
    Ok((Tier { count, points }, j5))
}

/// Consumes a reward item object at character index `i`.
fn scan_reward(s: &str, i: usize) -> (r: Result<(RewardItem, usize), usize>)
    requires
        i <= s@.len(),
    ensures
        match r {
            Ok((v, j)) => parse_reward_at(s@, i as int) == Some((v@, j as int)) && i < j
                <= s@.len(),
            Err(_) => parse_reward_at(s@, i as int) is None,
        },
{
    let j1 = match expect_lit(s, i, "{\"type\":") {
        Ok(j) => j,
        Err(p) => {
            return Err(p);
        },
    };
    let (kind, j2) = match scan_jstr(s, j1) {
        Ok(p) => p,
        Err(p) => {
            return Err(p);
        },
    };
    let j3 = match expect_lit(s, j2, ",\"id\":") {
        Ok(j) => j,
        Err(p) => {
            return Err(p);
        },
    };
    let (id, j4) = match scan_i32(s, j3) {
        Ok(p) => p,
        Err(p) => {
            return Err(p);
        },
    };
    let j5 = match expect_lit(s, j4, ",\"count\":") {
        Ok(j) => j,
        Err(p) => {
            return Err(p);
        },
    };
    let (count, j6) = match scan_i32(s, j5) {
        Ok(p) => p,
        Err(p) => {
            return Err(p);
        },
    };
    let j7 = match expect_lit(s, j6, "}") {
        Ok(j) => j,
        Err(p) => {
            return Err(p);
        },
    };
    Ok((RewardItem { kind, id, count }, j7))
}

/// Consumes the body of a non-empty array of JSON strings.
fn scan_string_items(s: &str, i: usize) -> (r: Result<(Vec<String>, usize), usize>)
    requires
        i <= s@.len(),
    ensures
        match r {
            Ok((v, j)) => parse_items(s@, i as int, jstr_parser()) == Some(
                (v@.map_values(|f: String| f@), j as int),
            ) && i < j <= s@.len(),
            Err(_) => parse_items(s@, i as int, jstr_parser()) is None,
        },
    decreases s@.len() - i,
{
    proof {
        assert(jstr_parser()(s@, i as int) == parse_jstr_at(s@, i as int));
    }
    let len = s.unicode_len();
    match scan_jstr(s, i) {
        Err(p) => Err(p),
        Ok((v, j)) => {
            if j < len {
                let c = s.get_char(j);
                if c == ']' {
                    let ghost dv = v@;
                    let mut out: Vec<String> = Vec::new();
                    out.push(v);
                    proof {
                        assert(out@.map_values(|f: String| f@) =~= seq![dv]);
                    }
                    Ok((out, j + 1))
                } else if c == ',' {
                    match scan_string_items(s, j + 1) {
                        Err(p) => Err(p),
                        Ok((vs, k)) => {
                            let ghost rest = vs@;
                            let ghost dv = v@;
                            let mut vs = vs;
                            vs.insert(0, v);
                            proof {
                                assert(vs@ =~= seq![vs@[0]] + rest);
                                assert(vs@.map_values(|f: String| f@) =~= seq![dv]
                                    + rest.map_values(|f: String| f@));
                            }
                            Ok((vs, k))
                        },
                    }
                } else {
                    Err(j)
                }
            } else {
                Err(j)
            }
        },
    }
}

/// Consumes an array of JSON strings at character index `i`.
fn scan_strings(s: &str, i: usize) -> (r: Result<(Vec<String>, usize), usize>)
    requires
        i <= s@.len(),
    ensures
        match r {
            Ok((v, j)) => parse_strings_at(s@, i as int) == Some(
                (v@.map_values(|f: String| f@), j as int),
            ) && i < j <= s@.len(),
            Err(_) => parse_strings_at(s@, i as int) is None,
        },
{
    let len = s.unicode_len();
    if i < len && s.get_char(i) == '[' && i + 1 < len {
        if s.get_char(i + 1) == ']' {
            let out: Vec<String> = Vec::new();
            proof {
                assert(out@.map_values(|f: String| f@) =~= Seq::<Seq<char>>::empty());
            }
            Ok((out, i + 2))
        } else {
            scan_string_items(s, i + 1)
        }
    } else {
        Err(i)
    }
}

/// Consumes the body of a non-empty array of reward tiers.
fn scan_tier_items(s: &str, i: usize) -> (r: Result<(Vec<Tier>, usize), usize>)
    requires
        i <= s@.len(),
    ensures
        match r {
            Ok((v, j)) => parse_items(s@, i as int, tier_parser()) == Some((v@, j as int)) && i
                < j <= s@.len(),
            Err(_) => parse_items(s@, i as int, tier_parser()) is None,
        },
    decreases s@.len() - i,
{
    proof {
        assert(tier_parser()(s@, i as int) == parse_tier_at(s@, i as int));
    }
    let len = s.unicode_len();
    match scan_tier(s, i) {
        Err(p) => Err(p),
        Ok((v, j)) => {
            if j < len {
                let c = s.get_char(j);
                if c == ']' {
                    let mut out: Vec<Tier> = Vec::new();
                    out.push(v);
                    proof {
                        assert(out@ =~= seq![v]);
                    }
                    Ok((out, j + 1))
                } else if c == ',' {
                    match scan_tier_items(s, j + 1) {
                        Err(p) => Err(p),
                        Ok((vs, k)) => {
                            let ghost rest = vs@;
                            let mut vs = vs;
                            vs.insert(0, v);
                            proof {
                                assert(vs@ =~= seq![v] + rest);
                            }
                            Ok((vs, k))
                        },
                    }
                } else {
                    Err(j)
                }
            } else {
                Err(j)
            }
        },
    }
}

/// Consumes an array of reward tiers at character index `i`.
fn scan_tiers(s: &str, i: usize) -> (r: Result<(Vec<Tier>, usize), usize>)
    requires
        i <= s@.len(),
    ensures
        match r {
            Ok((v, j)) => parse_tiers_at(s@, i as int) == Some((v@, j as int)) && i < j
                <= s@.len(),
            Err(_) => parse_tiers_at(s@, i as int) is None,
        },
{
    let len = s.unicode_len();
    if i < len && s.get_char(i) == '[' && i + 1 < len {
        if s.get_char(i + 1) == ']' {
            let out: Vec<Tier> = Vec::new();
            proof {
                assert(out@ =~= Seq::<Tier>::empty());
            }
            Ok((out, i + 2))
        } else {
            scan_tier_items(s, i + 1)
        }
    } else {
        Err(i)
    }
}

/// Consumes the body of a non-empty array of reward items.
fn scan_reward_items(s: &str, i: usize) -> (r: Result<(Vec<RewardItem>, usize), usize>)
    requires
        i <= s@.len(),
    ensures
        match r {
            Ok((v, j)) => parse_items(s@, i as int, reward_parser()) == Some(
                (v@.map_values(|x: RewardItem| x@), j as int),
            ) && i < j <= s@.len(),
            Err(_) => parse_items(s@, i as int, reward_parser()) is None,
        },
    decreases s@.len() - i,
{
    proof {
        assert(reward_parser()(s@, i as int) == parse_reward_at(s@, i as int));
    }
    let len = s.unicode_len();
    match scan_reward(s, i) {
        Err(p) => Err(p),
        Ok((v, j)) => {
            if j < len {
                let c = s.get_char(j);
                if c == ']' {
                    let ghost dv = v@;
                    let mut out: Vec<RewardItem> = Vec::new();
                    out.push(v);
                    proof {
                        assert(out@.map_values(|x: RewardItem| x@) =~= seq![dv]);
                    }
                    Ok((out, j + 1))
                } else if c == ',' {
                    match scan_reward_items(s, j + 1) {
                        Err(p) => Err(p),
                        Ok((vs, k)) => {
                            let ghost rest = vs@;
                            let ghost dv = v@;
                            let mut vs = vs;
                            vs.insert(0, v);
                            proof {
                                assert(vs@ =~= seq![vs@[0]] + rest);
                                assert(vs@.map_values(|x: RewardItem| x@) =~= seq![dv]
                                    + rest.map_values(|x: RewardItem| x@));
                            }
                            Ok((vs, k))
                        },
                    }
                } else {
                    Err(j)
                }
            } else {
                Err(j)
            }
        },
    }
}

/// Consumes an array of reward items at character index `i`.
fn scan_rewards(s: &str, i: usize) -> (r: Result<(Vec<RewardItem>, usize), usize>)
    requires
        i <= s@.len(),
    ensures
        match r {
            Ok((v, j)) => parse_rewards_at(s@, i as int) == Some(
                (v@.map_values(|x: RewardItem| x@), j as int),
            ) && i < j <= s@.len(),
            Err(_) => parse_rewards_at(s@, i as int) is None,
        },
{
    let len = s.unicode_len();
    if i < len && s.get_char(i) == '[' && i + 1 < len {
        if s.get_char(i + 1) == ']' {
            let out: Vec<RewardItem> = Vec::new();
            proof {
                assert(out@.map_values(|x: RewardItem| x@) =~= Seq::<RewardItemV>::empty());
            }
            Ok((out, i + 2))
        } else {
            scan_reward_items(s, i + 1)
        }
    } else {
        Err(i)
    }
}

/// Consumes an achievement object at character index `i`.
fn scan_achievement(s: &str, i: usize) -> (r: Result<(Achievement, usize), usize>)
    requires
        i <= s@.len(),
    ensures
        match r {
            Ok((v, j)) => parse_achievement_at(s@, i as int) == Some((v@, j as int)) && i < j
                <= s@.len(),
            Err(_) => parse_achievement_at(s@, i as int) is None,
        },
{
    let j1 = match expect_lit(s, i, "{\"id\":") {
        Ok(j) => j,
        Err(p) => {
            return Err(p);
        },
    };
    let (id, j2) = match scan_i32(s, j1) {
        Ok(p) => p,
        Err(p) => {
            return Err(p);
        },
    };
    let j3 = match expect_lit(s, j2, ",\"name\":") {
        Ok(j) => j,
        Err(p) => {
            return Err(p);
        },
    };
    let (name, j4) = match scan_jstr(s, j3) {
        Ok(p) => p,
        Err(p) => {
            return Err(p);
        },
    };
    let j5 = match expect_lit(s, j4, ",\"description\":") {
        Ok(j) => j,
        Err(p) => {
            return Err(p);
        },
    };
    let (description, j6) = match scan_jstr(s, j5) {
        Ok(p) => p,
        Err(p) => {
            return Err(p);
        },
    };
    let j7 = match expect_lit(s, j6, ",\"requirement\":") {
        Ok(j) => j,
        Err(p) => {
            return Err(p);
        },
    };
    let (requirement, j8) = match scan_jstr(s, j7) {
        Ok(p) => p,
        Err(p) => {
            return Err(p);
        },
    };
    let j9 = match expect_lit(s, j8, ",\"locked_text\":") {
        Ok(j) => j,
        Err(p) => {
            return Err(p);
        },
    };
    let (locked_text, j10) = match scan_jstr(s, j9) {
        Ok(p) => p,
        Err(p) => {
            return Err(p);
        },
    };
    let j11 = match expect_lit(s, j10, ",\"type\":") {
        Ok(j) => j,
        Err(p) => {
            return Err(p);
        },
    };
    let (kind, j12) = match scan_jstr(s, j11) {
        Ok(p) => p,
        Err(p) => {
            return Err(p);
        },
    };
    let j13 = match expect_lit(s, j12, ",\"flags\":") {
        Ok(j) => j,
        Err(p) => {
            return Err(p);
        },
    };
    let (flags, j14) = match scan_strings(s, j13) {
        Ok(p) => p,
        Err(p) => {
            return Err(p);
        },
    };
    let j15 = match expect_lit(s, j14, ",\"tiers\":") {
        Ok(j) => j,
        Err(p) => {
            return Err(p);
        },
    };
    let (tiers, j16) = match scan_tiers(s, j15) {
        Ok(p) => p,
        Err(p) => {
            return Err(p);
        },
    };
    let j17 = match expect_lit(s, j16, ",\"rewards\":") {
        Ok(j) => j,
        Err(p) => {
            return Err(p);
        },
    };
    let (rewards, j18) = match scan_rewards(s, j17) {
        Ok(p) => p,
        Err(p) => {
            return Err(p);
        },
    };
    let j19 = match expect_lit(s, j18, "}") {
        Ok(j) => j,
        Err(p) => {
            return Err(p);
        },
    };
    Ok(
        (
            Achievement {
                id,
                name,
                description,
                requirement,
                locked_text,
                kind,
                flags,
                tiers,
                rewards,
            },
            j19,
        ),
    )
}

/// Consumes the body of a non-empty array of achievements.
fn scan_achievement_items(s: &str, i: usize) -> (r: Result<(Vec<Achievement>, usize), usize>)
    requires
        i <= s@.len(),
    ensures
        match r {
            Ok((v, j)) => parse_items(s@, i as int, achievement_parser()) == Some(
                (v@.map_values(|a: Achievement| a@), j as int),
            ) && i < j <= s@.len(),
            Err(_) => parse_items(s@, i as int, achievement_parser()) is None,
        },
    decreases s@.len() - i,
{
    proof {
        assert(achievement_parser()(s@, i as int) == parse_achievement_at(s@, i as int));
    }
    let len = s.unicode_len();
    match scan_achievement(s, i) {
        Err(p) => Err(p),
        Ok((v, j)) => {
            if j < len {
                let c = s.get_char(j);
                if c == ']' {
                    let ghost dv = v@;
                    let mut out: Vec<Achievement> = Vec::new();
                    out.push(v);
                    proof {
                        assert(out@.map_values(|a: Achievement| a@) =~= seq![dv]);
                    }
                    Ok((out, j + 1))
                } else if c == ',' {
                    match scan_achievement_items(s, j + 1) {
                        Err(p) => Err(p),
                        Ok((vs, k)) => {
                            let ghost rest = vs@;
                            let ghost dv = v@;
                            let mut vs = vs;
                            vs.insert(0, v);
                            proof {
                                assert(vs@ =~= seq![vs@[0]] + rest);
                                assert(vs@.map_values(|a: Achievement| a@) =~= seq![dv]
                                    + rest.map_values(|a: Achievement| a@));
                            }
                            Ok((vs, k))
                        },
                    }
                } else {
                    Err(j)
                }
            } else {
                Err(j)
            }
        },
    }
}

/// Consumes an array of achievements at character index `i`.
fn scan_achievements(s: &str, i: usize) -> (r: Result<(Vec<Achievement>, usize), usize>)
    requires
        i <= s@.len(),
    ensures
        match r {
            Ok((v, j)) => parse_achievements_at(s@, i as int) == Some(
                (v@.map_values(|a: Achievement| a@), j as int),
            ) && i < j <= s@.len(),
            Err(_) => parse_achievements_at(s@, i as int) is None,
        },
{
    let len = s.unicode_len();
    if i < len && s.get_char(i) == '[' && i + 1 < len {
        if s.get_char(i + 1) == ']' {
            let out: Vec<Achievement> = Vec::new();
            proof {
                assert(out@.map_values(|a: Achievement| a@) =~= Seq::<AchievementV>::empty());
            }
            Ok((out, i + 2))
        } else {
            scan_achievement_items(s, i + 1)
        }
    } else {
        Err(i)
    }
}

/// Builds the decode-failure cause: which response failed, and the
/// character position where parsing stopped.
fn decode_failure(what: &str, pos: usize) -> (r: String)
    ensures
        r@ == what@ + " is not in the expected wire form; parsing stopped at character "@
            + dec_rep(pos as nat),
{
    let mut out = String::new();
    out.append(what);
    out.append(" is not in the expected wire form; parsing stopped at character ");
    append_dec_u64(&mut out, pos as u64);
    proof {
        assert(out@ =~= what@
            + " is not in the expected wire form; parsing stopped at character "@ + dec_rep(
            pos as nat,
        ));
    }
    out
}

/// Decodes a dailies response body in the canonical wire form, or
/// reports where parsing stopped; the dispatcher turns the report into
/// an "Error" embed.
pub fn decode_daily_set(body: &str) -> (r: Result<DailySet, BotError>)
    ensures
        (spec_decode_daily_set(body@) matches Some(v) ==> (r matches Ok(d) && d@ == v)),
        (spec_decode_daily_set(body@) is None ==> (r matches Err(e) && e matches
            BotError::DecodeError(t) && (exists|p: nat|
        t@ == "the daily set response"@
            + " is not in the expected wire form; parsing stopped at character "@ + dec_rep(p)))),
{
    let len = body.unicode_len();
    match scan_daily_set(body, 0) {
        Ok((d, j)) => {
            if j == len {
                Ok(d)
            } else {
                let msg = decode_failure("the daily set response", j);
                proof {
                    assert(msg@ == "the daily set response"@
                        + " is not in the expected wire form; parsing stopped at character "@
                        + dec_rep(j as nat));
                }
                Err(BotError::DecodeError(msg))
            }
        },
        Err(p) => {
            let msg = decode_failure("the daily set response", p);
            proof {
                assert(msg@ == "the daily set response"@
                    + " is not in the expected wire form; parsing stopped at character "@
                    + dec_rep(p as nat));
            }
            Err(BotError::DecodeError(msg))
        },
    }
}

/// Decodes an achievements response body in the canonical wire form, or
/// reports where parsing stopped; the dispatcher turns the report into
/// an "Error" embed.
pub fn decode_achievements(body: &str) -> (r: Result<Vec<Achievement>, BotError>)
    ensures
        (spec_decode_achievements(body@) matches Some(v) ==> (r matches Ok(a)
            && a@.map_values(|x: Achievement| x@) == v)),
        (spec_decode_achievements(body@) is None ==> (r matches Err(e) && e matches
            BotError::DecodeError(t) && (exists|p: nat|
        t@ == "the achievements response"@
            + " is not in the expected wire form; parsing stopped at character "@ + dec_rep(p)))),
{
    let len = body.unicode_len();
    match scan_achievements(body, 0) {
        Ok((a, j)) => {
            if j == len {
                Ok(a)
            } else {
                let msg = decode_failure("the achievements response", j);
                proof {
                    assert(msg@ == "the achievements response"@
                        + " is not in the expected wire form; parsing stopped at character "@
                        + dec_rep(j as nat));
                }
                Err(BotError::DecodeError(msg))
            }
        },
        Err(p) => {
            let msg = decode_failure("the achievements response", p);
            proof {
                assert(msg@ == "the achievements response"@
                    + " is not in the expected wire form; parsing stopped at character "@
                    + dec_rep(p as nat));
            }
            Err(BotError::DecodeError(msg))
        },
    }
}

// ---------------------------------------------------------------------
// Executable serialization
// ---------------------------------------------------------------------

/// Appends a JSON string literal: the characters verbatim in quotes,
/// which is valid JSON exactly because the characters are plain.
fn append_jstr(out: &mut String, t: &str)
    requires
        jstr_plain(t@),
    ensures
        final(out)@ == old(out)@ + ser_jstr(t@),
{
    out.append("\"");
    out.append(t);
    out.append("\"");
    proof {
        reveal_strlit("\"");
        assert(final(out)@ =~= old(out)@ + ser_jstr(t@));
    }
}

/// Appends the JSON name of an expansion tag.
fn append_expansion(out: &mut String, e: Expansion)
    ensures
        final(out)@ == old(out)@ + ser_expansion(e),
{
    match e {
        Expansion::GuildWars2 => out.append("\"GuildWars2\""),
        Expansion::HeartOfThorns => out.append("\"HeartOfThorns\""),
        Expansion::PathOfFire => out.append("\"PathOfFire\""),
    }
}

/// Appends a serialized array of expansion tags.
fn append_expansions(out: &mut String, xs: &Vec<Expansion>)
    ensures
        final(out)@ == old(out)@ + ser_list(xs@, exp_ser()),
{
    let ghost base = out@;
    out.append("[");
    proof {
        reveal_strlit("[");
        reveal_strlit(",");
        reveal_strlit("]");
        assert(xs@.take(0) =~= Seq::<Expansion>::empty());
        assert(out@ =~= base + seq!['[']);
    }
    let mut k: usize = 0;
    while k < xs.len()
        invariant
            k <= xs.len(),
            out@ == base + seq!['['] + ser_items(xs@.take(k as int), exp_ser()),
        decreases xs.len() - k,
    {
        if k > 0 {
            out.append(",");
        }
        append_expansion(out, xs[k]);
        proof {
            reveal_strlit("[");
            reveal_strlit(",");
            let pre = xs@.take(k as int);
            let post = xs@.take(k + 1);
            assert(post.drop_last() =~= pre);
            assert(post.last() == xs@[k as int]);
            assert(exp_ser()(xs@[k as int]) == ser_expansion(xs@[k as int]));
            if k == 0 {
                assert(out@ =~= base + seq!['['] + ser_items(post, exp_ser()));
            } else {
                assert(out@ =~= base + seq!['['] + (ser_items(pre, exp_ser()) + seq![',']
                    + exp_ser()(post.last())));
                assert(out@ =~= base + seq!['['] + ser_items(post, exp_ser()));
            }
        }
        k += 1;
    }
    out.append("]");
    proof {
        assert(xs@.take(xs@.len() as int) =~= xs@);
        assert(final(out)@ =~= base + ser_list(xs@, exp_ser()));
    }
}

/// Appends a serialized level range object.
fn append_level(out: &mut String, l: Level)
    ensures
        final(out)@ == old(out)@ + ser_level(l),
{
    out.append("{\"min\":");
    append_dec_i32(out, l.min);
    out.append(",\"max\":");
    append_dec_i32(out, l.max);
    out.append("}");
    proof {
        assert(final(out)@ =~= old(out)@ + ser_level(l));
    }
}

/// Appends a serialized daily objective object.
fn append_daily(out: &mut String, d: &Daily)
    ensures
        final(out)@ == old(out)@ + ser_daily(d@),
{
    out.append("{\"id\":");
    append_dec_i32(out, d.id);
    out.append(",\"level\":");
    append_level(out, d.level);
    out.append(",\"required_access\":");
    append_expansions(out, &d.required_access);
    out.append("}");
    proof {
        assert(final(out)@ =~= old(out)@ + ser_daily(d@));
    }
}

/// Appends a serialized array of daily objectives.
fn append_dailies(out: &mut String, xs: &Vec<Daily>)
    ensures
        final(out)@ == old(out)@ + ser_list(xs@.map_values(|d: Daily| d@), daily_ser()),
{
    let ghost base = out@;
    let ghost mxs = xs@.map_values(|d: Daily| d@);
    out.append("[");
    proof {
        reveal_strlit("[");
        reveal_strlit(",");
        reveal_strlit("]");
        assert(mxs.take(0) =~= Seq::<DailyV>::empty());
        assert(out@ =~= base + seq!['[']);
    }
    let mut k: usize = 0;
    while k < xs.len()
        invariant
            k <= xs.len(),
            mxs == xs@.map_values(|d: Daily| d@),
            out@ == base + seq!['['] + ser_items(mxs.take(k as int), daily_ser()),
        decreases xs.len() - k,
    {
        if k > 0 {
            out.append(",");
        }
        append_daily(out, &xs[k]);
        proof {
            reveal_strlit("[");
            reveal_strlit(",");
            let pre = mxs.take(k as int);
            let post = mxs.take(k + 1);
            assert(post.drop_last() =~= pre);
            assert(mxs[k as int] == xs@[k as int]@);
            assert(post.last() == mxs[k as int]);
            assert(daily_ser()(mxs[k as int]) == ser_daily(mxs[k as int]));
            if k == 0 {
                assert(out@ =~= base + seq!['['] + ser_items(post, daily_ser()));
            } else {
                assert(out@ =~= base + seq!['['] + (ser_items(pre, daily_ser()) + seq![',']
                    + daily_ser()(post.last())));
                assert(out@ =~= base + seq!['['] + ser_items(post, daily_ser()));
            }
        }
        k += 1;
    }
    out.append("]");
    proof {
        assert(mxs.take(mxs.len() as int) =~= mxs);
        assert(final(out)@ =~= base + ser_list(mxs, daily_ser()));
    }
}

/// Appends a serialized array of JSON strings.
fn append_strings(out: &mut String, xs: &Vec<String>)
    requires
        forall|k: int| 0 <= k < xs@.len() ==> jstr_plain(#[trigger] xs@[k]@),
    ensures
        final(out)@ == old(out)@ + ser_list(xs@.map_values(|f: String| f@), jstr_ser()),
{
    let ghost base = out@;
    let ghost mxs = xs@.map_values(|f: String| f@);
    out.append("[");
    proof {
        reveal_strlit("[");
        reveal_strlit(",");
        reveal_strlit("]");
        assert(mxs.take(0) =~= Seq::<Seq<char>>::empty());
        assert(out@ =~= base + seq!['[']);
    }
    let mut k: usize = 0;
    while k < xs.len()
        invariant
            k <= xs.len(),
            mxs == xs@.map_values(|f: String| f@),
            forall|k2: int| 0 <= k2 < xs@.len() ==> jstr_plain(#[trigger] xs@[k2]@),
            out@ == base + seq!['['] + ser_items(mxs.take(k as int), jstr_ser()),
        decreases xs.len() - k,
    {
        if k > 0 {
            out.append(",");
        }
        proof {
            assert(jstr_plain(xs@[k as int]@));
        }
        append_jstr(out, xs[k].as_str());
        proof {
            reveal_strlit("[");
            reveal_strlit(",");
            let pre = mxs.take(k as int);
            let post = mxs.take(k + 1);
            assert(post.drop_last() =~= pre);
            assert(mxs[k as int] == xs@[k as int]@);
            assert(post.last() == mxs[k as int]);
            assert(jstr_ser()(mxs[k as int]) == ser_jstr(mxs[k as int]));
            if k == 0 {
                assert(out@ =~= base + seq!['['] + ser_items(post, jstr_ser()));
            } else {
                assert(out@ =~= base + seq!['['] + (ser_items(pre, jstr_ser()) + seq![',']
                    + jstr_ser()(post.last())));
                assert(out@ =~= base + seq!['['] + ser_items(post, jstr_ser()));
            }
        }
        k += 1;
    }
    out.append("]");
    proof {
        assert(mxs.take(mxs.len() as int) =~= mxs);
        assert(final(out)@ =~= base + ser_list(mxs, jstr_ser()));
    }
}

/// Appends a serialized reward tier object.
fn append_tier(out: &mut String, t: Tier)
    ensures
        final(out)@ == old(out)@ + ser_tier(t),
{
    out.append("{\"count\":");
    append_dec_i32(out, t.count);
    out.append(",\"points\":");
    append_dec_i32(out, t.points);
    out.append("}");
    proof {
        assert(final(out)@ =~= old(out)@ + ser_tier(t));
    }
}

/// Appends a serialized array of reward tiers.
fn append_tiers(out: &mut String, xs: &Vec<Tier>)
    ensures
        final(out)@ == old(out)@ + ser_list(xs@, tier_ser()),
{
    let ghost base = out@;
    out.append("[");
    proof {
        reveal_strlit("[");
        reveal_strlit(",");
        reveal_strlit("]");
        assert(xs@.take(0) =~= Seq::<Tier>::empty());
        assert(out@ =~= base + seq!['[']);
    }
    let mut k: usize = 0;
    while k < xs.len()
        invariant
            k <= xs.len(),
            out@ == base + seq!['['] + ser_items(xs@.take(k as int), tier_ser()),
        decreases xs.len() - k,
    {
        if k > 0 {
            out.append(",");
        }
        append_tier(out, xs[k]);
        proof {
            reveal_strlit("[");
            reveal_strlit(",");
            let pre = xs@.take(k as int);
            let post = xs@.take(k + 1);
            assert(post.drop_last() =~= pre);
            assert(post.last() == xs@[k as int]);
            assert(tier_ser()(xs@[k as int]) == ser_tier(xs@[k as int]));
            if k == 0 {
                assert(out@ =~= base + seq!['['] + ser_items(post, tier_ser()));
            } else {
                assert(out@ =~= base + seq!['['] + (ser_items(pre, tier_ser()) + seq![',']
                    + tier_ser()(post.last())));
                assert(out@ =~= base + seq!['['] + ser_items(post, tier_ser()));
            }
        }
        k += 1;
    }
    out.append("]");
    proof {
        assert(xs@.take(xs@.len() as int) =~= xs@);
        assert(final(out)@ =~= base + ser_list(xs@, tier_ser()));
    }
}

/// Appends a serialized reward item object.
fn append_reward(out: &mut String, r: &RewardItem)
    requires
        jstr_plain(r.kind@),
    ensures
        final(out)@ == old(out)@ + ser_reward(r@),
{
    out.append("{\"type\":");
    append_jstr(out, r.kind.as_str());
    out.append(",\"id\":");
    append_dec_i32(out, r.id);
    out.append(",\"count\":");
    append_dec_i32(out, r.count);
    out.append("}");
    proof {
        assert(final(out)@ =~= old(out)@ + ser_reward(r@));
    }
}

/// Appends a serialized array of reward items.
fn append_rewards(out: &mut String, xs: &Vec<RewardItem>)
    requires
        forall|k: int| 0 <= k < xs@.len() ==> jstr_plain((#[trigger] xs@[k]@).kind),
    ensures
        final(out)@ == old(out)@ + ser_list(xs@.map_values(|x: RewardItem| x@), reward_ser()),
{
    let ghost base = out@;
    let ghost mxs = xs@.map_values(|x: RewardItem| x@);
    out.append("[");
    proof {
        reveal_strlit("[");
        reveal_strlit(",");
        reveal_strlit("]");
        assert(mxs.take(0) =~= Seq::<RewardItemV>::empty());
        assert(out@ =~= base + seq!['[']);
    }
    let mut k: usize = 0;
    while k < xs.len()
        invariant
            k <= xs.len(),
            mxs == xs@.map_values(|x: RewardItem| x@),
            forall|k2: int| 0 <= k2 < xs@.len() ==> jstr_plain((#[trigger] xs@[k2]@).kind),
            out@ == base + seq!['['] + ser_items(mxs.take(k as int), reward_ser()),
        decreases xs.len() - k,
    {
        if k > 0 {
            out.append(",");
        }
        proof {
            assert(jstr_plain(xs@[k as int]@.kind));
        }
        append_reward(out, &xs[k]);
        proof {
            reveal_strlit("[");
            reveal_strlit(",");
            let pre = mxs.take(k as int);
            let post = mxs.take(k + 1);
            assert(post.drop_last() =~= pre);
            assert(mxs[k as int] == xs@[k as int]@);
            assert(post.last() == mxs[k as int]);
            assert(reward_ser()(mxs[k as int]) == ser_reward(mxs[k as int]));
            if k == 0 {
                assert(out@ =~= base + seq!['['] + ser_items(post, reward_ser()));
            } else {
                assert(out@ =~= base + seq!['['] + (ser_items(pre, reward_ser()) + seq![',']
                    + reward_ser()(post.last())));
                assert(out@ =~= base + seq!['['] + ser_items(post, reward_ser()));
            }
        }
        k += 1;
    }
    out.append("]");
    proof {
        assert(mxs.take(mxs.len() as int) =~= mxs);
        assert(final(out)@ =~= base + ser_list(mxs, reward_ser()));
    }
}

/// Appends a serialized achievement object.
#[verifier::rlimit(50)]
fn append_achievement(out: &mut String, a: &Achievement)
    requires
        achievement_encodable(a@),
    ensures
        final(out)@ == old(out)@ + ser_achievement(a@),
{
    out.append("{\"id\":");
    append_dec_i32(out, a.id);
    out.append(",\"name\":");
    append_jstr(out, a.name.as_str());
    out.append(",\"description\":");
    append_jstr(out, a.description.as_str());
    out.append(",\"requirement\":");
    append_jstr(out, a.requirement.as_str());
    out.append(",\"locked_text\":");
    append_jstr(out, a.locked_text.as_str());
    out.append(",\"type\":");
    append_jstr(out, a.kind.as_str());
    out.append(",\"flags\":");
    proof {
        assert forall|k: int| 0 <= k < a.flags@.len() implies jstr_plain(
            #[trigger] a.flags@[k]@,
        ) by {
            assert(a@.flags[k] == a.flags@[k]@);
        }
    }
    append_strings(out, &a.flags);
    out.append(",\"tiers\":");
    append_tiers(out, &a.tiers);
    out.append(",\"rewards\":");
    proof {
        assert forall|k: int| 0 <= k < a.rewards@.len() implies jstr_plain(
            (#[trigger] a.rewards@[k]@).kind,
        ) by {
            assert(a@.rewards[k] == a.rewards@[k]@);
        }
    }
    append_rewards(out, &a.rewards);
    out.append("}");
    proof {
        assert(final(out)@ =~= old(out)@ + ser_achievement(a@));
    }
}

/// Renders a daily set in its serialized form.
pub fn encode_daily_set(d: &DailySet) -> (r: String)
    ensures
        r@ == ser_daily_set(d@),
{
    let mut out = String::new();
    out.append("{\"pve\":");
    append_dailies(&mut out, &d.pve);
    out.append(",\"pvp\":");
    append_dailies(&mut out, &d.pvp);
    out.append(",\"wvw\":");
    append_dailies(&mut out, &d.wvw);
    out.append(",\"fractals\":");
    append_dailies(&mut out, &d.fractals);
    out.append("}");
    proof {
        assert(out@ =~= ser_daily_set(d@));
    }
    out
}

/// Renders an achievement list in its serialized form. The strings must
/// be plain (no quote, backslash or control character): only such
/// records have a verbatim wire rendering.
pub fn encode_achievements(xs: &Vec<Achievement>) -> (r: String)
    requires
        achievements_encodable(xs@.map_values(|a: Achievement| a@)),
    ensures
        r@ == ser_achievements(xs@.map_values(|a: Achievement| a@)),
{
    let ghost mxs = xs@.map_values(|a: Achievement| a@);
    let mut out = String::new();
    out.append("[");
    proof {
        reveal_strlit("[");
        reveal_strlit(",");
        reveal_strlit("]");
        assert(mxs.take(0) =~= Seq::<AchievementV>::empty());
        assert(out@ =~= seq!['[']);
    }
    let mut k: usize = 0;
    while k < xs.len()
        invariant
            k <= xs.len(),
            mxs == xs@.map_values(|a: Achievement| a@),
            achievements_encodable(mxs),
            out@ == seq!['['] + ser_items(mxs.take(k as int), achievement_ser()),
        decreases xs.len() - k,
    {
        if k > 0 {
            out.append(",");
        }
        proof {
            assert(achievement_encodable(mxs[k as int]));
            assert(mxs[k as int] == xs@[k as int]@);
        }
        append_achievement(&mut out, &xs[k]);
        proof {
            reveal_strlit("[");
            reveal_strlit(",");
            let pre = mxs.take(k as int);
            let post = mxs.take(k + 1);
            assert(post.drop_last() =~= pre);
            assert(mxs[k as int] == xs@[k as int]@);
            assert(post.last() == mxs[k as int]);
            assert(achievement_ser()(mxs[k as int]) == ser_achievement(mxs[k as int]));
            if k == 0 {
                assert(out@ =~= seq!['['] + ser_items(post, achievement_ser()));
            } else {
                assert(out@ =~= seq!['['] + (ser_items(pre, achievement_ser()) + seq![',']
                    + achievement_ser()(post.last())));
                assert(out@ =~= seq!['['] + ser_items(post, achievement_ser()));
            }
        }
        k += 1;
    }
    out.append("]");
    proof {
        assert(mxs.take(mxs.len() as int) =~= mxs);
        assert(out@ =~= ser_achievements(mxs));
    }
    out
}

// ---------------------------------------------------------------------
// Round trip: whatever parses re-serializes to the text it consumed
// ---------------------------------------------------------------------

/// A span splits at any interior index into the two adjacent spans.
proof fn lemma_subrange_split(s: Seq<char>, a: int, b: int, c: int)
    requires
        0 <= a <= b <= c <= s.len(),
    ensures
        s.subrange(a, c) == s.subrange(a, b) + s.subrange(b, c),
{
    assert(s.subrange(a, c) =~= s.subrange(a, b) + s.subrange(b, c));
}

proof fn lemma_parse_jstr_ser(s: Seq<char>, i: int)
    requires
        0 <= i <= s.len(),
        parse_jstr_at(s, i) is Some,
    ensures
        ({
            let (v, j) = parse_jstr_at(s, i)->0;
            &&& i < j <= s.len()
            &&& s.subrange(i, j) == ser_jstr(v)
        }),
{
    let (v, j) = parse_jstr_at(s, i)->0;
    lemma_quote_end(s, i + 1);
    let q = quote_end(s, i + 1);
    assert(s[q] == '"');
    assert(s.subrange(i, j) =~= seq![s[i]] + s.subrange(i + 1, q) + seq![s[q]]);
    assert(s.subrange(i, j) =~= ser_jstr(v));
}

proof fn lemma_parse_expansion_ser(s: Seq<char>, i: int)
    requires
        0 <= i <= s.len(),
        parse_expansion_at(s, i) is Some,
    ensures
        ({
            let (v, j) = parse_expansion_at(s, i)->0;
            &&& i < j <= s.len()
            &&& s.subrange(i, j) == ser_expansion(v)
        }),
{
    reveal_strlit("\"GuildWars2\"");
    reveal_strlit("\"HeartOfThorns\"");
    reveal_strlit("\"PathOfFire\"");
    assert("\"GuildWars2\""@.len() == 12);
    assert("\"HeartOfThorns\""@.len() == 15);
    assert("\"PathOfFire\""@.len() == 12);
}

/// A parsed item list is never empty, spans `(i, j)` exactly, and its
/// serialized items followed by the closing bracket are that span.
proof fn lemma_parse_items_ser<T>(
    s: Seq<char>,
    i: int,
    f: spec_fn(Seq<char>, int) -> Option<(T, int)>,
    g: spec_fn(T) -> Seq<char>,
)
    requires
        0 <= i <= s.len(),
        parse_items(s, i, f) is Some,
        forall|ii: int|
            0 <= ii <= s.len() && (#[trigger] f(s, ii)) is Some ==> ({
                let (v, jj) = f(s, ii)->0;
                &&& ii < jj <= s.len()
                &&& s.subrange(ii, jj) == g(v)
            }),
    ensures
        ({
            let (vs, j) = parse_items(s, i, f)->0;
            &&& i < j <= s.len()
            &&& vs.len() >= 1
            &&& s.subrange(i, j) == ser_items(vs, g) + seq![']']
        }),
    decreases s.len() - i,
{
    let (vs, j) = parse_items(s, i, f)->0;
    let (v, j0) = f(s, i)->0;
    assert(i < j0 <= s.len() && s.subrange(i, j0) == g(v));
    if s[j0] == ']' {
        assert(vs =~= seq![v]);
        assert(ser_items(vs, g) == g(v));
        assert(s.subrange(i, j0 + 1) =~= s.subrange(i, j0) + seq![s[j0]]);
        assert(s.subrange(i, j) =~= ser_items(vs, g) + seq![']']);
    } else {
        let (vs2, k) = parse_items(s, j0 + 1, f)->0;
        lemma_parse_items_ser(s, j0 + 1, f, g);
        lemma_ser_items_cons(v, vs2, g);
        assert(s.subrange(i, k) =~= s.subrange(i, j0) + seq![s[j0]] + s.subrange(j0 + 1, k));
        assert(s.subrange(i, j) =~= ser_items(vs, g) + seq![']']);
    }
}

/// Serializing `v` in front of a non-empty list splits off its notation
/// and one comma.
proof fn lemma_ser_items_cons<T>(v: T, vs: Seq<T>, g: spec_fn(T) -> Seq<char>)
    requires
        vs.len() >= 1,
    ensures
        ser_items(seq![v] + vs, g) == g(v) + seq![','] + ser_items(vs, g),
    decreases vs.len(),
{
    let w = seq![v] + vs;
    if vs.len() == 1 {
        assert(w.drop_last() =~= seq![v]);
        assert(w.last() == vs[0]);
        assert(ser_items(seq![v], g) == g(v));
        assert(ser_items(w, g) =~= g(v) + seq![','] + ser_items(vs, g));
    } else {
        assert(w.drop_last() =~= seq![v] + vs.drop_last());
        lemma_ser_items_cons(v, vs.drop_last(), g);
        assert(w.last() == vs.last());
        assert(ser_items(w, g) == ser_items(seq![v] + vs.drop_last(), g) + seq![','] + g(
            vs.last(),
        ));
        assert(ser_items(w, g) =~= g(v) + seq![','] + (ser_items(vs.drop_last(), g) + seq![',']
            + g(vs.last())));
        assert(ser_items(w, g) =~= g(v) + seq![','] + ser_items(vs, g));
    }
}

/// A parsed array spans `(i, j)` exactly and re-serializes to that span.
proof fn lemma_parse_list_ser<T>(
    s: Seq<char>,
    i: int,
    f: spec_fn(Seq<char>, int) -> Option<(T, int)>,
    g: spec_fn(T) -> Seq<char>,
)
    requires
        0 <= i <= s.len(),
        parse_list(s, i, f) is Some,
        forall|ii: int|
            0 <= ii <= s.len() && (#[trigger] f(s, ii)) is Some ==> ({
                let (v, jj) = f(s, ii)->0;
                &&& ii < jj <= s.len()
                &&& s.subrange(ii, jj) == g(v)
            }),
    ensures
        ({
            let (vs, j) = parse_list(s, i, f)->0;
            &&& i < j <= s.len()
            &&& s.subrange(i, j) == ser_list(vs, g)
        }),
{
    let (vs, j) = parse_list(s, i, f)->0;
    if s[i + 1] == ']' {
        assert(s.subrange(i, i + 2) =~= seq![s[i]] + seq![s[i + 1]]);
        assert(ser_items(vs, g) == Seq::<char>::empty());
        assert(s.subrange(i, j) =~= ser_list(vs, g));
    } else {
        lemma_parse_items_ser(s, i + 1, f, g);
        assert(s.subrange(i, j) =~= seq![s[i]] + s.subrange(i + 1, j));
        assert(s.subrange(i, j) =~= seq!['['] + (ser_items(vs, g) + seq![']']));
        assert(s.subrange(i, j) =~= ser_list(vs, g));
    }
}

proof fn lemma_parse_expansions_ser(s: Seq<char>, i: int)
    requires
        0 <= i <= s.len(),
        parse_expansions_at(s, i) is Some,
    ensures
        ({
            let (vs, j) = parse_expansions_at(s, i)->0;
            &&& i < j <= s.len()
            &&& s.subrange(i, j) == ser_list(vs, exp_ser())
        }),
{
    assert forall|ii: int| 0 <= ii <= s.len() && (#[trigger] exp_parser()(s, ii)) is Some implies ({
        let (v, jj) = exp_parser()(s, ii)->0;
        &&& ii < jj <= s.len()
        &&& s.subrange(ii, jj) == exp_ser()(v)
    }) by {
        lemma_parse_expansion_ser(s, ii);
    }
    lemma_parse_list_ser(s, i, exp_parser(), exp_ser());
}

proof fn lemma_parse_level_ser(s: Seq<char>, i: int)
    requires
        0 <= i <= s.len(),
        parse_level_at(s, i) is Some,
    ensures
        ({
            let (v, j) = parse_level_at(s, i)->0;
            &&& i < j <= s.len()
            &&& s.subrange(i, j) == ser_level(v)
        }),
{
    let j1 = parse_lit(s, i, "{\"min\":"@)->0;
    let (mn, j2) = parse_i32_at(s, j1)->0;
    let j3 = parse_lit(s, j2, ",\"max\":"@)->0;
    let (mx, j4) = parse_i32_at(s, j3)->0;
    let j5 = parse_lit(s, j4, "}"@)->0;
    reveal_strlit("{\"min\":");
    lemma_parse_i32_canonical(s, j1);
    lemma_parse_i32_canonical(s, j3);
    lemma_subrange_split(s, i, j1, j2);
    lemma_subrange_split(s, i, j2, j3);
    lemma_subrange_split(s, i, j3, j4);
    lemma_subrange_split(s, i, j4, j5);
    let (v, j) = parse_level_at(s, i)->0;
    assert(s.subrange(i, j) == ser_level(v));
}

proof fn lemma_parse_daily_ser(s: Seq<char>, i: int)
    requires
        0 <= i <= s.len(),
        parse_daily_at(s, i) is Some,
    ensures
        ({
            let (v, j) = parse_daily_at(s, i)->0;
            &&& i < j <= s.len()
            &&& s.subrange(i, j) == ser_daily(v)
        }),
{
    let j1 = parse_lit(s, i, "{\"id\":"@)->0;
    let (id, j2) = parse_i32_at(s, j1)->0;
    let j3 = parse_lit(s, j2, ",\"level\":"@)->0;
    let (lv, j4) = parse_level_at(s, j3)->0;
    let j5 = parse_lit(s, j4, ",\"required_access\":"@)->0;
    let (ra, j6) = parse_expansions_at(s, j5)->0;
    let j7 = parse_lit(s, j6, "}"@)->0;
    reveal_strlit("{\"id\":");
    lemma_parse_i32_canonical(s, j1);
    lemma_parse_level_ser(s, j3);
    lemma_parse_expansions_ser(s, j5);
    lemma_subrange_split(s, i, j1, j2);
    lemma_subrange_split(s, i, j2, j3);
    lemma_subrange_split(s, i, j3, j4);
    lemma_subrange_split(s, i, j4, j5);
    lemma_subrange_split(s, i, j5, j6);
    lemma_subrange_split(s, i, j6, j7);
    let (v, j) = parse_daily_at(s, i)->0;
    assert(s.subrange(i, j) == ser_daily(v));
}

proof fn lemma_parse_dailies_ser(s: Seq<char>, i: int)
    requires
        0 <= i <= s.len(),
        parse_dailies_at(s, i) is Some,
    ensures
        ({
            let (vs, j) = parse_dailies_at(s, i)->0;
            &&& i < j <= s.len()
            &&& s.subrange(i, j) == ser_list(vs, daily_ser())
        }),
{
    assert forall|ii: int| 0 <= ii <= s.len() && (#[trigger] daily_parser()(s, ii)) is Some implies ({
        let (v, jj) = daily_parser()(s, ii)->0;
        &&& ii < jj <= s.len()
        &&& s.subrange(ii, jj) == daily_ser()(v)
    }) by {
        lemma_parse_daily_ser(s, ii);
    }
    lemma_parse_list_ser(s, i, daily_parser(), daily_ser());
}

proof fn lemma_parse_daily_set_ser(s: Seq<char>, i: int)
    requires
        0 <= i <= s.len(),
        parse_daily_set_at(s, i) is Some,
    ensures
        ({
            let (v, j) = parse_daily_set_at(s, i)->0;
            &&& i < j <= s.len()
            &&& s.subrange(i, j) == ser_daily_set(v)
        }),
{
    let j1 = parse_lit(s, i, "{\"pve\":"@)->0;
    let (pve, j2) = parse_dailies_at(s, j1)->0;
    let j3 = parse_lit(s, j2, ",\"pvp\":"@)->0;
    let (pvp, j4) = parse_dailies_at(s, j3)->0;
    let j5 = parse_lit(s, j4, ",\"wvw\":"@)->0;
    let (wvw, j6) = parse_dailies_at(s, j5)->0;
    let j7 = parse_lit(s, j6, ",\"fractals\":"@)->0;
    let (fractals, j8) = parse_dailies_at(s, j7)->0;
    let j9 = parse_lit(s, j8, "}"@)->0;
    reveal_strlit("{\"pve\":");
    lemma_parse_dailies_ser(s, j1);
    lemma_parse_dailies_ser(s, j3);
    lemma_parse_dailies_ser(s, j5);
    lemma_parse_dailies_ser(s, j7);
    lemma_subrange_split(s, i, j1, j2);
    lemma_subrange_split(s, i, j2, j3);
    lemma_subrange_split(s, i, j3, j4);
    lemma_subrange_split(s, i, j4, j5);
    lemma_subrange_split(s, i, j5, j6);
    lemma_subrange_split(s, i, j6, j7);
    lemma_subrange_split(s, i, j7, j8);
    lemma_subrange_split(s, i, j8, j9);
    let (v, j) = parse_daily_set_at(s, i)->0;
    assert(s.subrange(i, j) == ser_daily_set(v));
}

proof fn lemma_parse_tier_ser(s: Seq<char>, i: int)
    requires
        0 <= i <= s.len(),
        parse_tier_at(s, i) is Some,
    ensures
        ({
            let (v, j) = parse_tier_at(s, i)->0;
            &&& i < j <= s.len()
            &&& s.subrange(i, j) == ser_tier(v)
        }),
{
    let j1 = parse_lit(s, i, "{\"count\":"@)->0;
    let (count, j2) = parse_i32_at(s, j1)->0;
    let j3 = parse_lit(s, j2, ",\"points\":"@)->0;
    let (points, j4) = parse_i32_at(s, j3)->0;
    let j5 = parse_lit(s, j4, "}"@)->0;
    reveal_strlit("{\"count\":");
    lemma_parse_i32_canonical(s, j1);
    lemma_parse_i32_canonical(s, j3);
    lemma_subrange_split(s, i, j1, j2);
    lemma_subrange_split(s, i, j2, j3);
    lemma_subrange_split(s, i, j3, j4);
    lemma_subrange_split(s, i, j4, j5);
    let (v, j) = parse_tier_at(s, i)->0;
    assert(s.subrange(i, j) == ser_tier(v));
}

proof fn lemma_parse_reward_ser(s: Seq<char>, i: int)
    requires
        0 <= i <= s.len(),
        parse_reward_at(s, i) is Some,
    ensures
        ({
            let (v, j) = parse_reward_at(s, i)->0;
            &&& i < j <= s.len()
            &&& s.subrange(i, j) == ser_reward(v)
        }),
{
    let j1 = parse_lit(s, i, "{\"type\":"@)->0;
    let (kind, j2) = parse_jstr_at(s, j1)->0;
    let j3 = parse_lit(s, j2, ",\"id\":"@)->0;
    let (id, j4) = parse_i32_at(s, j3)->0;
    let j5 = parse_lit(s, j4, ",\"count\":"@)->0;
    let (count, j6) = parse_i32_at(s, j5)->0;
    let j7 = parse_lit(s, j6, "}"@)->0;
    reveal_strlit("{\"type\":");
    lemma_parse_jstr_ser(s, j1);
    lemma_parse_i32_canonical(s, j3);
    lemma_parse_i32_canonical(s, j5);
    lemma_subrange_split(s, i, j1, j2);
    lemma_subrange_split(s, i, j2, j3);
    lemma_subrange_split(s, i, j3, j4);
    lemma_subrange_split(s, i, j4, j5);
    lemma_subrange_split(s, i, j5, j6);
    lemma_subrange_split(s, i, j6, j7);
    let (v, j) = parse_reward_at(s, i)->0;
    assert(s.subrange(i, j) == ser_reward(v));
}

proof fn lemma_parse_strings_ser(s: Seq<char>, i: int)
    requires
        0 <= i <= s.len(),
        parse_strings_at(s, i) is Some,
    ensures
        ({
            let (vs, j) = parse_strings_at(s, i)->0;
            &&& i < j <= s.len()
            &&& s.subrange(i, j) == ser_list(vs, jstr_ser())
        }),
{
    assert forall|ii: int| 0 <= ii <= s.len() && (#[trigger] jstr_parser()(s, ii)) is Some implies ({
        let (v, jj) = jstr_parser()(s, ii)->0;
        &&& ii < jj <= s.len()
        &&& s.subrange(ii, jj) == jstr_ser()(v)
    }) by {
        lemma_parse_jstr_ser(s, ii);
    }
    lemma_parse_list_ser(s, i, jstr_parser(), jstr_ser());
}

proof fn lemma_parse_tiers_ser(s: Seq<char>, i: int)
    requires
        0 <= i <= s.len(),
        parse_tiers_at(s, i) is Some,
    ensures
        ({
            let (vs, j) = parse_tiers_at(s, i)->0;
            &&& i < j <= s.len()
            &&& s.subrange(i, j) == ser_list(vs, tier_ser())
        }),
{
    assert forall|ii: int| 0 <= ii <= s.len() && (#[trigger] tier_parser()(s, ii)) is Some implies ({
        let (v, jj) = tier_parser()(s, ii)->0;
        &&& ii < jj <= s.len()
        &&& s.subrange(ii, jj) == tier_ser()(v)
    }) by {
        lemma_parse_tier_ser(s, ii);
    }
    lemma_parse_list_ser(s, i, tier_parser(), tier_ser());
}

proof fn lemma_parse_rewards_ser(s: Seq<char>, i: int)
    requires
        0 <= i <= s.len(),
        parse_rewards_at(s, i) is Some,
    ensures
        ({
            let (vs, j) = parse_rewards_at(s, i)->0;
            &&& i < j <= s.len()
            &&& s.subrange(i, j) == ser_list(vs, reward_ser())
        }),
{
    assert forall|ii: int| 0 <= ii <= s.len() && (#[trigger] reward_parser()(s, ii)) is Some implies ({
        let (v, jj) = reward_parser()(s, ii)->0;
        &&& ii < jj <= s.len()
        &&& s.subrange(ii, jj) == reward_ser()(v)
    }) by {
        lemma_parse_reward_ser(s, ii);
    }
    lemma_parse_list_ser(s, i, reward_parser(), reward_ser());
}

proof fn lemma_parse_achievement_ser(s: Seq<char>, i: int)
    requires
        0 <= i <= s.len(),
        parse_achievement_at(s, i) is Some,
    ensures
        ({
            let (v, j) = parse_achievement_at(s, i)->0;
            &&& i < j <= s.len()
            &&& s.subrange(i, j) == ser_achievement(v)
        }),
{
    let j1 = parse_lit(s, i, "{\"id\":"@)->0;
    let (id, j2) = parse_i32_at(s, j1)->0;
    let j3 = parse_lit(s, j2, ",\"name\":"@)->0;
    let (name, j4) = parse_jstr_at(s, j3)->0;
    let j5 = parse_lit(s, j4, ",\"description\":"@)->0;
    let (description, j6) = parse_jstr_at(s, j5)->0;
    let j7 = parse_lit(s, j6, ",\"requirement\":"@)->0;
    let (requirement, j8) = parse_jstr_at(s, j7)->0;
    let j9 = parse_lit(s, j8, ",\"locked_text\":"@)->0;
    let (locked_text, j10) = parse_jstr_at(s, j9)->0;
    let j11 = parse_lit(s, j10, ",\"type\":"@)->0;
    let (kind, j12) = parse_jstr_at(s, j11)->0;
    let j13 = parse_lit(s, j12, ",\"flags\":"@)->0;
    let (flags, j14) = parse_strings_at(s, j13)->0;
    let j15 = parse_lit(s, j14, ",\"tiers\":"@)->0;
    let (tiers, j16) = parse_tiers_at(s, j15)->0;
    let j17 = parse_lit(s, j16, ",\"rewards\":"@)->0;
    let (rewards, j18) = parse_rewards_at(s, j17)->0;
    let j19 = parse_lit(s, j18, "}"@)->0;
    reveal_strlit("{\"id\":");
    lemma_parse_i32_canonical(s, j1);
    lemma_parse_jstr_ser(s, j3);
    lemma_parse_jstr_ser(s, j5);
    lemma_parse_jstr_ser(s, j7);
    lemma_parse_jstr_ser(s, j9);
    lemma_parse_jstr_ser(s, j11);
    lemma_parse_strings_ser(s, j13);
    lemma_parse_tiers_ser(s, j15);
    lemma_parse_rewards_ser(s, j17);
    lemma_subrange_split(s, i, j1, j2);
    lemma_subrange_split(s, i, j2, j3);
    lemma_subrange_split(s, i, j3, j4);
    lemma_subrange_split(s, i, j4, j5);
    lemma_subrange_split(s, i, j5, j6);
    lemma_subrange_split(s, i, j6, j7);
    lemma_subrange_split(s, i, j7, j8);
    lemma_subrange_split(s, i, j8, j9);
    lemma_subrange_split(s, i, j9, j10);
    lemma_subrange_split(s, i, j10, j11);
    lemma_subrange_split(s, i, j11, j12);
    lemma_subrange_split(s, i, j12, j13);
    lemma_subrange_split(s, i, j13, j14);
    lemma_subrange_split(s, i, j14, j15);
    lemma_subrange_split(s, i, j15, j16);
    lemma_subrange_split(s, i, j16, j17);
    lemma_subrange_split(s, i, j17, j18);
    lemma_subrange_split(s, i, j18, j19);
    let (v, j) = parse_achievement_at(s, i)->0;
    assert(s.subrange(i, j) == ser_achievement(v));
}

/// Decoding a dailies body and re-serializing the result yields that very
/// body: every field of the decoded daily set survives a round trip.
pub proof fn lemma_parse_then_ser_daily_set(t: Seq<char>)
    requires
        spec_decode_daily_set(t) is Some,
    ensures
        ser_daily_set(spec_decode_daily_set(t)->0) == t,
{
    lemma_parse_daily_set_ser(t, 0);
    assert(t.subrange(0, t.len() as int) =~= t);
}

/// Decoding an achievements body and re-serializing the result yields
/// that very body: every field of every achievement survives a round
/// trip.
pub proof fn lemma_parse_then_ser_achievements(t: Seq<char>)
    requires
        spec_decode_achievements(t) is Some,
    ensures
        ser_achievements(spec_decode_achievements(t)->0) == t,
{
    assert forall|ii: int| 0 <= ii <= t.len() && (#[trigger] achievement_parser()(t, ii)) is Some implies ({
        let (v, jj) = achievement_parser()(t, ii)->0;
        &&& ii < jj <= t.len()
        &&& t.subrange(ii, jj) == achievement_ser()(v)
    }) by {
        lemma_parse_achievement_ser(t, ii);
    }
    lemma_parse_list_ser(t, 0, achievement_parser(), achievement_ser());
    assert(t.subrange(0, t.len() as int) =~= t);
}

} // verus!
