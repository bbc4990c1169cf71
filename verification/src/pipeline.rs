//! The fractal resolution pipeline: extract the fractal daily IDs in
//! order, build the comma-joined ID query for the achievements endpoint,
//! and map the returned achievement list onto the two fixed categories.

use vstd::prelude::*;
use crate::model::Daily;
use crate::model::DailySet;
use crate::model::Achievement;
use crate::errors::BotError;
use crate::numbers::ser_int;
use crate::numbers::append_dec_i32;

verus! {

// The achievements endpoint is assumed to answer in the same order as the
// requested ID list, and on the fractal rotation that order places the
// recommended fractals at positions 0, 1, 2 and the daily fractals at
// positions 6, 10, 14. This positional contract is undocumented upstream
// behaviour; the pipeline states it here once and fails loudly (see
// `summarize`) when the response is too short for it.
pub const RECOMMENDED_INDEX_FIRST: usize = 0;

pub const RECOMMENDED_INDEX_SECOND: usize = 1;

pub const RECOMMENDED_INDEX_THIRD: usize = 2;

pub const DAILY_INDEX_FIRST: usize = 6;

pub const DAILY_INDEX_SECOND: usize = 10;

pub const DAILY_INDEX_THIRD: usize = 14;

/// How many achievements the response must hold for the fixed indices
/// above to be in bounds.
pub const REQUIRED_ACHIEVEMENT_COUNT: usize = 15;

/// The achievement IDs of a list of dailies, in the same order.
pub open spec fn ids_of(ds: Seq<Daily>) -> Seq<i32> {
    ds.map_values(|d: Daily| d.id)
}

/// The canonical decimal notations of `ids` joined by single commas, with
/// no trailing separator.
pub open spec fn join_ids(ids: Seq<i32>) -> Seq<char>
    decreases ids.len(),
{
    if ids.len() == 0 {
        Seq::<char>::empty()
    } else if ids.len() == 1 {
        ser_int(ids[0] as int)
    } else {
        join_ids(ids.drop_last()) + seq![','] + ser_int(ids.last() as int)
    }
}

/// The IDs of the fractal dailies, preserving their order.
pub fn fractal_ids(d: &DailySet) -> (r: Vec<i32>)
    ensures
        r@ == ids_of(d.fractals@),
{
    let mut r: Vec<i32> = Vec::new();
    let mut k: usize = 0;
    while k < d.fractals.len()
        invariant
            k <= d.fractals.len(),
            r@ == ids_of(d.fractals@.take(k as int)),
        decreases d.fractals.len() - k,
    {
        r.push(d.fractals[k].id);
        proof {
            assert(d.fractals@.take(k + 1).map_values(|dd: Daily| dd.id) =~= d.fractals@.take(
                k as int,
            ).map_values(|dd: Daily| dd.id).push(d.fractals@[k as int].id));
        }
        k += 1;
    }
    proof {
        assert(d.fractals@.take(d.fractals@.len() as int) =~= d.fractals@);
    }
    r
}

/// Renders `ids` as the comma-joined query value the achievements
/// endpoint expects: original order, no trailing separator.
pub fn ids_query(ids: &Vec<i32>) -> (r: String)
    ensures
        r@ == join_ids(ids@),
{
    let mut out = String::new();
    let mut k: usize = 0;
    proof {
        assert(ids@.take(0) =~= Seq::<i32>::empty());
    }
    while k < ids.len()
        invariant
            k <= ids.len(),
            out@ == join_ids(ids@.take(k as int)),
        decreases ids.len() - k,
    {
        if k > 0 {
            out.append(",");
        }
        append_dec_i32(&mut out, ids[k]);
        proof {
            reveal_strlit(",");
            let pre = ids@.take(k as int);
            let post = ids@.take(k + 1);
            assert(post.drop_last() =~= pre);
            assert(post.last() == ids@[k as int]);
            if k == 0 {
                assert(out@ =~= join_ids(post));
            } else {
                assert(out@ =~= join_ids(pre) + seq![','] + ser_int(ids@[k as int] as int));
            }
        }
        k += 1;
    }
    proof {
        assert(ids@.take(ids@.len() as int) =~= ids@);
    }
    out
}

/// The URL of the "tomorrow's dailies" endpoint.
pub fn dailies_url() -> (r: String)
    ensures
        r@ == "http://api.guildwars2.com/v2/achievements/daily/tomorrow"@,
{
    let mut out = String::new();
    out.append("http://api.guildwars2.com/v2/achievements/daily/tomorrow");
    proof {
        assert(out@ =~= "http://api.guildwars2.com/v2/achievements/daily/tomorrow"@);
    }
    out
}

/// The URL of the achievements endpoint for the given ID list.
pub fn achievements_url(ids: &Vec<i32>) -> (r: String)
    ensures
        r@ == "https://api.guildwars2.com/v2/achievements?ids="@ + join_ids(ids@),
{
    let mut out = String::new();
    out.append("https://api.guildwars2.com/v2/achievements?ids=");
    let q = ids_query(ids);
    out.append(q.as_str());
    proof {
        assert(out@ =~= "https://api.guildwars2.com/v2/achievements?ids="@ + join_ids(ids@));
    }
    out
}

/// Three display names joined by a comma and a space.
pub open spec fn three_names(a: Seq<char>, b: Seq<char>, c: Seq<char>) -> Seq<char> {
    a + ", "@ + b + ", "@ + c
}

/// The "Daily Fractals" line: the names at the fixed daily indices.
pub open spec fn daily_names(achs: Seq<Achievement>) -> Seq<char> {
    three_names(
        achs[DAILY_INDEX_FIRST as int].name@,
        achs[DAILY_INDEX_SECOND as int].name@,
        achs[DAILY_INDEX_THIRD as int].name@,
    )
}

/// The "Recommended Fractals" line: the names at the fixed recommended
/// indices.
pub open spec fn recommended_names(achs: Seq<Achievement>) -> Seq<char> {
    three_names(
        achs[RECOMMENDED_INDEX_FIRST as int].name@,
        achs[RECOMMENDED_INDEX_SECOND as int].name@,
        achs[RECOMMENDED_INDEX_THIRD as int].name@,
    )
}

fn join_three(a: &String, b: &String, c: &String) -> (r: String)
    ensures
        r@ == three_names(a@, b@, c@),
{
    let mut out = String::new();
    out.append(a.as_str());
    out.append(", ");
    out.append(b.as_str());
    out.append(", ");
    out.append(c.as_str());
    proof {
        assert(out@ =~= three_names(a@, b@, c@));
    }
    out
}

/// Selects the two fixed category groups from the achievement list. The
/// response must hold at least `REQUIRED_ACHIEVEMENT_COUNT` entries;
/// anything shorter is reported as an `IndexError` carrying the length
/// that was returned, and no names are fabricated.
pub fn summarize(achs: &Vec<Achievement>) -> (r: Result<(String, String), BotError>)
    ensures
        achs@.len() >= REQUIRED_ACHIEVEMENT_COUNT ==> (r matches Ok((d, rec))
            && d@ == daily_names(achs@) && rec@ == recommended_names(achs@)),
        achs@.len() < REQUIRED_ACHIEVEMENT_COUNT ==> r == Err::<(String, String), BotError>(
            BotError::IndexError(achs@.len() as usize),
        ),
{
    let n = achs.len();
    if n < REQUIRED_ACHIEVEMENT_COUNT {
        return Err(BotError::IndexError(n));
    }
    let daily = join_three(
        &achs[DAILY_INDEX_FIRST].name,
        &achs[DAILY_INDEX_SECOND].name,
        &achs[DAILY_INDEX_THIRD].name,
    );
    let recommended = join_three(
        &achs[RECOMMENDED_INDEX_FIRST].name,
        &achs[RECOMMENDED_INDEX_SECOND].name,
        &achs[RECOMMENDED_INDEX_THIRD].name,
    );
    Ok((daily, recommended))
}

} // verus!
