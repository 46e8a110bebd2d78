//! Whether something remembered is old.
use vstd::prelude::*;
#[allow(unused_imports)]
use vstd::string::*;

#[allow(unused_imports)]
use crate::clock::{unix_millis};
#[allow(unused_imports)]
use crate::precision::double::{
    Double, HIGH_DOUBLE, LOW_DOUBLE, capped, law_double_rounding_keeps_order, lemma_double_count,
    lemma_rounded_double_is_proper, nearest_whole_of, rounded_double, whole_of,
};
#[allow(unused_imports)]
use crate::precision::single::{Digits, below, lemma_two_to, two_to};
#[allow(unused_imports)]
use crate::text::{cat2, cat3, decimal, decimal_text, same_text};

verus! {

/// A day, in seconds.
pub const DAY_SECS: u64 = 86_400;

/// After how many days there is a note.
pub const STALE_NOTE_DAYS: u64 = 1;

/// After how many days there is a warning.
pub const VERY_STALE_DAYS: u64 = 7;

/// A number of days.
pub open spec fn days(n: nat) -> Digits {
    rounded_double(n, 1, 0)
}

/// An age in words: hours, days, or weeks, whole days and nearest hours and
/// weeks.
pub open spec fn age_text(age: Digits) -> Seq<char> {
    if below(age, days(1)) {
        decimal(capped(nearest_whole_of(rounded_double(24 * age.0, 1, age.1)))) + "h ago"@
    } else if below(age, days(7)) {
        let n = capped(whole_of(age));
        if n == 1 {
            "1 day ago"@
        } else {
            decimal(n) + " days ago"@
        }
    } else {
        let weeks = capped(nearest_whole_of(rounded_double(age.0, 7, age.1)));
        if weeks == 1 {
            "1 week ago"@
        } else {
            decimal(weeks) + " weeks ago"@
        }
    }
}

/// Tells an age, given in days, in words.
pub fn format_age(days: &Double) -> (r: String)
    requires
        days.wf(),
    ensures
        r@ == age_text(days@),
{
    if days.is_below(&Double::of_count(1)) {
        let hours: u64 = days.times(24).nearest_whole();
        cat2(decimal_text(hours).as_str(), "h ago")
    } else if days.is_below(&Double::of_count(7)) {
        let d: u64 = days.whole();
        if d == 1 {
            "1 day ago".to_owned()
        } else {
            cat2(decimal_text(d).as_str(), " days ago")
        }
    } else {
        let weeks: u64 = days.over(7).nearest_whole();
        if weeks == 1 {
            "1 week ago".to_owned()
        } else {
            cat2(decimal_text(weeks).as_str(), " weeks ago")
        }
    }
}

/// How many seconds old something is; none where it comes later.
pub open spec fn age(now: int, created: int) -> nat {
    if now < created {
        0
    } else {
        (now - created) as nat
    }
}

/// Seconds as a number of days.
pub open spec fn in_days(secs: nat) -> Digits {
    let counted = rounded_double(secs, 1, 0);
    rounded_double(counted.0, DAY_SECS as nat, counted.1)
}

/// What is said of something remembered: what is curated, of unknown age or a
/// day old at most needs no word, up to a week a note, after that a warning.
pub open spec fn staleness_note(source: Seq<char>, created_at: Option<i64>, now: i64) -> Seq<char> {
    if source == "global"@ || source == "workspace"@ || created_at is None {
        ""@
    } else {
        let old = in_days(age(now as int, created_at->0 as int));
        if below(days(VERY_STALE_DAYS as nat), old) {
            "**Stale ("@ + age_text(old)
                + "):** Verify current state before relying on this.\n"@
        } else if below(days(STALE_NOTE_DAYS as nat), old) {
            "**Note ("@ + age_text(old) + "):** Verify this is still current.\n"@
        } else {
            ""@
        }
    }
}

/// What is said of something remembered at a time, in seconds.
pub fn staleness_note_at(source: &str, created_at: Option<i64>, now: i64) -> (r: String)
    ensures
        r@ == staleness_note(source@, created_at, now),
{
    if same_text(source, "global") || same_text(source, "workspace") {
        return "".to_owned();
    }
    match created_at {
        None => "".to_owned(),
        Some(created) => {
            let secs: u64 = if now < created {
                0
            } else {
                (now as i128 - created as i128) as u64
            };
            let old: Double = Double::of_count(secs).over(DAY_SECS);
            if Double::of_count(VERY_STALE_DAYS).is_below(&old) {
                cat3(
                    "**Stale (",
                    format_age(&old).as_str(),
                    "):** Verify current state before relying on this.\n",
                )
            } else if Double::of_count(STALE_NOTE_DAYS).is_below(&old) {
                cat3("**Note (", format_age(&old).as_str(), "):** Verify this is still current.\n")
            } else {
                "".to_owned()
            }
        },
    }
}

/// What is said of something remembered now.
pub fn format_staleness_note(source: &str, created_at: Option<i64>) -> (r: String)
    ensures
        exists|now: i64| r@ == #[trigger] staleness_note(source@, created_at, now),
{
    let now: i64 = (unix_millis() / 1_000) as i64;
    staleness_note_at(source, created_at, now)
}

// ---- laws ----

/// What is curated, or comes from the future, gets no word.
pub proof fn law_curated_and_future_get_no_note(source: Seq<char>, created_at: Option<i64>, now: i64)
    requires
        source == "global"@ || source == "workspace"@ || created_at is None || now <= created_at->0,
    ensures
        staleness_note(source, created_at, now) == ""@,
{
}

proof fn lemma_quotient_at_threshold(secs: nat, n: nat, m: nat, x: nat)
    requires
        secs > 0,
        0 < n <= 7,
        50 <= x <= 52,
        m == n * two_to(x),
        LOW_DOUBLE <= m,
        m + 1 < HIGH_DOUBLE,
    ensures
        below((m, -x as int), in_days(secs)) == (secs > n * DAY_SECS),
        days(n) == (m, -x as int),
{
    let e = -x as int;
    let at = (m, e);
    let after = (m + 1, e);
    let counted = rounded_double(secs, 1, 0);
    let unit = two_to(x);
    assert(two_to(50) == 1_125_899_906_842_624) by {
        reveal_with_fuel(two_to, 51);
    }
    lemma_two_to(50, x);
    lemma_double_count(secs);
    assert(days(n) == at) by {
        assert(n * unit <= 1 * m && n * unit >= 1 * m);
        law_double_rounding_keeps_order(n, 1, 0, at);
        lemma_rounded_double_is_proper(n, 1, 0);
    }
    lemma_rounded_double_is_proper(counted.0, DAY_SECS as nat, counted.1);
    law_double_rounding_keeps_order(counted.0, DAY_SECS as nat, counted.1, at);
    law_double_rounding_keeps_order(counted.0, DAY_SECS as nat, counted.1, after);
    if secs < LOW_DOUBLE {
        let y = (-counted.1) as nat;
        let t = two_to(y);
        if counted.1 <= e {
            // The quotient has more places than the bound.
            let w = two_to((e - counted.1) as nat);
            lemma_two_to(x, (e - counted.1) as nat);
            assert(t == unit * w);
            lemma_two_to((e - counted.1) as nat, 0);
            if secs <= n * DAY_SECS {
                assert(counted.0 <= DAY_SECS * (m * w)) by (nonlinear_arith)
                    requires
                        counted.0 == secs * t,
                        t == unit * w,
                        m == n * unit,
                        secs <= n * DAY_SECS,
                ;
            } else {
                assert(counted.0 >= DAY_SECS * ((m + 1) * w)) by (nonlinear_arith)
                    requires
                        counted.0 == secs * t,
                        t == unit * w,
                        m == n * unit,
                        secs >= n * DAY_SECS + 1,
                        unit >= DAY_SECS,
                        w >= 1,
                ;
            }
        } else {
            let w = two_to((counted.1 - e) as nat);
            lemma_two_to(y, (counted.1 - e) as nat);
            assert(unit == t * w);
            if secs <= n * DAY_SECS {
                assert(counted.0 * w <= DAY_SECS * m) by (nonlinear_arith)
                    requires
                        counted.0 == secs * t,
                        unit == t * w,
                        m == n * unit,
                        secs <= n * DAY_SECS,
                ;
            } else {
                assert(counted.0 * w >= DAY_SECS * (m + 1)) by (nonlinear_arith)
                    requires
                        counted.0 == secs * t,
                        unit == t * w,
                        m == n * unit,
                        secs >= n * DAY_SECS + 1,
                        unit >= DAY_SECS,
                ;
            }
        }
    } else {
        let w = two_to((counted.1 - e) as nat);
        lemma_two_to(50, (counted.1 - e) as nat);
        assert(counted.0 * w >= DAY_SECS * (m + 1)) by (nonlinear_arith)
            requires
                counted.0 >= LOW_DOUBLE,
                w >= 1_125_899_906_842_624,
                m + 1 < HIGH_DOUBLE,
        ;
    }
}

/// What is not curated gets a warning when it is older than seven days, a note
/// when it is older than one day, and else no word.
pub proof fn law_notes_go_by_age(source: Seq<char>, created: i64, now: i64)
    requires
        source != "global"@,
        source != "workspace"@,
    ensures
        ({
            let secs = age(now as int, created as int);
            staleness_note(source, Some(created), now) == if secs > 7 * DAY_SECS {
                "**Stale ("@ + age_text(in_days(secs))
                    + "):** Verify current state before relying on this.\n"@
            } else if secs > DAY_SECS {
                "**Note ("@ + age_text(in_days(secs)) + "):** Verify this is still current.\n"@
            } else {
                ""@
            }
        }),
{
    let secs = age(now as int, created as int);
    if secs > 0 {
        assert(two_to(50) == 1_125_899_906_842_624 && two_to(52) == LOW_DOUBLE) by {
            reveal_with_fuel(two_to, 53);
        }
        lemma_quotient_at_threshold(secs, 1, LOW_DOUBLE as nat, 52);
        lemma_quotient_at_threshold(secs, 7, 7 * 1_125_899_906_842_624, 50);
    }
}

} // verus!
