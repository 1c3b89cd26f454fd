//! The allowance ledger: a per-user spending quota that regenerates
//! continuously over wall-clock time up to a cap.
//!
//! The quota is not stored as a balance. Each account stores a single
//! instant, `time_to_full`: the future moment at which the user's balance
//! will have regenerated completely. The balance at any moment is derived
//! from that instant, the current time, the daily accrual rate, and the cap.
//! All arithmetic is integer fixed-point: costs are nanodollars, instants
//! are milliseconds since the Unix epoch, and the cap is given in
//! thousandths of a day, so that repeated debits cannot drift.

use vstd::prelude::*;

use vstd::arithmetic::div_mod::{
    lemma_div_is_ordered,
    lemma_div_multiples_vanish,
    lemma_div_pos_is_pos,
    lemma_fundamental_div_mod,
    lemma_fundamental_div_mod_converse,
    lemma_hoist_over_denominator,
};
use vstd::arithmetic::mul::{lemma_mul_inequality, lemma_mul_upper_bound};

use crate::gpt::{GptModel, TokenUsage};
use crate::text::{fixed2_str, i64_fixed2_string, u64_fixed2_string, fixed2_nonneg_str};

verus! {

/// The allowance a user gets over time each day, in nanodollars, by default.
pub const DEFAULT_DAILY_ALLOWANCE: u32 = 2_500_000;

/// How much allowance a user can save up before it stops accruing, in
/// thousandths of a day, by default: four days' worth.
pub const DEFAULT_ACCRUAL_MILLIDAYS: u32 = 4_000;

pub const MILLISECONDS_PER_DAY: u64 = 1000 * 60 * 60 * 24;

/// Horizon for every stored instant, in milliseconds since the Unix epoch:
/// roughly thirty-six million years. Keeping instants under this bound keeps
/// every balance computation inside fixed-width integers.
pub const MAX_TIME_MS: u64 = 0x0FFF_FFFF_FFFF_FFFF;

/// Rates under which the ledger's arithmetic is exact: at least one
/// nanodollar per day and no more than one nanodollar per millisecond, and a
/// cap of at most a thousand days.
pub open spec fn valid_rate(daily_allowance: u32, accrual_millidays: u32) -> bool {
    &&& 1 <= daily_allowance <= MILLISECONDS_PER_DAY
    &&& 1 <= accrual_millidays <= 1_000_000
}

/// The cap: the largest balance an account can regenerate to, in nanodollars.
pub open spec fn spec_max_balance(daily_allowance: int, accrual_millidays: int) -> int {
    daily_allowance * accrual_millidays / 1000
}

/// Nanodollars still missing from an account whose stored instant is
/// `time_to_full`, at instant `now`.
pub open spec fn spec_debt(time_to_full: int, now: int, daily_allowance: int) -> int {
    if time_to_full <= now {
        0
    } else {
        (time_to_full - now) * daily_allowance / (MILLISECONDS_PER_DAY as int)
    }
}

/// The balance of an account whose stored instant is `time_to_full`, at
/// instant `now`. Negative when more has been spent than the cap.
pub open spec fn spec_balance(
    time_to_full: int,
    now: int,
    daily_allowance: int,
    accrual_millidays: int,
) -> int {
    spec_max_balance(daily_allowance, accrual_millidays) - spec_debt(
        time_to_full,
        now,
        daily_allowance,
    )
}

/// The time-equivalent of a cost: how many milliseconds of accrual pay for
/// `cost` nanodollars, rounded up so that the debit is never understated.
pub open spec fn spec_added_ms(cost: int, daily_allowance: int) -> int {
    (cost * (MILLISECONDS_PER_DAY as int) + daily_allowance - 1) / daily_allowance
}

/// The stored instant that is in effect at `now`: a stale instant in the
/// past can never imply a balance above the cap, so the effective instant is
/// never earlier than `now`.
pub open spec fn spec_effective(time_to_full: Option<u64>, now: u64) -> int {
    match time_to_full {
        Some(t) => if t <= now {
            now as int
        } else {
            t as int
        },
        None => now as int,
    }
}

/// The largest balance an account can regenerate to, in nanodollars.
pub fn max_balance(daily_allowance: u32, accrual_millidays: u32) -> (r: i64)
    requires
        valid_rate(daily_allowance, accrual_millidays),
    ensures
        r == spec_max_balance(daily_allowance as int, accrual_millidays as int),
        0 <= r <= 100_000_000_000_000,
{
    proof {
        lemma_mul_upper_bound(
            daily_allowance as int,
            MILLISECONDS_PER_DAY as int,
            accrual_millidays as int,
            1_000_000,
        );
        lemma_div_pos_is_pos(daily_allowance as int * accrual_millidays as int, 1000);
        lemma_div_is_ordered(
            daily_allowance as int * accrual_millidays as int,
            MILLISECONDS_PER_DAY as int * 1_000_000,
            1000,
        );
    }
    ((daily_allowance as u64 * accrual_millidays as u64) / 1000) as i64
}

/// The balance derived from a stored instant at instant `now`.
pub fn check_balance(time_to_full: u64, now: u64, daily_allowance: u32, accrual_millidays: u32) -> (r:
    i64)
    requires
        valid_rate(daily_allowance, accrual_millidays),
        time_to_full <= MAX_TIME_MS,
    ensures
        r == spec_balance(
            time_to_full as int,
            now as int,
            daily_allowance as int,
            accrual_millidays as int,
        ),
{
    let max_bal = max_balance(daily_allowance, accrual_millidays);
    if time_to_full <= now {
        return max_bal;
    }
    let ms_left: u64 = time_to_full - now;
    proof {
        lemma_mul_upper_bound(
            ms_left as int,
            MAX_TIME_MS as int,
            daily_allowance as int,
            MILLISECONDS_PER_DAY as int,
        );
        lemma_debt_at_most_ms_left(ms_left as int, daily_allowance as int);
    }
    let debt: u128 = (ms_left as u128) * (daily_allowance as u128) / (MILLISECONDS_PER_DAY
        as u128);
    max_bal - (debt as i64)
}

/// How many milliseconds of accrual pay for `cost` nanodollars, rounded up.
pub fn added_milliseconds(cost: u32, daily_allowance: u32) -> (r: u64)
    requires
        1 <= daily_allowance <= MILLISECONDS_PER_DAY,
    ensures
        r == spec_added_ms(cost as int, daily_allowance as int),
        r <= cost as int * (MILLISECONDS_PER_DAY as int),
{
    proof {
        lemma_mul_upper_bound(
            cost as int,
            u32::MAX as int,
            MILLISECONDS_PER_DAY as int,
            MILLISECONDS_PER_DAY as int,
        );
        lemma_added_ms_bound(cost as int, daily_allowance as int);
    }
    (cost as u64 * MILLISECONDS_PER_DAY + (daily_allowance as u64 - 1)) / (daily_allowance as u64)
}

/// A debt of `ms_left` milliseconds costs at most `ms_left` nanodollars,
/// because the rate is at most one nanodollar per millisecond.
proof fn lemma_debt_at_most_ms_left(ms_left: int, daily_allowance: int)
    requires
        0 <= ms_left,
        1 <= daily_allowance <= MILLISECONDS_PER_DAY,
    ensures
        0 <= ms_left * daily_allowance / (MILLISECONDS_PER_DAY as int) <= ms_left,
{
    let day = MILLISECONDS_PER_DAY as int;
    lemma_mul_inequality(daily_allowance, day, ms_left);
    assert(ms_left * daily_allowance == daily_allowance * ms_left) by (nonlinear_arith);
    lemma_div_is_ordered(ms_left * daily_allowance, day * ms_left, day);
    lemma_div_multiples_vanish(ms_left, day);
    lemma_mul_nonneg_quotient(ms_left, daily_allowance, day);
}

proof fn lemma_mul_nonneg_quotient(x: int, y: int, d: int)
    requires
        0 <= x,
        0 <= y,
        0 < d,
    ensures
        0 <= x * y / d,
{
    assert(0 <= x * y) by (nonlinear_arith)
        requires
            0 <= x,
            0 <= y,
    ;
    lemma_div_pos_is_pos(x * y, d);
}

/// The rounded-up time-equivalent of a cost is bounded by the cost in days.
proof fn lemma_added_ms_bound(cost: int, daily_allowance: int)
    requires
        0 <= cost,
        1 <= daily_allowance <= MILLISECONDS_PER_DAY,
    ensures
        0 <= spec_added_ms(cost, daily_allowance) <= cost * (MILLISECONDS_PER_DAY as int),
{
    let day = MILLISECONDS_PER_DAY as int;
    let r = daily_allowance;
    let numer = cost * day + r - 1;
    assert(0 <= cost * day) by (nonlinear_arith)
        requires
            0 <= cost,
            0 < day,
    ;
    lemma_div_pos_is_pos(numer, r);
    if cost == 0 {
        assert(numer == r - 1);
        vstd::arithmetic::div_mod::lemma_basic_div(numer, r);
    } else {
        assert(1 <= cost * day) by (nonlinear_arith)
            requires
                1 <= cost,
                1 <= day,
        ;
        lemma_fundamental_div_mod(numer, r);
        assert(numer / r <= cost * day) by (nonlinear_arith)
            requires
                1 <= r,
                1 <= cost * day,
                numer == cost * day + r - 1,
                numer == r * (numer / r) + numer % r,
                0 <= numer % r < r,
        ;
    }
}

/// A balance never exceeds the cap, whatever the account's stored instant.
pub proof fn lemma_balance_never_exceeds_max(
    time_to_full: int,
    now: int,
    daily_allowance: u32,
    accrual_millidays: u32,
)
    requires
        valid_rate(daily_allowance, accrual_millidays),
        0 <= now,
    ensures
        spec_balance(time_to_full, now, daily_allowance as int, accrual_millidays as int)
            <= spec_max_balance(daily_allowance as int, accrual_millidays as int),
        time_to_full <= now ==> spec_balance(
            time_to_full,
            now,
            daily_allowance as int,
            accrual_millidays as int,
        ) == spec_max_balance(daily_allowance as int, accrual_millidays as int),
{
    if time_to_full > now {
        lemma_mul_nonneg_quotient(
            time_to_full - now,
            daily_allowance as int,
            MILLISECONDS_PER_DAY as int,
        );
    }
}

/// Rounding up a cost to milliseconds and flooring back to nanodollars is
/// exact: the debit recorded for a spend of `cost` is `cost` itself.
pub proof fn lemma_added_ms_round_trip(cost: int, daily_allowance: u32)
    requires
        0 <= cost,
        1 <= daily_allowance <= MILLISECONDS_PER_DAY,
    ensures
        spec_added_ms(cost, daily_allowance as int) * (daily_allowance as int) / (
        MILLISECONDS_PER_DAY as int) == cost,
{
    let day = MILLISECONDS_PER_DAY as int;
    let r = daily_allowance as int;
    let a = spec_added_ms(cost, r);
    // a == ceil(cost * day / r): r * a is within [cost * day, cost * day + r - 1].
    lemma_fundamental_div_mod(cost * day + r - 1, r);
    let rem = (cost * day + r - 1) % r;
    assert(cost * day + r - 1 == r * a + rem);
    assert(cost * day <= a * r <= cost * day + r - 1) by (nonlinear_arith)
        requires
            cost * day + r - 1 == r * a + rem,
            0 <= rem < r,
            1 <= r,
    ;
    // Lower bound: a * r / day >= cost.
    lemma_div_is_ordered(cost * day, a * r, day);
    lemma_div_multiples_vanish(cost, day);
    assert(cost * day == day * cost) by (nonlinear_arith);
    // Upper bound: a * r <= cost * day + day - 1, whose quotient by day is cost.
    assert(a * r <= cost * day + day - 1);
    lemma_div_is_ordered(a * r, cost * day + day - 1, day);
    lemma_hoist_over_denominator(day - 1, cost, day as nat);
    vstd::arithmetic::div_mod::lemma_basic_div(day - 1, day);
    assert(cost * day == cost * day) by (nonlinear_arith);
    assert((day - 1) / day + cost == (day - 1 + cost * day) / day);
    lemma_mul_nonneg_quotient(a, r, day);
}

/// Spending can only lower the balance: the debt grows by at least the
/// debited cost when the stored instant moves forward by its
/// time-equivalent.
pub proof fn lemma_spend_monotonic(
    time_to_full: int,
    now: int,
    cost: int,
    daily_allowance: u32,
    accrual_millidays: u32,
)
    requires
        valid_rate(daily_allowance, accrual_millidays),
        0 <= cost,
        0 <= now,
        now <= time_to_full,
    ensures
        spec_balance(
            time_to_full + spec_added_ms(cost, daily_allowance as int),
            now,
            daily_allowance as int,
            accrual_millidays as int,
        ) <= spec_balance(time_to_full, now, daily_allowance as int, accrual_millidays as int)
            - cost,
{
    let day = MILLISECONDS_PER_DAY as int;
    let r = daily_allowance as int;
    let a = spec_added_ms(cost, r);
    let ms_left = time_to_full - now;
    lemma_added_ms_bound(cost, r);
    lemma_added_ms_round_trip(cost, daily_allowance);
    // debt(ms_left + a) >= debt(ms_left) + debt(a) == debt(ms_left) + cost.
    assert((ms_left + a) * r == ms_left * r + a * r) by (nonlinear_arith);
    lemma_div_superadditive(ms_left * r, a * r, day);
    assert(0 <= ms_left * r) by (nonlinear_arith)
        requires
            0 <= ms_left,
            0 <= r,
    ;
    assert(0 <= a * r) by (nonlinear_arith)
        requires
            0 <= a,
            0 <= r,
    ;
}

/// Floor division is superadditive over nonnegative numerators.
proof fn lemma_div_superadditive(x: int, y: int, d: int)
    requires
        0 <= x,
        0 <= y,
        0 < d,
    ensures
        (x + y) / d >= x / d + y / d,
{
    lemma_fundamental_div_mod(x, d);
    lemma_fundamental_div_mod(y, d);
    let q1 = x / d;
    let q2 = y / d;
    let s = x % d + y % d;
    assert(x + y == d * (q1 + q2) + s) by (nonlinear_arith)
        requires
            x == d * q1 + x % d,
            y == d * q2 + y % d,
            s == x % d + y % d,
    ;
    assert(d * (q1 + q2) == (q1 + q2) * d) by (nonlinear_arith);
    if s < d {
        lemma_fundamental_div_mod_converse(x + y, d, q1 + q2, s);
    } else {
        assert(x + y == (q1 + q2 + 1) * d + (s - d)) by (nonlinear_arith)
            requires
                x + y == (q1 + q2) * d + s,
        ;
        lemma_fundamental_div_mod_converse(x + y, d, q1 + q2 + 1, s - d);
    }
}

/// Checking right after a spend can never show more than the cap, and shows
/// at least `cost` less than the balance before the spend, whatever the
/// account held: the stored instant a spend writes is the effective instant
/// plus the cost's time-equivalent, and both bounds hold of it.
pub proof fn lemma_check_after_spend(
    account: Option<u64>,
    now: u64,
    cost: u32,
    daily_allowance: u32,
    accrual_millidays: u32,
)
    requires
        valid_rate(daily_allowance, accrual_millidays),
    ensures
        ({
            let t = spec_effective(account, now);
            let added = spec_added_ms(cost as int, daily_allowance as int);
            let after = spec_balance(
                t + added,
                now as int,
                daily_allowance as int,
                accrual_millidays as int,
            );
            let before = spec_balance(
                t,
                now as int,
                daily_allowance as int,
                accrual_millidays as int,
            );
            after <= spec_max_balance(daily_allowance as int, accrual_millidays as int) && after
                <= before - cost
        }),
{
    let t = spec_effective(account, now);
    lemma_balance_never_exceeds_max(
        t + spec_added_ms(cost as int, daily_allowance as int),
        now as int,
        daily_allowance,
        accrual_millidays,
    );
    lemma_spend_monotonic(t, now as int, cost as int, daily_allowance, accrual_millidays);
}

/// Every balance a well-formed ledger can report lies in a narrow fixed
/// range: never above the cap, and never below the negated time horizon.
pub proof fn lemma_balance_in_i64_range(
    account: Option<u64>,
    now: u64,
    daily_allowance: u32,
    accrual_millidays: u32,
)
    requires
        valid_rate(daily_allowance, accrual_millidays),
        now <= MAX_TIME_MS,
        account matches Some(t) ==> t <= MAX_TIME_MS,
    ensures
        ({
            let b = spec_balance(
                spec_effective(account, now),
                now as int,
                daily_allowance as int,
                accrual_millidays as int,
            );
            -(MAX_TIME_MS as int) <= b <= spec_max_balance(
                daily_allowance as int,
                accrual_millidays as int,
            )
        }),
        0 <= spec_max_balance(daily_allowance as int, accrual_millidays as int)
            <= 100_000_000_000_000,
{
    let t = spec_effective(account, now);
    lemma_balance_never_exceeds_max(t, now as int, daily_allowance, accrual_millidays);
    if t > now {
        lemma_debt_at_most_ms_left(t - now, daily_allowance as int);
    }
    lemma_mul_upper_bound(
        daily_allowance as int,
        MILLISECONDS_PER_DAY as int,
        accrual_millidays as int,
        1_000_000,
    );
    lemma_div_pos_is_pos(daily_allowance as int * accrual_millidays as int, 1000);
    lemma_div_is_ordered(
        daily_allowance as int * accrual_millidays as int,
        MILLISECONDS_PER_DAY as int * 1_000_000,
        1000,
    );
}

/// A spend from a full account leaves exactly the cap minus the cost: the
/// fixed-point round trip introduces no error at all.
pub proof fn lemma_spend_from_full_exact(
    now: int,
    cost: int,
    daily_allowance: u32,
    accrual_millidays: u32,
)
    requires
        valid_rate(daily_allowance, accrual_millidays),
        0 <= cost,
        0 <= now,
    ensures
        spec_balance(
            now + spec_added_ms(cost, daily_allowance as int),
            now,
            daily_allowance as int,
            accrual_millidays as int,
        ) == spec_max_balance(daily_allowance as int, accrual_millidays as int) - cost,
{
    let day = MILLISECONDS_PER_DAY as int;
    let r = daily_allowance as int;
    let a = spec_added_ms(cost, r);
    lemma_added_ms_bound(cost, r);
    lemma_added_ms_round_trip(cost, daily_allowance);
    if a == 0 {
        assert(a * r == 0) by (nonlinear_arith)
            requires
                a == 0,
        ;
        vstd::arithmetic::div_mod::lemma_div_of0(day);
        assert(cost == 0);
    } else {
        assert(spec_debt(now + a, now, r) == a * r / day);
    }
}

/// One row of the append-only spending log, written once per priced
/// operation and never mutated; read only for aggregate reporting.
pub struct SpendingRecord {
    pub user: u64,
    pub cost: u32,
    pub input_tokens: u32,
    pub output_tokens: u32,
    pub model: String,
}

struct AccountRow {
    user: u64,
    time_to_full: u64,
}

/// The durable quota state: one `time_to_full` instant per user who has ever
/// spent (absence means the quota is full now), plus the spending log.
pub struct AllowanceLedger {
    accounts: Vec<AccountRow>,
    spending: Vec<SpendingRecord>,
}

spec fn spec_lookup_rows(rows: Seq<AccountRow>, user: u64) -> Option<u64>
    decreases rows.len(),
{
    if rows.len() == 0 {
        None
    } else if rows[0].user == user {
        Some(rows[0].time_to_full)
    } else {
        spec_lookup_rows(rows.skip(1), user)
    }
}

spec fn rows_unique(rows: Seq<AccountRow>) -> bool {
    forall|i: int, j: int|
        0 <= i < j < rows.len() ==> rows[i].user != rows[j].user
}

spec fn rows_in_horizon(rows: Seq<AccountRow>) -> bool {
    forall|i: int| 0 <= i < rows.len() ==> rows[i].time_to_full <= MAX_TIME_MS
}

/// A found lookup names a row; a missed lookup rules every row out.
proof fn lemma_lookup_props(rows: Seq<AccountRow>, user: u64)
    ensures
        match spec_lookup_rows(rows, user) {
            Some(t) => exists|i: int|
                0 <= i < rows.len() && rows[i].user == user && rows[i].time_to_full == t,
            None => forall|i: int| 0 <= i < rows.len() ==> rows[i].user != user,
        },
    decreases rows.len(),
{
    if rows.len() > 0 {
        lemma_lookup_props(rows.skip(1), user);
        if rows[0].user != user {
            match spec_lookup_rows(rows.skip(1), user) {
                Some(t) => {
                    let i = choose|i: int|
                        0 <= i < rows.skip(1).len() && rows.skip(1)[i].user == user && rows.skip(
                            1,
                        )[i].time_to_full == t;
                    assert(rows[i + 1].user == user && rows[i + 1].time_to_full == t);
                },
                None => {
                    assert forall|i: int| 0 <= i < rows.len() implies rows[i].user != user by {
                        if i > 0 {
                            assert(rows.skip(1)[i - 1].user != user);
                        }
                    }
                },
            }
        }
    }
}

/// Overwriting the first row of a user keeps every other lookup unchanged.
proof fn lemma_lookup_update(rows: Seq<AccountRow>, i: int, row2: AccountRow)
    requires
        0 <= i < rows.len(),
        rows[i].user == row2.user,
        forall|k: int| 0 <= k < i ==> rows[k].user != row2.user,
    ensures
        spec_lookup_rows(rows.update(i, row2), row2.user) == Some(row2.time_to_full),
        forall|v: u64|
            v != row2.user ==> spec_lookup_rows(rows.update(i, row2), v) == spec_lookup_rows(
                rows,
                v,
            ),
    decreases rows.len(),
{
    let upd = rows.update(i, row2);
    if i == 0 {
        assert(upd[0] == row2);
        assert(upd.skip(1) =~= rows.skip(1));
        assert(spec_lookup_rows(upd, row2.user) == Some(row2.time_to_full));
        assert forall|v: u64| v != row2.user implies spec_lookup_rows(upd, v) == spec_lookup_rows(
            rows,
            v,
        ) by {
            assert(spec_lookup_rows(upd, v) == spec_lookup_rows(upd.skip(1), v));
            assert(spec_lookup_rows(rows, v) == spec_lookup_rows(rows.skip(1), v));
        }
    } else {
        assert(upd[0] == rows[0]);
        assert(upd.skip(1) =~= rows.skip(1).update(i - 1, row2));
        lemma_lookup_update(rows.skip(1), i - 1, row2);
        assert(rows[0].user != row2.user);
        assert(spec_lookup_rows(upd, row2.user) == spec_lookup_rows(upd.skip(1), row2.user));
        assert forall|v: u64| v != row2.user implies spec_lookup_rows(upd, v) == spec_lookup_rows(
            rows,
            v,
        ) by {
            if upd[0].user == v {
            } else {
                assert(spec_lookup_rows(upd, v) == spec_lookup_rows(upd.skip(1), v));
                assert(spec_lookup_rows(rows, v) == spec_lookup_rows(rows.skip(1), v));
            }
        }
    }
}

/// Appending a row for a fresh user adds exactly that user's account.
proof fn lemma_lookup_push(rows: Seq<AccountRow>, row: AccountRow, user: u64)
    ensures
        spec_lookup_rows(rows.push(row), user) == if spec_lookup_rows(rows, user) is Some {
            spec_lookup_rows(rows, user)
        } else if row.user == user {
            Some(row.time_to_full)
        } else {
            None
        },
    decreases rows.len(),
{
    let p = rows.push(row);
    if rows.len() == 0 {
        assert(p[0] == row);
        assert(p.skip(1) =~= Seq::<AccountRow>::empty());
        if row.user != user {
            assert(spec_lookup_rows(p, user) == spec_lookup_rows(p.skip(1), user));
        }
    } else {
        assert(p[0] == rows[0]);
        assert(p.skip(1) =~= rows.skip(1).push(row));
        lemma_lookup_push(rows.skip(1), row, user);
        if rows[0].user != user {
            assert(spec_lookup_rows(p, user) == spec_lookup_rows(p.skip(1), user));
            assert(spec_lookup_rows(rows, user) == spec_lookup_rows(rows.skip(1), user));
        }
    }
}

/// The cost of the listed spending, in nanodollars: of one user's rows, or
/// of everyone's.
pub open spec fn spec_expenditure(records: Seq<SpendingRecord>, user: Option<u64>) -> int
    decreases records.len(),
{
    if records.len() == 0 {
        0
    } else {
        let head: int = match user {
            Some(u) => if records[0].user == u {
                records[0].cost as int
            } else {
                0
            },
            None => records[0].cost as int,
        };
        head + spec_expenditure(records.skip(1), user)
    }
}

impl AllowanceLedger {
    /// Accounts name each user at most once, and every stored instant is
    /// inside the representable horizon.
    pub closed spec fn wf(&self) -> bool {
        rows_unique(self.accounts@) && rows_in_horizon(self.accounts@)
    }

    /// The stored `time_to_full` of a user, if the user has an account row.
    pub closed spec fn account(&self, user: u64) -> Option<u64> {
        spec_lookup_rows(self.accounts@, user)
    }

    /// The append-only spending log.
    pub closed spec fn spending(&self) -> Seq<SpendingRecord> {
        self.spending@
    }

    pub proof fn lemma_account_in_horizon(&self, user: u64)
        requires
            self.wf(),
        ensures
            match self.account(user) {
                Some(t) => t <= MAX_TIME_MS,
                None => true,
            },
    {
        lemma_lookup_props(self.accounts@, user);
    }

    pub fn new() -> (r: Self)
        ensures
            r.wf(),
            forall|user: u64| r.account(user) is None,
            r.spending() =~= Seq::<SpendingRecord>::empty(),
    {
        AllowanceLedger { accounts: Vec::new(), spending: Vec::new() }
    }

    fn find_account(&self, user: u64) -> (r: Option<usize>)
        ensures
            match r {
                Some(i) => {
                    &&& i < self.accounts@.len()
                    &&& self.accounts@[i as int].user == user
                    &&& self.account(user) == Some(self.accounts@[i as int].time_to_full)
                    &&& forall|k: int| 0 <= k < i ==> self.accounts@[k].user != user
                },
                None => self.account(user) is None,
            },
    {
        let len = self.accounts.len();
        proof {
            assert(self.accounts@.skip(0) =~= self.accounts@);
        }
        let mut i: usize = 0;
        while i < len
            invariant
                i <= len,
                len == self.accounts@.len(),
                spec_lookup_rows(self.accounts@, user) == spec_lookup_rows(
                    self.accounts@.skip(i as int),
                    user,
                ),
                forall|k: int| 0 <= k < i ==> self.accounts@[k].user != user,
            decreases len - i,
        {
            proof {
                assert(self.accounts@.skip(i as int)[0] == self.accounts@[i as int]);
                assert(self.accounts@.skip(i as int).skip(1) =~= self.accounts@.skip(i as int + 1));
            }
            if self.accounts[i].user == user {
                proof {
                    assert(spec_lookup_rows(self.accounts@.skip(i as int), user) == Some(
                        self.accounts@[i as int].time_to_full,
                    ));
                }
                return Some(i);
            }
            i = i + 1;
        }
        proof {
            assert(self.accounts@.skip(len as int) =~= Seq::<AccountRow>::empty());
        }
        None
    }

    /// The stored instant at which this user's quota will be full, if any.
    pub fn time_to_full(&self, user: u64) -> (r: Option<u64>)
        ensures
            r == self.account(user),
    {
        match self.find_account(user) {
            Some(i) => Some(self.accounts[i].time_to_full),
            None => None,
        }
    }

    fn set_account(&mut self, user: u64, time_to_full: u64)
        requires
            old(self).wf(),
            time_to_full <= MAX_TIME_MS,
        ensures
            final(self).wf(),
            final(self).account(user) == Some(time_to_full),
            forall|v: u64| v != user ==> final(self).account(v) == old(self).account(v),
            final(self).spending() == old(self).spending(),
    {
        let row = AccountRow { user, time_to_full };
        match self.find_account(user) {
            Some(i) => {
                proof {
                    lemma_lookup_update(self.accounts@, i as int, row);
                }
                self.accounts[i] = row;
            },
            None => {
                proof {
                    lemma_lookup_props(self.accounts@, user);
                    assert forall|v: u64| true implies spec_lookup_rows(
                        self.accounts@.push(row),
                        v,
                    ) == if v == user {
                        Some(time_to_full)
                    } else {
                        spec_lookup_rows(self.accounts@, v)
                    } by {
                        lemma_lookup_push(self.accounts@, row, v);
                        if v == user {
                            lemma_lookup_props(self.accounts@, user);
                        }
                    }
                }
                self.accounts.push(row);
            },
        }
    }

    /// The user's remaining balance at instant `now`, in nanodollars.
    /// A user with no account row has the full cap.
    pub fn check(&self, user: u64, daily_allowance: u32, accrual_millidays: u32, now: u64) -> (r:
        i64)
        requires
            self.wf(),
            valid_rate(daily_allowance, accrual_millidays),
            now <= MAX_TIME_MS,
        ensures
            r == spec_balance(
                spec_effective(self.account(user), now),
                now as int,
                daily_allowance as int,
                accrual_millidays as int,
            ),
            r <= spec_max_balance(daily_allowance as int, accrual_millidays as int),
            self.account(user) is None ==> r == spec_max_balance(
                daily_allowance as int,
                accrual_millidays as int,
            ),
    {
        proof {
            self.lemma_account_in_horizon(user);
            lemma_balance_never_exceeds_max(
                spec_effective(self.account(user), now),
                now as int,
                daily_allowance,
                accrual_millidays,
            );
        }
        match self.find_account(user) {
            Some(i) => {
                let t = self.accounts[i].time_to_full;
                check_balance(t, now, daily_allowance, accrual_millidays)
            },
            None => max_balance(daily_allowance, accrual_millidays),
        }
    }

    /// Debit `cost` nanodollars from the user at instant `now` and append a
    /// spending record. Returns the new balance, or `None` (changing
    /// nothing) in the degenerate case where the debit would push the stored
    /// instant past the representable horizon.
    pub fn spend(
        &mut self,
        user: u64,
        cost: u32,
        input_tokens: u32,
        output_tokens: u32,
        model: String,
        daily_allowance: u32,
        accrual_millidays: u32,
        now: u64,
    ) -> (r: Option<i64>)
        requires
            old(self).wf(),
            valid_rate(daily_allowance, accrual_millidays),
            now <= MAX_TIME_MS,
        ensures
            final(self).wf(),
            ({
                let t = spec_effective(old(self).account(user), now);
                let added = spec_added_ms(cost as int, daily_allowance as int);
                if t + added <= MAX_TIME_MS {
                    &&& (r matches Some(balance) && balance == spec_balance(
                        t + added,
                        now as int,
                        daily_allowance as int,
                        accrual_millidays as int,
                    ))
                    &&& final(self).account(user) == Some((t + added) as u64)
                    &&& forall|v: u64| v != user ==> final(self).account(v) == old(self).account(v)
                    &&& final(self).spending() == old(self).spending().push(
                        SpendingRecord { user, cost, input_tokens, output_tokens, model },
                    )
                } else {
                    &&& r is None
                    &&& *final(self) == *old(self)
                }
            }),
    {
        proof {
            self.lemma_account_in_horizon(user);
        }
        let stored = self.time_to_full(user);
        let t: u64 = match stored {
            Some(t) => if t <= now {
                now
            } else {
                t
            },
            None => now,
        };
        let added = added_milliseconds(cost, daily_allowance);
        if added > MAX_TIME_MS - t {
            return None;
        }
        let new_time = t + added;
        self.set_account(user, new_time);
        let record = SpendingRecord { user, cost, input_tokens, output_tokens, model };
        self.spending.push(record);
        Some(check_balance(new_time, now, daily_allowance, accrual_millidays))
    }

    /// The summed cost of the spending log: one user's, or everyone's.
    /// Saturates at the integer limit rather than overflowing.
    pub fn get_expenditure(&self, user: Option<u64>) -> (r: u64)
        ensures
            ({
                let total = spec_expenditure(self.spending(), user);
                if total <= u64::MAX {
                    r == total
                } else {
                    r == u64::MAX
                }
            }),
    {
        let len = self.spending.len();
        proof {
            assert(self.spending@.skip(0) =~= self.spending@);
        }
        let mut acc: u128 = 0;
        let mut i: usize = 0;
        while i < len
            invariant
                i <= len,
                len == self.spending@.len(),
                acc <= (i as u128) * 0xffff_ffff,
                spec_expenditure(self.spending@, user) == acc + spec_expenditure(
                    self.spending@.skip(i as int),
                    user,
                ),
            decreases len - i,
        {
            proof {
                assert(self.spending@.skip(i as int)[0] == self.spending@[i as int]);
                assert(self.spending@.skip(i as int).skip(1) =~= self.spending@.skip(i as int + 1));
                assert((i as u128 + 1) * 0xffff_ffff == i as u128 * 0xffff_ffff + 0xffff_ffff)
                    by (nonlinear_arith);
                assert(i as u128 * 0xffff_ffff <= 0xffff_ffff_ffff_ffff_ffff_ffff_ffff_ffffu128
                    - 0xffff_ffff) by (nonlinear_arith)
                    requires
                        i as u128 <= 0xffff_ffff_ffff_ffffu128,
                ;
            }
            let counted: bool = match user {
                Some(u) => self.spending[i].user == u,
                None => true,
            };
            if counted {
                acc = acc + self.spending[i].cost as u128;
            }
            i = i + 1;
        }
        proof {
            assert(self.spending@.skip(len as int) =~= Seq::<SpendingRecord>::empty());
        }
        if acc > u64::MAX as u128 {
            u64::MAX
        } else {
            acc as u64
        }
    }

    /// Append a spending record without touching any account: used for
    /// reporting on users whose allowance is infinite.
    pub fn record_spending(
        &mut self,
        user: u64,
        cost: u32,
        input_tokens: u32,
        output_tokens: u32,
        model: String,
    )
        requires
            old(self).wf(),
        ensures
            final(self).wf(),
            final(self).spending() == old(self).spending().push(
                SpendingRecord { user, cost, input_tokens, output_tokens, model },
            ),
            forall|v: u64| final(self).account(v) == old(self).account(v),
    {
        self.spending.push(SpendingRecord { user, cost, input_tokens, output_tokens, model });
    }
}

/// A reported allowance: a finite number of nanodollars (possibly negative),
/// or infinite for users who bring their own credential.
#[derive(Debug, Clone, Copy, PartialEq, Eq, Structural)]
pub enum Allowance {
    Nanodollars(i64),
    Infinite,
}

/// Whether an allowance refuses further spending.
pub open spec fn spec_is_out(a: Allowance) -> bool {
    match a {
        Allowance::Nanodollars(n) => n <= 0,
        Allowance::Infinite => false,
    }
}

/// An amount of `n` nanodollars in hundredths of a millidollar, rounded half
/// away from zero: the display-layer fixed-point conversion.
pub open spec fn spec_millidollar_hundredths(n: int) -> int {
    if n >= 0 {
        (n + 5000) / 10000
    } else {
        -((-n + 5000) / 10000)
    }
}

/// How an allowance reads: a millidollar amount with at most two decimal
/// digits, or an infinity sign.
pub open spec fn spec_allowance_text(a: Allowance) -> Seq<char> {
    match a {
        Allowance::Nanodollars(n) => fixed2_str(spec_millidollar_hundredths(n as int)) + " m$"@,
        Allowance::Infinite => "\u{221e}"@,
    }
}

/// Nanodollars to hundredths of a millidollar, rounded half away from zero.
pub fn nanodollars_to_millidollar_hundredths(n: i64) -> (r: i64)
    ensures
        r == spec_millidollar_hundredths(n as int),
{
    if n >= 0 {
        ((n as u64 + 5000) / 10000) as i64
    } else {
        let magnitude: u64 = (-(n as i128)) as u64;
        -(((magnitude + 5000) / 10000) as i64)
    }
}

impl Allowance {
    /// A full allowance: the cap.
    pub fn new_max(daily_allowance: u32, accrual_millidays: u32) -> (r: Self)
        requires
            valid_rate(daily_allowance, accrual_millidays),
        ensures
            r == Allowance::Nanodollars(
                spec_max_balance(daily_allowance as int, accrual_millidays as int) as i64,
            ),
    {
        Allowance::Nanodollars(max_balance(daily_allowance, accrual_millidays))
    }

    /// The allowance derived from a stored instant at instant `now`.
    pub fn from_time_to_full(
        time_to_full: u64,
        now: u64,
        daily_allowance: u32,
        accrual_millidays: u32,
    ) -> (r: Self)
        requires
            valid_rate(daily_allowance, accrual_millidays),
            time_to_full <= MAX_TIME_MS,
        ensures
            r == Allowance::Nanodollars(
                spec_balance(
                    time_to_full as int,
                    now as int,
                    daily_allowance as int,
                    accrual_millidays as int,
                ) as i64,
            ),
    {
        Allowance::Nanodollars(check_balance(time_to_full, now, daily_allowance, accrual_millidays))
    }

    /// The user's current allowance: the stored instant's balance, or the
    /// full cap for a user with no account row.
    pub fn check(
        ledger: &AllowanceLedger,
        user: u64,
        daily_allowance: u32,
        accrual_millidays: u32,
        now: u64,
    ) -> (r: Self)
        requires
            ledger.wf(),
            valid_rate(daily_allowance, accrual_millidays),
            now <= MAX_TIME_MS,
        ensures
            r == Allowance::Nanodollars(
                spec_balance(
                    spec_effective(ledger.account(user), now),
                    now as int,
                    daily_allowance as int,
                    accrual_millidays as int,
                ) as i64,
            ),
    {
        Allowance::Nanodollars(ledger.check(user, daily_allowance, accrual_millidays, now))
    }

    /// Whether this allowance refuses further spending.
    pub fn is_out(&self) -> (r: bool)
        ensures
            r == spec_is_out(*self),
    {
        match self {
            Allowance::Nanodollars(n) => *n <= 0,
            Allowance::Infinite => false,
        }
    }

    /// The allowance as display text, in millidollars.
    pub fn text(&self) -> (r: String)
        ensures
            r@ == spec_allowance_text(*self),
    {
        match self {
            Allowance::Nanodollars(n) => {
                let mut s = i64_fixed2_string(nanodollars_to_millidollar_hundredths(*n));
                s.append(" m$");
                s
            },
            Allowance::Infinite => {
                let s = String::from_str("\u{221e}");
                s
            },
        }
    }
}

/// The user's current allowance and the cap it regenerates to; both are
/// infinite for a user who brings their own credential.
pub fn allowance_and_max(
    ledger: &AllowanceLedger,
    user: u64,
    daily_allowance: u32,
    accrual_millidays: u32,
    is_allowance_infinite: bool,
    now: u64,
) -> (r: (Allowance, Allowance))
    requires
        ledger.wf(),
        valid_rate(daily_allowance, accrual_millidays),
        now <= MAX_TIME_MS,
    ensures
        is_allowance_infinite ==> r == (Allowance::Infinite, Allowance::Infinite),
        !is_allowance_infinite ==> r == (
            Allowance::Nanodollars(
                spec_balance(
                    spec_effective(ledger.account(user), now),
                    now as int,
                    daily_allowance as int,
                    accrual_millidays as int,
                ) as i64,
            ),
            Allowance::Nanodollars(
                spec_max_balance(daily_allowance as int, accrual_millidays as int) as i64,
            ),
        ),
{
    if is_allowance_infinite {
        return (Allowance::Infinite, Allowance::Infinite);
    }
    let allowance = Allowance::check(ledger, user, daily_allowance, accrual_millidays, now);
    let max_allowance = Allowance::new_max(daily_allowance, accrual_millidays);
    (allowance, max_allowance)
}

/// Whether a spending record matches one priced operation.
pub open spec fn spec_record_matches(
    record: SpendingRecord,
    user: u64,
    cost: int,
    usage: TokenUsage,
    model: GptModel,
) -> bool {
    &&& record.user == user
    &&& record.cost == cost
    &&& record.input_tokens == usage.prompt_tokens
    &&& record.output_tokens == usage.completion_tokens
    &&& record.model@ == model.spec_name()
}

/// Takes the used tokens' worth from the user's allowance, appends the
/// spending record, and returns the new allowance and what the cost ended up
/// being. For a user with infinite allowance only the record is appended.
/// Returns `None` (changing nothing) only in the degenerate case where the
/// debit would push the stored instant past the representable horizon.
pub fn spend_allowance(
    ledger: &mut AllowanceLedger,
    user: u64,
    usage: TokenUsage,
    model: &GptModel,
    daily_allowance: u32,
    accrual_millidays: u32,
    is_allowance_infinite: bool,
    now: u64,
) -> (r: Option<(Allowance, Allowance)>)
    requires
        old(ledger).wf(),
        valid_rate(daily_allowance, accrual_millidays),
        now <= MAX_TIME_MS,
        model.spec_cost(usage) <= u32::MAX,
    ensures
        final(ledger).wf(),
        ({
            let cost = model.spec_cost(usage);
            let t = spec_effective(old(ledger).account(user), now);
            let added = spec_added_ms(cost, daily_allowance as int);
            if is_allowance_infinite {
                &&& r matches Some((allowance, charged)) && allowance == Allowance::Infinite
                    && charged == Allowance::Nanodollars(cost as i64)
                &&& final(ledger).spending().len() == old(ledger).spending().len() + 1
                &&& final(ledger).spending().take(old(ledger).spending().len() as int) == old(
                    ledger,
                ).spending()
                &&& spec_record_matches(final(ledger).spending().last(), user, cost, usage, *model)
                &&& forall|v: u64| final(ledger).account(v) == old(ledger).account(v)
            } else if t + added <= MAX_TIME_MS {
                &&& r matches Some((allowance, charged)) && allowance == Allowance::Nanodollars(
                    spec_balance(
                        t + added,
                        now as int,
                        daily_allowance as int,
                        accrual_millidays as int,
                    ) as i64,
                ) && charged == Allowance::Nanodollars(cost as i64)
                &&& final(ledger).account(user) == Some((t + added) as u64)
                &&& forall|v: u64|
                    v != user ==> final(ledger).account(v) == old(ledger).account(v)
                &&& final(ledger).spending().len() == old(ledger).spending().len() + 1
                &&& final(ledger).spending().take(old(ledger).spending().len() as int) == old(
                    ledger,
                ).spending()
                &&& spec_record_matches(final(ledger).spending().last(), user, cost, usage, *model)
            } else {
                &&& r is None
                &&& *final(ledger) == *old(ledger)
            }
        }),
{
    let cost = model.get_cost(usage);
    let model_name: String = model.name().to_owned();
    if is_allowance_infinite {
        ledger.record_spending(
            user,
            cost,
            usage.prompt_tokens,
            usage.completion_tokens,
            model_name,
        );
        proof {
            assert(final(ledger).spending().take(old(ledger).spending().len() as int) =~= old(
                ledger,
            ).spending());
        }
        return Some((Allowance::Infinite, Allowance::Nanodollars(cost as i64)));
    }
    match ledger.spend(
        user,
        cost,
        usage.prompt_tokens,
        usage.completion_tokens,
        model_name,
        daily_allowance,
        accrual_millidays,
        now,
    ) {
        Some(balance) => {
            proof {
                assert(final(ledger).spending().take(old(ledger).spending().len() as int) =~= old(
                    ledger,
                ).spending());
            }
            Some((Allowance::Nanodollars(balance), Allowance::Nanodollars(cost as i64)))
        },
        None => None,
    }
}

/// The reply to a balance inquiry.
pub open spec fn spec_check_reply_text(allowance: Allowance, max_allowance: Allowance) -> Seq<
    char,
> {
    "You have "@ + spec_allowance_text(allowance) + " out of "@ + spec_allowance_text(
        max_allowance,
    ) + " left."@
}

/// The reply to a balance inquiry: current allowance out of the cap.
pub fn check_reply_text(allowance: Allowance, max_allowance: Allowance) -> (r: String)
    ensures
        r@ == spec_check_reply_text(allowance, max_allowance),
{
    let mut s = String::from_str("You have ");
    s.append(allowance.text().as_str());
    s.append(" out of ");
    s.append(max_allowance.text().as_str());
    s.append(" left.");
    s
}

/// The reply to an expenditure inquiry over `expenditure` nanodollars:
/// one user's, or everyone's.
pub open spec fn spec_expenditure_reply_text(expenditure: u64, all: bool) -> Seq<char> {
    if all {
        "Everyone combined has used "@ + fixed2_nonneg_str(
            (((expenditure + 5000) / 10000) as nat),
        ) + " millidollars."@
    } else {
        "You have used "@ + fixed2_nonneg_str((((expenditure + 5000) / 10000) as nat))
            + " millidollars."@
    }
}

/// The reply to an expenditure inquiry, in millidollars.
pub fn expenditure_reply_text(expenditure: u64, all: bool) -> (r: String)
    requires
        expenditure <= u64::MAX - 5000,
    ensures
        r@ == spec_expenditure_reply_text(expenditure, all),
{
    let hundredths = (expenditure + 5000) / 10000;
    let amount = u64_fixed2_string(hundredths);
    let mut s = if all {
        String::from_str("Everyone combined has used ")
    } else {
        String::from_str("You have used ")
    };
    s.append(amount.as_str());
    s.append(" millidollars.");
    s
}

} // verus!
