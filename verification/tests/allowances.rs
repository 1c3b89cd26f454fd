use chat_relay::allowances::{
    allowance_and_max, check_balance, max_balance, spend_allowance, Allowance, AllowanceLedger,
    DEFAULT_ACCRUAL_MILLIDAYS, DEFAULT_DAILY_ALLOWANCE,
};
use chat_relay::gpt::{CompletionTokenDetails, GptModel, PromptTokenDetails, TokenUsage};

const DAY_MS: u64 = 86_400_000;

fn usage(prompt: u32, completion: u32) -> TokenUsage {
    TokenUsage {
        prompt_tokens: prompt,
        completion_tokens: completion,
        total_tokens: prompt + completion,
        completion_tokens_details: CompletionTokenDetails {
            reasoning_tokens: 0,
            audio_tokens: 0,
            accepted_prediction_tokens: 0,
            rejected_prediction_tokens: 0,
        },
        prompt_tokens_details: PromptTokenDetails { cached_tokens: 0, audio_tokens: 0 },
    }
}

fn flat_model(price: u32) -> GptModel {
    GptModel::new(
        String::from("flat"),
        String::from("Flat"),
        price,
        price,
        1,
    )
}

#[test]
fn default_rates_give_ten_million_cap() {
    assert_eq!(DEFAULT_DAILY_ALLOWANCE, 2_500_000);
    assert_eq!(DEFAULT_ACCRUAL_MILLIDAYS, 4_000);
    assert_eq!(
        max_balance(DEFAULT_DAILY_ALLOWANCE, DEFAULT_ACCRUAL_MILLIDAYS),
        10_000_000
    );
}

#[test]
fn fresh_user_has_full_allowance() {
    let ledger = AllowanceLedger::new();
    let now = 1_700_000_000_000;
    let balance = ledger.check(42, DEFAULT_DAILY_ALLOWANCE, DEFAULT_ACCRUAL_MILLIDAYS, now);
    assert_eq!(balance, 10_000_000);
}

#[test]
fn spending_one_million_from_full_leaves_nine_million() {
    let mut ledger = AllowanceLedger::new();
    let now = 1_700_000_000_000;
    // A model priced so that 1000 input tokens cost exactly 1_000_000.
    let model = flat_model(1000);
    let result = spend_allowance(
        &mut ledger,
        42,
        usage(1000, 0),
        &model,
        DEFAULT_DAILY_ALLOWANCE,
        DEFAULT_ACCRUAL_MILLIDAYS,
        false,
        now,
    )
    .unwrap();
    assert_eq!(result.0, Allowance::Nanodollars(9_000_000));
    assert_eq!(result.1, Allowance::Nanodollars(1_000_000));
    // A check at the same instant reports the same balance.
    let balance = ledger.check(42, DEFAULT_DAILY_ALLOWANCE, DEFAULT_ACCRUAL_MILLIDAYS, now);
    assert_eq!(balance, 9_000_000);
}

#[test]
fn repeated_spends_debit_exactly_and_never_exceed_cap() {
    let mut ledger = AllowanceLedger::new();
    let now = 1_700_000_000_000;
    let model = flat_model(7);
    let mut previous = ledger.check(7, DEFAULT_DAILY_ALLOWANCE, DEFAULT_ACCRUAL_MILLIDAYS, now);
    for tokens in [1u32, 13, 999, 12345] {
        let (after, cost) = spend_allowance(
            &mut ledger,
            7,
            usage(tokens, tokens),
            &model,
            DEFAULT_DAILY_ALLOWANCE,
            DEFAULT_ACCRUAL_MILLIDAYS,
            false,
            now,
        )
        .unwrap();
        let after_n = match after {
            Allowance::Nanodollars(n) => n,
            _ => panic!("expected a finite balance"),
        };
        let cost_n = match cost {
            Allowance::Nanodollars(n) => n,
            _ => panic!("expected a finite cost"),
        };
        assert_eq!(cost_n, 14 * tokens as i64);
        // Monotonic, exact, and capped.
        assert_eq!(after_n, previous - cost_n);
        assert!(after_n <= 10_000_000);
        previous = after_n;
    }
}

#[test]
fn balance_regenerates_with_time_up_to_the_cap() {
    // An account that will be full one day from now is missing one day's
    // allowance.
    let now = 1_700_000_000_000;
    let full_at = now + DAY_MS;
    let balance = check_balance(full_at, now, DEFAULT_DAILY_ALLOWANCE, DEFAULT_ACCRUAL_MILLIDAYS);
    assert_eq!(balance, 10_000_000 - 2_500_000);
    // Once the stored instant has passed, the balance is the cap exactly.
    let later = full_at + 123_456;
    assert_eq!(
        check_balance(full_at, later, DEFAULT_DAILY_ALLOWANCE, DEFAULT_ACCRUAL_MILLIDAYS),
        10_000_000
    );
}

#[test]
fn negative_balance_refuses_spending() {
    let mut ledger = AllowanceLedger::new();
    let now = 1_700_000_000_000;
    // Cost far above the cap: one spend overdraws the account.
    let model = flat_model(20_000);
    let (after, _cost) = spend_allowance(
        &mut ledger,
        9,
        usage(1000, 0),
        &model,
        DEFAULT_DAILY_ALLOWANCE,
        DEFAULT_ACCRUAL_MILLIDAYS,
        false,
        now,
    )
    .unwrap();
    assert_eq!(after, Allowance::Nanodollars(10_000_000 - 20_000_000));
    assert!(after.is_out());
    assert!(!Allowance::Infinite.is_out());
    assert!(!Allowance::Nanodollars(1).is_out());
    assert!(Allowance::Nanodollars(0).is_out());
}

#[test]
fn infinite_allowance_skips_the_ledger_but_records_spending() {
    let mut ledger = AllowanceLedger::new();
    let now = 1_700_000_000_000;
    let model = flat_model(1000);
    let (allowance, max_allowance) = allowance_and_max(
        &ledger,
        5,
        DEFAULT_DAILY_ALLOWANCE,
        DEFAULT_ACCRUAL_MILLIDAYS,
        true,
        now,
    );
    assert_eq!(allowance, Allowance::Infinite);
    assert_eq!(max_allowance, Allowance::Infinite);
    let (after, cost) = spend_allowance(
        &mut ledger,
        5,
        usage(1000, 0),
        &model,
        DEFAULT_DAILY_ALLOWANCE,
        DEFAULT_ACCRUAL_MILLIDAYS,
        true,
        now,
    )
    .unwrap();
    assert_eq!(after, Allowance::Infinite);
    assert_eq!(cost, Allowance::Nanodollars(1_000_000));
    // The record is there for reporting...
    assert_eq!(ledger.get_expenditure(Some(5)), 1_000_000);
    // ...but no account row was written: the balance is still the cap.
    assert_eq!(
        ledger.check(5, DEFAULT_DAILY_ALLOWANCE, DEFAULT_ACCRUAL_MILLIDAYS, now),
        10_000_000
    );
}

#[test]
fn expenditure_sums_by_user_and_overall() {
    let mut ledger = AllowanceLedger::new();
    let now = 1_700_000_000_000;
    let model = flat_model(1);
    assert_eq!(ledger.get_expenditure(None), 0);
    assert_eq!(ledger.get_expenditure(Some(1)), 0);
    spend_allowance(
        &mut ledger,
        1,
        usage(100, 0),
        &model,
        DEFAULT_DAILY_ALLOWANCE,
        DEFAULT_ACCRUAL_MILLIDAYS,
        false,
        now,
    )
    .unwrap();
    spend_allowance(
        &mut ledger,
        2,
        usage(0, 250),
        &model,
        DEFAULT_DAILY_ALLOWANCE,
        DEFAULT_ACCRUAL_MILLIDAYS,
        false,
        now,
    )
    .unwrap();
    spend_allowance(
        &mut ledger,
        1,
        usage(50, 0),
        &model,
        DEFAULT_DAILY_ALLOWANCE,
        DEFAULT_ACCRUAL_MILLIDAYS,
        false,
        now,
    )
    .unwrap();
    assert_eq!(ledger.get_expenditure(Some(1)), 150);
    assert_eq!(ledger.get_expenditure(Some(2)), 250);
    assert_eq!(ledger.get_expenditure(Some(3)), 0);
    assert_eq!(ledger.get_expenditure(None), 400);
}

#[test]
fn allowance_text_renders_millidollars() {
    assert_eq!(Allowance::Nanodollars(9_000_000).text(), "9 m$");
    assert_eq!(Allowance::Nanodollars(39_950_000).text(), "39.95 m$");
    assert_eq!(Allowance::Nanodollars(250_000).text(), "0.25 m$");
    assert_eq!(Allowance::Nanodollars(-10_000_000).text(), "-10 m$");
    assert_eq!(Allowance::Nanodollars(123_400).text(), "0.12 m$");
    // Rounding is half away from zero, to two display digits.
    assert_eq!(Allowance::Nanodollars(35_000).text(), "0.04 m$");
    assert_eq!(Allowance::Nanodollars(34_999).text(), "0.03 m$");
    assert_eq!(Allowance::Infinite.text(), "\u{221e}");
}

#[test]
fn reply_texts_for_commands() {
    let text = chat_relay::allowances::check_reply_text(
        Allowance::Nanodollars(9_000_000),
        Allowance::Nanodollars(10_000_000),
    );
    assert_eq!(text, "You have 9 m$ out of 10 m$ left.");
    assert_eq!(
        chat_relay::allowances::expenditure_reply_text(1_234_567, false),
        "You have used 1.23 millidollars."
    );
    assert_eq!(
        chat_relay::allowances::expenditure_reply_text(250_000_000, true),
        "Everyone combined has used 250 millidollars."
    );
}
