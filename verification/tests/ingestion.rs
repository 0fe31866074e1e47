use capital_gain_tax_ireland::amount::{split_gain_loss, to_eur};
use capital_gain_tax_ireland::normalize::{
    is_sale_row, process_row, sale_date_of_row, sale_of_row, RowStep,
};
use capital_gain_tax_ireland::{
    get_transactions, CalendarDate, Cell, Column, Error, ExchangeRateCache, Ingestion,
    RateFailure, Transaction, MAX_AMOUNT,
};

const COLUMNS: (usize, usize, usize, usize) = (1, 2, 0, 3);

fn headers() -> Vec<String> {
    vec![
        "Record Type".to_string(),
        "Date Sold".to_string(),
        "Adjusted Gain/Loss".to_string(),
        "Total Proceeds".to_string(),
    ]
}

fn sale(date: &str, gain_loss: i64, proceeds: i64) -> Vec<Cell> {
    vec![
        Cell::Text("Sell".to_string()),
        Cell::Text(date.to_string()),
        Cell::Number(gain_loss),
        Cell::Number(proceeds),
    ]
}

fn day(year: i32, month: u8, day: u8) -> CalendarDate {
    CalendarDate { year, month, day }
}

fn cache_with(rates: &[(CalendarDate, u64)]) -> ExchangeRateCache {
    let mut cache = ExchangeRateCache::new();
    for (date, rate) in rates {
        cache.store(*date, *rate).unwrap();
    }
    cache
}

fn complete(outcome: Ingestion) -> Vec<Transaction> {
    match outcome {
        Ingestion::Complete(transactions) => transactions,
        other => panic!("the run did not complete: {:?}", other),
    }
}

fn failure(outcome: Ingestion) -> Error {
    match outcome {
        Ingestion::Failed(error) => error,
        other => panic!("the run was not given up: {:?}", other),
    }
}

fn needed(outcome: Ingestion) -> CalendarDate {
    match outcome {
        Ingestion::NeedsRate(date) => date,
        other => panic!("the run asked for no rate: {:?}", other),
    }
}

#[test]
fn a_figure_is_split_by_its_sign() {
    assert_eq!(split_gain_loss(1_000), (1_000, 0));
    assert_eq!(split_gain_loss(-200), (0, 200));
    assert_eq!(split_gain_loss(0), (0, 0));
    assert_eq!(split_gain_loss(i64::MAX), (i64::MAX as u64, 0));
    assert_eq!(split_gain_loss(i64::MIN), (0, MAX_AMOUNT));
}

#[test]
fn an_amount_in_eur_is_the_amount_in_usd_over_the_rate() {
    assert_eq!(to_eur(1_000_000_000, 1_100_000), Some(909_090_909));
    assert_eq!(to_eur(200_000_000, 1_100_000), Some(181_818_181));
    assert_eq!(to_eur(5_000_000, 1_000_000), Some(5_000_000));
    assert_eq!(to_eur(5_000_000, 2_000_000), Some(2_500_000));
    assert_eq!(to_eur(1, 3_000_000), Some(0));
    assert_eq!(to_eur(0, 1), Some(0));
    assert_eq!(to_eur(5_000_000, 0), None);
    assert_eq!(to_eur(MAX_AMOUNT, 1_000_000), Some(MAX_AMOUNT));
    assert_eq!(to_eur(MAX_AMOUNT, 999_999), None);
    assert_eq!(to_eur(u64::MAX, 2_000_000), Some(u64::MAX / 2));
    assert_eq!(to_eur(u64::MAX, 1), None);
}

#[test]
fn a_transaction_holds_what_it_was_made_of() {
    let t = Transaction::new(day(2023, 3, 1), -200_000_000, 800_000_000, 1_100_000).unwrap();
    assert_eq!(t.sell_date(), day(2023, 3, 1));
    assert_eq!(t.usd_gain(), 0);
    assert_eq!(t.usd_loss(), 200_000_000);
    assert_eq!(t.eur_gain(), 0);
    assert_eq!(t.eur_loss(), 181_818_181);
    assert_eq!(t.exr(), 1_100_000);
    assert_eq!(t.usd_proceeds(), 800_000_000);
    assert_eq!(t.eur_proceeds(), 727_272_727);
}

#[test]
fn one_of_gain_and_loss_is_zero() {
    let figures: [i64; 7] = [1, -1, 0, 1_000_000_000, -200_000_000, i64::MAX, i64::MIN];
    for figure in figures {
        let t = Transaction::new(day(2023, 3, 1), figure, 0, 1_000_000).unwrap();
        assert!(t.usd_gain() == 0 || t.usd_loss() == 0);
        if figure != 0 {
            assert!((t.usd_gain() == 0) != (t.usd_loss() == 0));
        }
        assert_eq!(t.usd_gain() as i128 - t.usd_loss() as i128, figure as i128);
    }
}

#[test]
fn amounts_in_eur_follow_from_the_rate() {
    let rates: [u64; 4] = [1, 999_999, 1_087_600, 250_000_000];
    for rate in rates {
        let Some(t) = Transaction::new(day(2023, 3, 1), 123_456_789, 987_654_321, rate) else {
            continue;
        };
        for (usd, eur) in [
            (t.usd_gain(), t.eur_gain()),
            (t.usd_loss(), t.eur_loss()),
            (t.usd_proceeds(), t.eur_proceeds()),
        ] {
            assert_eq!(eur as u128, usd as u128 * 1_000_000 / rate as u128);
            assert!((eur as f64 / 1e6 - (usd as f64 / 1e6) / (rate as f64 / 1e6)).abs() < 1e-5);
        }
    }
}

#[test]
fn a_transaction_needs_a_day_a_rate_and_proceeds() {
    assert!(Transaction::new(day(2023, 2, 29), 1, 1, 1_000_000).is_none());
    assert!(Transaction::new(day(2023, 3, 1), 1, 1, 0).is_none());
    assert!(Transaction::new(day(2023, 3, 1), 1, -1, 1_000_000).is_none());
    assert!(Transaction::new(day(2023, 3, 1), i64::MAX, 0, 999_999).is_none());
    assert!(Transaction::new(day(2023, 3, 1), i64::MIN, 0, 999_999).is_none());
    assert!(Transaction::new(day(2023, 3, 1), 0, i64::MAX, 999_999).is_none());
    assert!(Transaction::new(day(2023, 3, 1), i64::MIN, i64::MAX, 1_000_000).is_some());
}

#[test]
fn no_rows_give_no_transactions() {
    let cache = ExchangeRateCache::new();
    assert!(complete(get_transactions(headers(), &vec![], &cache)).is_empty());
}

#[test]
fn rows_that_are_no_sale_ask_for_nothing() {
    let cache = ExchangeRateCache::new();
    let rows = vec![
        vec![Cell::Text("Buy".to_string()), Cell::Text("garbage".to_string())],
        vec![Cell::Text("Sell ".to_string()), Cell::Empty, Cell::Empty, Cell::Empty],
        vec![Cell::Text("sell".to_string())],
        vec![Cell::Number(1_000_000)],
        vec![Cell::Empty],
        vec![],
    ];
    assert!(complete(get_transactions(headers(), &rows, &cache)).is_empty());
}

#[test]
fn a_missing_rate_is_asked_for() {
    let rows = vec![sale("03/01/2023", 1, 1), sale("03/02/2023", 1, 1)];
    let mut cache = ExchangeRateCache::new();
    assert_eq!(needed(get_transactions(headers(), &rows, &cache)), day(2023, 3, 1));
    cache.store(day(2023, 3, 1), 1_100_000).unwrap();
    assert_eq!(needed(get_transactions(headers(), &rows, &cache)), day(2023, 3, 2));
    cache.store(day(2023, 3, 2), 1_200_000).unwrap();
    let transactions = complete(get_transactions(headers(), &rows, &cache));
    assert_eq!(transactions.len(), 2);
    assert_eq!(transactions[0].exr(), 1_100_000);
    assert_eq!(transactions[1].exr(), 1_200_000);
}

#[test]
fn each_day_is_asked_for_once() {
    let rows = vec![
        sale("03/01/2023", 1, 1),
        sale("03/02/2023", 1, 1),
        sale("03/01/2023", 1, 1),
        sale("03/02/2023", 1, 1),
        sale("03/03/2023", 1, 1),
        sale("03/01/2023", 1, 1),
    ];
    let mut cache = ExchangeRateCache::new();
    let mut asked = Vec::new();
    let transactions = loop {
        match get_transactions(headers(), &rows, &cache) {
            Ingestion::Complete(transactions) => break transactions,
            Ingestion::NeedsRate(date) => {
                asked.push(date);
                cache.resolve(date, b"OBS_VALUE\n1.10\n").unwrap();
            }
            Ingestion::Failed(error) => panic!("given up: {:?}", error),
        }
    };
    assert_eq!(asked, vec![day(2023, 3, 1), day(2023, 3, 2), day(2023, 3, 3)]);
    assert_eq!(transactions.len(), 6);
}

#[test]
fn transactions_keep_the_order_of_the_rows() {
    let rows = vec![
        sale("12/05/2023", 3_000_000, 1),
        sale("01/15/2023", 1_000_000, 1),
        sale("06/30/2023", 2_000_000, 1),
    ];
    let cache = cache_with(&[
        (day(2023, 12, 5), 1_000_000),
        (day(2023, 1, 15), 1_000_000),
        (day(2023, 6, 30), 1_000_000),
    ]);
    let transactions = complete(get_transactions(headers(), &rows, &cache));
    let dates: Vec<CalendarDate> = transactions.iter().map(|t| t.sell_date()).collect();
    assert_eq!(dates, vec![day(2023, 12, 5), day(2023, 1, 15), day(2023, 6, 30)]);
}

#[test]
fn a_sale_of_another_year_is_a_violation() {
    let rows = vec![
        sale("03/01/2023", 1, 1),
        vec![Cell::Text("Buy".to_string()), Cell::Text("03/01/2021".to_string())],
        sale("12/31/2023", 1, 1),
        sale("01/01/2024", 1, 1),
    ];
    let cache = cache_with(&[(day(2023, 3, 1), 1_000_000), (day(2023, 12, 31), 1_000_000)]);
    assert_eq!(
        failure(get_transactions(headers(), &rows, &cache)),
        Error::CrossYearViolation { row: 3, fiscal_year: 2023, year: 2024 }
    );
}

#[test]
fn the_year_is_checked_before_the_amounts_and_the_rate() {
    let rows = vec![
        sale("03/01/2023", 1, 1),
        vec![
            Cell::Text("Sell".to_string()),
            Cell::Text("03/01/2022".to_string()),
            Cell::Empty,
            Cell::Empty,
        ],
    ];
    let cache = cache_with(&[(day(2023, 3, 1), 1_000_000)]);
    assert_eq!(
        failure(get_transactions(headers(), &rows, &cache)),
        Error::CrossYearViolation { row: 1, fiscal_year: 2023, year: 2022 }
    );
}

#[test]
fn a_sale_in_the_year_zero_fixes_the_fiscal_year() {
    let rows = vec![sale("03/01/0000", 1, 1), sale("03/01/2023", 1, 1)];
    let cache = cache_with(&[(day(0, 3, 1), 1_000_000), (day(2023, 3, 1), 1_000_000)]);
    assert_eq!(
        failure(get_transactions(headers(), &rows, &cache)),
        Error::CrossYearViolation { row: 1, fiscal_year: 0, year: 2023 }
    );
}

#[test]
fn a_date_that_cannot_be_read_is_malformed() {
    let cache = ExchangeRateCache::new();
    for cell in [
        Cell::Text("2023-03-01".to_string()),
        Cell::Text("02/30/2023".to_string()),
        Cell::Text("".to_string()),
        Cell::Number(45_000_000_000),
        Cell::Empty,
    ] {
        let rows = vec![
            sale("03/01/2023", 1, 1),
            vec![Cell::Text("Sell".to_string()), cell, Cell::Number(1), Cell::Number(1)],
        ];
        let cache_ready = cache_with(&[(day(2023, 3, 1), 1_000_000)]);
        assert_eq!(
            failure(get_transactions(headers(), &rows, &cache_ready)),
            Error::MalformedField { row: 1, column: Column::DateSold }
        );
    }
    let rows = vec![vec![Cell::Text("Sell".to_string())]];
    assert_eq!(
        failure(get_transactions(headers(), &rows, &cache)),
        Error::MalformedField { row: 0, column: Column::DateSold }
    );
}

#[test]
fn proceeds_must_be_a_number_that_is_not_negative() {
    let cache = ExchangeRateCache::new();
    for cell in [
        Cell::Empty,
        Cell::Text("a lot".to_string()),
        Cell::Text("".to_string()),
        Cell::Number(-1),
        Cell::Text("-0.5".to_string()),
        Cell::Text("1e3".to_string()),
    ] {
        let rows = vec![vec![
            Cell::Text("Sell".to_string()),
            Cell::Text("03/01/2023".to_string()),
            Cell::Empty,
            cell,
        ]];
        assert_eq!(
            failure(get_transactions(headers(), &rows, &cache)),
            Error::MalformedField { row: 0, column: Column::TotalProceeds }
        );
    }
}

#[test]
fn the_gain_or_loss_must_be_a_number() {
    let cache = ExchangeRateCache::new();
    for cell in [Cell::Empty, Cell::Text("n/a".to_string())] {
        let rows = vec![vec![
            Cell::Text("Sell".to_string()),
            Cell::Text("03/01/2023".to_string()),
            cell,
            Cell::Number(1),
        ]];
        assert_eq!(
            failure(get_transactions(headers(), &rows, &cache)),
            Error::MalformedField { row: 0, column: Column::GainLoss }
        );
    }
    let rows = vec![vec![
        Cell::Text("Sell".to_string()),
        Cell::Text("03/01/2023".to_string()),
        Cell::Number(5),
    ]];
    assert_eq!(
        failure(get_transactions(headers(), &rows, &cache)),
        Error::MalformedField { row: 0, column: Column::TotalProceeds }
    );
}

#[test]
fn amounts_written_as_text_are_read() {
    let rows = vec![vec![
        Cell::Text("Sell".to_string()),
        Cell::Text("03/01/2023".to_string()),
        Cell::Text("-12.5".to_string()),
        Cell::Text("100".to_string()),
    ]];
    let cache = cache_with(&[(day(2023, 3, 1), 1_000_000)]);
    let transactions = complete(get_transactions(headers(), &rows, &cache));
    assert_eq!(transactions[0].usd_loss(), 12_500_000);
    assert_eq!(transactions[0].usd_gain(), 0);
    assert_eq!(transactions[0].usd_proceeds(), 100_000_000);
}

#[test]
fn an_earlier_failure_comes_before_a_later_request() {
    let rows = vec![
        sale("03/01/2023", 1, 1),
        vec![
            Cell::Text("Sell".to_string()),
            Cell::Text("03/01/2023".to_string()),
            Cell::Text("?".to_string()),
            Cell::Number(1),
        ],
        sale("03/02/2023", 1, 1),
    ];
    let mut cache = ExchangeRateCache::new();
    assert_eq!(needed(get_transactions(headers(), &rows, &cache)), day(2023, 3, 1));
    cache.store(day(2023, 3, 1), 1_000_000).unwrap();
    assert_eq!(
        failure(get_transactions(headers(), &rows, &cache)),
        Error::MalformedField { row: 1, column: Column::GainLoss }
    );
}

#[test]
fn amounts_that_do_not_fit_in_eur_are_malformed() {
    let cache = cache_with(&[(day(2023, 3, 1), 500_000)]);
    let rows = vec![sale("03/01/2023", 1, i64::MAX)];
    assert_eq!(
        failure(get_transactions(headers(), &rows, &cache)),
        Error::MalformedField { row: 0, column: Column::TotalProceeds }
    );
    let rows = vec![sale("03/01/2023", i64::MAX, 1)];
    assert_eq!(
        failure(get_transactions(headers(), &rows, &cache)),
        Error::MalformedField { row: 0, column: Column::GainLoss }
    );
    let rows = vec![sale("03/01/2023", i64::MIN, 1)];
    assert_eq!(
        failure(get_transactions(headers(), &rows, &cache)),
        Error::MalformedField { row: 0, column: Column::GainLoss }
    );
}

#[test]
fn a_response_without_a_rate_ends_the_run() {
    let rows = vec![sale("03/01/2023", 1, 1)];
    let mut cache = ExchangeRateCache::new();
    let date = needed(get_transactions(headers(), &rows, &cache));
    assert_eq!(
        cache.resolve(date, b"TIME_PERIOD,OBS_VALUE\n"),
        Err(Error::RateUnavailable { date: day(2023, 3, 1), reason: RateFailure::MissingRow })
    );
    assert_eq!(needed(get_transactions(headers(), &rows, &cache)), day(2023, 3, 1));
}

#[test]
fn missing_columns_come_before_any_row() {
    let rows = vec![vec![Cell::Text("Sell".to_string())]];
    let cache = ExchangeRateCache::new();
    assert_eq!(
        failure(get_transactions(vec!["Date Sold".to_string()], &rows, &cache)),
        Error::MissingColumn(Column::GainLoss)
    );
}

#[test]
fn a_row_is_a_sale_by_its_record_type_alone() {
    assert!(is_sale_row(COLUMNS, &sale("never", 0, 0)));
    assert!(!is_sale_row(COLUMNS, &vec![Cell::Text("Sell\n".to_string())]));
    assert!(!is_sale_row(COLUMNS, &vec![]));
    assert!(!is_sale_row((0, 1, 2, 3), &sale("03/01/2023", 0, 0)));
    assert!(is_sale_row((0, 1, 7, 3), &{
        let mut row = sale("03/01/2023", 0, 0);
        row.extend([Cell::Empty, Cell::Empty, Cell::Empty, Cell::Text("Sell".to_string())]);
        row
    }));
}

#[test]
fn the_day_of_a_sale_is_read_from_its_column() {
    assert_eq!(sale_date_of_row(COLUMNS, &sale("03/01/2023", 0, 0)), Some(day(2023, 3, 1)));
    assert_eq!(sale_date_of_row(COLUMNS, &sale("1 March", 0, 0)), None);
    assert_eq!(sale_date_of_row((2, 1, 0, 3), &sale("03/01/2023", 0, 0)), None);
    assert_eq!(sale_date_of_row((9, 1, 0, 3), &sale("03/01/2023", 0, 0)), None);
}

#[test]
fn a_sale_is_worked_out_from_the_day_read() {
    let cache = cache_with(&[(day(2023, 3, 1), 2_000_000)]);
    let row = sale("ignored", 10_000_000, 30_000_000);
    match sale_of_row(COLUMNS, &row, 7, Some(day(2023, 3, 1)), Some(2023), &cache) {
        RowStep::Sale(t) => {
            assert_eq!(t.sell_date(), day(2023, 3, 1));
            assert_eq!(t.eur_gain(), 5_000_000);
            assert_eq!(t.eur_proceeds(), 15_000_000);
        }
        other => panic!("no sale: {:?}", other),
    }
    match sale_of_row(COLUMNS, &row, 7, None, Some(2023), &cache) {
        RowStep::Failed(error) => {
            assert_eq!(error, Error::MalformedField { row: 7, column: Column::DateSold })
        }
        other => panic!("no failure: {:?}", other),
    }
    match sale_of_row(COLUMNS, &row, 7, Some(day(2023, 3, 1)), Some(2022), &cache) {
        RowStep::Failed(error) => {
            assert_eq!(error, Error::CrossYearViolation { row: 7, fiscal_year: 2022, year: 2023 })
        }
        other => panic!("no failure: {:?}", other),
    }
    match sale_of_row(COLUMNS, &row, 7, Some(day(2023, 3, 2)), None, &cache) {
        RowStep::NeedsRate(date) => assert_eq!(date, day(2023, 3, 2)),
        other => panic!("no request: {:?}", other),
    }
}

#[test]
fn a_row_is_passed_over_or_worked_out() {
    let cache = cache_with(&[(day(2023, 3, 1), 1_000_000)]);
    assert!(matches!(
        process_row(COLUMNS, &vec![Cell::Text("Dividend".to_string())], 0, None, &cache),
        RowStep::Skipped
    ));
    assert!(matches!(
        process_row(COLUMNS, &sale("03/01/2023", 1, 1), 0, None, &cache),
        RowStep::Sale(_)
    ));
}

#[test]
fn a_whole_number_becomes_a_cell_in_millionths() {
    assert!(matches!(Cell::from_whole_number(5), Cell::Number(5_000_000)));
    assert!(matches!(Cell::from_whole_number(-3), Cell::Number(-3_000_000)));
    assert!(matches!(Cell::from_whole_number(0), Cell::Number(0)));
    assert!(matches!(
        Cell::from_whole_number(9_223_372_036_854),
        Cell::Number(9_223_372_036_854_000_000)
    ));
    assert!(matches!(
        Cell::from_whole_number(-9_223_372_036_854),
        Cell::Number(-9_223_372_036_854_000_000)
    ));
    match Cell::from_whole_number(9_223_372_036_855) {
        Cell::Text(text) => assert_eq!(text, "9223372036855"),
        other => panic!("no text: {:?}", other),
    }
    match Cell::from_whole_number(i64::MIN) {
        Cell::Text(text) => assert_eq!(text, i64::MIN.to_string()),
        other => panic!("no text: {:?}", other),
    }
}

#[test]
fn a_cell_holds_an_amount_or_none() {
    assert_eq!(Cell::Number(-7).as_amount(), Some(-7));
    assert_eq!(Cell::Text("1.5".to_string()).as_amount(), Some(1_500_000));
    assert_eq!(Cell::Text("one".to_string()).as_amount(), None);
    assert_eq!(Cell::Empty.as_amount(), None);
    assert!(Cell::Text("Sell".to_string()).holds_text("Sell"));
    assert!(!Cell::Text("Sell".to_string()).holds_text("Buy"));
    assert!(!Cell::Number(1).holds_text("1"));
    assert!(!Cell::Empty.holds_text(""));
}
