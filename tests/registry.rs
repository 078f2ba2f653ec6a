use stock_restore::domain::Domain;

#[test]
fn every_domain_is_found_by_its_name() {
    let all = Domain::all();
    assert_eq!(all.len(), 10);
    for d in all {
        assert_eq!(Domain::from_name(&d.name()), Some(d));
    }
}

#[test]
fn unknown_names_are_not_domains() {
    assert_eq!(Domain::from_name("portfolio"), None);
    assert_eq!(Domain::from_name(""), None);
    assert_eq!(Domain::from_name("Holdings"), None);
}

#[test]
fn holdings_statements_follow_its_shape() {
    assert_eq!(
        Domain::Holdings.select_statement(),
        "SELECT id, code, name, cost, quantity, hold_time, status, sell_time, sell_price, profit FROM holdings"
    );
    assert_eq!(
        Domain::Holdings.upsert_statement(),
        "INSERT OR REPLACE INTO holdings (id, code, name, cost, quantity, hold_time, status, sell_time, sell_price, profit) VALUES (?, ?, ?, ?, ?, ?, ?, ?, ?, ?)"
    );
}

#[test]
fn two_column_statements() {
    assert_eq!(Domain::AppConfig.select_statement(), "SELECT key, value FROM app_config");
    assert_eq!(
        Domain::AllStocks.upsert_statement(),
        "INSERT OR REPLACE INTO all_stocks (symbol, name) VALUES (?, ?)"
    );
}

#[test]
fn column_names_of_a_shape() {
    assert_eq!(
        Domain::MarketAnalysis.column_names(),
        vec!["date".to_string(), "analysis".to_string(), "status".to_string()]
    );
    assert_eq!(Domain::Orders.columns().len(), 7);
}

#[test]
fn holdings_are_matched_by_code() {
    assert_eq!(Domain::Holdings.key_index(), 1);
    assert_eq!(
        Domain::Holdings.clear_statement(),
        Some("DELETE FROM holdings WHERE code = ?".to_string())
    );
    assert_eq!(Domain::Orders.key_index(), 0);
    assert_eq!(Domain::Orders.clear_statement(), None);
    assert_eq!(Domain::AppConfig.clear_statement(), None);
}
