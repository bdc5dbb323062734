use suplex::cagematch::{CagematchClient, PromotionMetadata, ScrapedTitle};
use suplex::calendar::CalendarDate;
use suplex::config::{Config, ConfigError};
use suplex::scrape::{
    collect_scrape_results, merge_metadata, title_fields, ScrapeResult, ScrapeSummary,
    ScrapeTally, SyncLogState, SyncStatus, SYNC_SCOPE_PROMOTION,
};
use suplex::settings::{AddPromotionInput, PromotionSettings, UpdatePromotionInput};
use uuid::Uuid;

fn meta(n: Option<&str>, a: Option<&str>, c: Option<&str>, l: Option<&str>) -> PromotionMetadata {
    PromotionMetadata {
        canonical_name: n.map(String::from),
        abbreviation: a.map(String::from),
        country: c.map(String::from),
        logo_url: l.map(String::from),
    }
}

#[test]
fn merge_keeps_stored_fields_the_scrape_did_not_find() {
    let current = meta(Some("Old Name"), Some("ON"), None, Some("http://old"));
    let scraped = meta(Some("New Name"), None, Some("USA"), None);
    let m = merge_metadata(current, scraped);
    assert_eq!(m.canonical_name.as_deref(), Some("New Name"));
    assert_eq!(m.abbreviation.as_deref(), Some("ON"));
    assert_eq!(m.country.as_deref(), Some("USA"));
    assert_eq!(m.logo_url.as_deref(), Some("http://old"));
    let again = merge_metadata(m.clone(), meta(Some("New Name"), None, Some("USA"), None));
    assert_eq!(again.canonical_name, m.canonical_name);
    assert_eq!(again.abbreviation, m.abbreviation);
    assert_eq!(again.country, m.country);
    assert_eq!(again.logo_url, m.logo_url);
    let unchanged = merge_metadata(m.clone(), PromotionMetadata::default());
    assert_eq!(unchanged.canonical_name, m.canonical_name);
    assert_eq!(unchanged.logo_url, m.logo_url);
}

#[test]
fn title_fields_carry_the_scraped_row_and_the_title_address() {
    let client = CagematchClient::new("ua", 1000);
    let scraped = ScrapedTitle {
        cagematch_id: 4331,
        name: "AEW World Championship".to_string(),
        is_active: true,
        champion_display: Some("Darby Allin".to_string()),
        champion_cagematch_id: Some(18849),
        since_date: Some(CalendarDate { year: 2026, month: 4, day: 15 }),
    };
    let f = title_fields(&client, scraped);
    assert_eq!(f.cagematch_id, 4331);
    assert_eq!(f.name, "AEW World Championship");
    assert!(f.is_active);
    assert_eq!(f.cagematch_url.as_deref(), Some("https://www.cagematch.net/?id=5&nr=4331"));
    assert_eq!(f.current_champion_display.as_deref(), Some("Darby Allin"));
    assert_eq!(f.current_champion_cagematch_id, Some(18849));
    assert_eq!(f.current_since_date, Some(CalendarDate { year: 2026, month: 4, day: 15 }));
}

#[test]
fn tally_counts_each_title_once() {
    let mut t = ScrapeTally::new();
    t.record(false);
    t.record(true);
    t.record(false);
    assert_eq!((t.created, t.updated), (2, 1));
    let id = Uuid::from_u128(7);
    let s = t.summary(id);
    assert_eq!(s.promotion_id, id);
    assert_eq!(s.titles_created, 2);
    assert_eq!(s.titles_updated, 1);
}

#[test]
fn tally_of_flags_counts_updates_and_creations() {
    let t = ScrapeTally::of_flags(&vec![true, false, false, true, false]);
    assert_eq!((t.created, t.updated), (3, 2));
    let t = ScrapeTally::of_flags(&vec![]);
    assert_eq!((t.created, t.updated), (0, 0));
    let second_run = ScrapeTally::of_flags(&vec![true, true, true]);
    assert_eq!((second_run.created, second_run.updated), (0, 3));
}

#[test]
fn scrape_reports_show_failures_without_counts() {
    let requested = Uuid::from_u128(1);
    let ok = ScrapeSummary { promotion_id: requested, titles_created: 3, titles_updated: 4 };
    let r = ScrapeResult::from_outcome(requested, Ok(ok));
    assert_eq!((r.titles_created, r.titles_updated, r.error.clone()), (3, 4, None));
    let r = ScrapeResult::from_outcome(requested, Err("promotion not found".to_string()));
    assert_eq!(r.promotion_id, requested);
    assert_eq!((r.titles_created, r.titles_updated), (0, 0));
    assert_eq!(r.error.as_deref(), Some("promotion not found"));
}

#[test]
fn every_promotion_gets_a_report_even_after_a_failure() {
    let ids = vec![Uuid::from_u128(1), Uuid::from_u128(2), Uuid::from_u128(3)];
    let outcomes = vec![
        Err("cagematch.net returned HTTP 500 for u".to_string()),
        Ok(ScrapeSummary { promotion_id: ids[1], titles_created: 1, titles_updated: 0 }),
        Err("failed".to_string()),
    ];
    let results = collect_scrape_results(&ids, outcomes);
    assert_eq!(results.len(), 3);
    assert_eq!(results[0].promotion_id, ids[0]);
    assert!(results[0].error.is_some());
    assert_eq!(results[1].titles_created, 1);
    assert_eq!(results[1].error, None);
    assert_eq!(results[2].promotion_id, ids[2]);
    assert_eq!(results[2].error.as_deref(), Some("failed"));
}

#[test]
fn sync_log_records_start_and_outcome() {
    assert_eq!(SYNC_SCOPE_PROMOTION, "promotion");
    let s = SyncLogState::started();
    assert_eq!(s.status.as_str(), "running");
    assert_eq!((s.items_created, s.items_updated, s.error), (0, 0, None));
    let done = SyncLogState::finished(&Ok(ScrapeSummary {
        promotion_id: Uuid::from_u128(9),
        titles_created: 5,
        titles_updated: 2,
    }));
    assert_eq!(done.status, SyncStatus::Success);
    assert_eq!(done.status.as_str(), "success");
    assert_eq!((done.items_created, done.items_updated), (5, 2));
    let failed = SyncLogState::finished(&Err("boom".to_string()));
    assert_eq!(failed.status.as_str(), "error");
    assert_eq!((failed.items_created, failed.items_updated), (0, 0));
    assert_eq!(failed.error.as_deref(), Some("boom"));
}

fn settings() -> PromotionSettings {
    PromotionSettings { nickname: "aew".to_string(), accent_color: Some("#c5a572".to_string()), enabled: true }
}

#[test]
fn updates_change_only_given_fields() {
    let none = UpdatePromotionInput { nickname: None, accent_color: None, enabled: None };
    let s = none.apply(settings());
    assert_eq!(s.nickname, "aew");
    assert_eq!(s.accent_color.as_deref(), Some("#c5a572"));
    assert!(s.enabled);
    let u = UpdatePromotionInput { nickname: None, accent_color: Some("#000000".to_string()), enabled: Some(false) };
    let s = u.apply(settings());
    assert_eq!(s.nickname, "aew");
    assert_eq!(s.accent_color.as_deref(), Some("#000000"));
    assert!(!s.enabled);
    let u2 = UpdatePromotionInput { nickname: None, accent_color: Some("#000000".to_string()), enabled: Some(false) };
    let twice = u2.apply(s);
    assert_eq!(twice.accent_color.as_deref(), Some("#000000"));
    assert!(!twice.enabled);
    let n = UpdatePromotionInput { nickname: Some("njpw".to_string()), accent_color: None, enabled: None };
    assert_eq!(n.apply(settings()).nickname, "njpw");
}

#[test]
fn added_promotions_start_enabled_with_their_address() {
    let client = CagematchClient::new("ua", 1000);
    let input = AddPromotionInput { nickname: "aew".to_string(), cagematch_id: 2287, accent_color: None };
    let p = input.into_new_promotion(&client);
    assert_eq!(p.cagematch_id, 2287);
    assert_eq!(p.nickname, "aew");
    assert!(p.enabled);
    assert_eq!(p.cagematch_url.as_deref(), Some("https://www.cagematch.net/?id=8&nr=2287"));
    assert_eq!(p.metadata.canonical_name, None);
    assert_eq!(p.accent_color, None);
}

#[test]
fn config_defaults_and_errors() {
    let c = Config::from_values(Some("postgres://db".to_string()), None, None, None).unwrap();
    assert_eq!(c.database_url, "postgres://db");
    assert_eq!(c.api_port, 8083);
    assert_eq!(c.scraper_rate_limit_ms, 1000);
    assert_eq!(c.scraper_user_agent, "suplex");
    let c = Config::from_values(
        Some("d".to_string()),
        Some("9000".to_string()),
        Some("bot/1".to_string()),
        Some("+250".to_string()),
    )
    .unwrap();
    assert_eq!((c.api_port, c.scraper_rate_limit_ms), (9000, 250));
    assert_eq!(c.scraper_user_agent, "bot/1");
    assert_eq!(Config::from_values(None, None, None, None).err(), Some(ConfigError::MissingDatabaseUrl));
    assert_eq!(
        Config::from_values(Some("d".to_string()), Some("70000".to_string()), None, None).err(),
        Some(ConfigError::InvalidApiPort)
    );
    assert_eq!(
        Config::from_values(Some("d".to_string()), None, None, Some("-1".to_string())).err(),
        Some(ConfigError::InvalidRateLimit)
    );
    assert_eq!(ConfigError::MissingDatabaseUrl.message(), "DATABASE_URL must be set");
    assert_eq!(ConfigError::InvalidApiPort.message(), "API_PORT must be a valid port number");
}
