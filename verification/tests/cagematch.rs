use chrono::NaiveDate;
use suplex::cagematch::{
    check_body, check_status, check_validation_status, date_from_captures, extract_cagematch_nr, extract_first_date,
    extract_labeled_value, extract_logo_url, extract_name_and_abbrev_from_title,
    labeled_value_from_captures, logo_url_from_sources, parse_promotion_metadata,
    parse_titles_listing, split_page_title, CagematchClient,
};
use suplex::calendar::CalendarDate;

fn naive(d: Option<CalendarDate>) -> Option<NaiveDate> {
    d.and_then(|d| NaiveDate::from_ymd_opt(d.year, d.month, d.day))
}

#[test]
fn parse_promotion_metadata_extracts_name_and_abbreviation_from_title_tag() {
    let html = r#"
            <html>
                <head><title>All Elite Wrestling (AEW) « Promotions Database « CAGEMATCH - The Internet Wrestling Database</title></head>
                <body>
                    <h1>All Elite Wrestling (AEW)</h1>
                    <dl>
                        <dt>Current abbreviation:</dt><dd>AEW</dd>
                        <dt>Location:</dt><dd>Jacksonville, Florida, USA</dd>
                    </dl>
                    <img src="/site/main/img/ligen/normal/2287__20240306-.gif" alt="AEW">
                </body>
            </html>
        "#;
    let meta = parse_promotion_metadata(html);
    assert_eq!(meta.canonical_name.as_deref(), Some("All Elite Wrestling"));
    assert_eq!(meta.abbreviation.as_deref(), Some("AEW"));
    assert_eq!(meta.country.as_deref(), Some("Jacksonville, Florida, USA"));
    assert_eq!(
        meta.logo_url.as_deref(),
        Some("https://www.cagematch.net/site/main/img/ligen/normal/2287__20240306-.gif")
    );
}

#[test]
fn parse_titles_listing_pairs_title_and_champion_links_per_row() {
    let html = r#"
            <table>
                <tr>
                    <td>1</td>
                    <td><a href="?id=5&nr=4331">AEW World Championship</a></td>
                    <td><a href="?id=2&nr=18849">Darby Allin</a></td>
                    <td>15.04.2026 - today (5 days)</td>
                </tr>
                <tr>
                    <td>2</td>
                    <td><a href="?id=5&nr=6550">AEW Continental Championship</a></td>
                    <td><a href="?id=2&nr=2345">Jon Moxley</a></td>
                    <td>12.03.2026 - today (39 days)</td>
                </tr>
            </table>
        "#;
    let titles = parse_titles_listing(html);
    assert_eq!(titles.len(), 2);
    assert_eq!(titles[0].cagematch_id, 4331);
    assert_eq!(titles[0].name, "AEW World Championship");
    assert_eq!(titles[0].champion_display.as_deref(), Some("Darby Allin"));
    assert_eq!(titles[0].champion_cagematch_id, Some(18849));
    assert_eq!(naive(titles[0].since_date), NaiveDate::from_ymd_opt(2026, 4, 15));
    assert_eq!(titles[1].name, "AEW Continental Championship");
    assert_eq!(titles[1].champion_display.as_deref(), Some("Jon Moxley"));
}

#[test]
fn parse_titles_listing_keeps_vacant_rows() {
    let html = r#"
            <table>
                <tr>
                    <td><a href="?id=5&nr=9999">Vacant Title</a></td>
                    <td>(vacant)</td>
                    <td></td>
                </tr>
            </table>
        "#;
    let titles = parse_titles_listing(html);
    assert_eq!(titles.len(), 1);
    assert_eq!(titles[0].champion_display, None);
    assert_eq!(titles[0].champion_cagematch_id, None);
}

#[test]
fn parse_titles_listing_lists_a_repeated_title_once() {
    let html = r#"
            <table>
                <tr><td><a href="?id=5&nr=10">Tag Titles</a></td><td><a href="?id=2&nr=1">A</a></td></tr>
                <tr><td><a href="?id=5&nr=10">Tag Titles</a></td><td><a href="?id=2&nr=2">B</a></td></tr>
                <tr><td>no link here</td></tr>
                <tr><td><a href="?id=5&nr=11">Women's Title</a></td></tr>
            </table>
        "#;
    let titles = parse_titles_listing(html);
    assert_eq!(titles.len(), 2);
    assert_eq!(titles[0].cagematch_id, 10);
    assert_eq!(titles[0].champion_display.as_deref(), Some("A"));
    assert_eq!(titles[0].champion_cagematch_id, Some(1));
    assert_eq!(titles[1].cagematch_id, 11);
    assert!(titles.iter().all(|t| t.is_active));
    assert_eq!(titles[1].since_date, None);
}

#[test]
fn parse_titles_listing_skips_links_without_text_and_takes_first_champion() {
    let html = r#"
            <table>
                <tr>
                    <td><a href="?id=5&nr=3"> </a><a href="?id=5&nr=4">  Real Title  </a></td>
                    <td><a href="?id=2&nr=7">First</a> &amp; <a href="?id=2&nr=8">Second</a></td>
                    <td>31.02.2026</td>
                </tr>
            </table>
        "#;
    let titles = parse_titles_listing(html);
    assert_eq!(titles.len(), 1);
    assert_eq!(titles[0].cagematch_id, 4);
    assert_eq!(titles[0].name, "Real Title");
    assert_eq!(titles[0].champion_cagematch_id, Some(7));
    assert_eq!(titles[0].champion_display.as_deref(), Some("First"));
    assert_eq!(titles[0].since_date, None);
}

#[test]
fn parse_titles_listing_of_page_without_rows_is_empty() {
    assert!(parse_titles_listing("<p>nothing</p>").is_empty());
}

#[test]
fn extract_cagematch_nr_reads_number_after_prefix() {
    assert_eq!(extract_cagematch_nr("?id=5&nr=4331", 5), Some(4331));
    assert_eq!(extract_cagematch_nr("https://x/?id=2&nr=18849&view=", 2), Some(18849));
    assert_eq!(extract_cagematch_nr("?id=5&nr=4331", 2), None);
    assert_eq!(extract_cagematch_nr("?id=5&nr=", 5), None);
    assert_eq!(extract_cagematch_nr("?id=5&nr=99999999999", 5), None);
    assert_eq!(extract_cagematch_nr("?id=5&nr=2147483647x", 5), Some(2147483647));
    assert_eq!(extract_cagematch_nr("?id=15&nr=3", 5), None);
    assert_eq!(extract_cagematch_nr("?id=-1&nr=3", -1), Some(3));
}

#[test]
fn client_builds_page_addresses() {
    let c = CagematchClient::new("suplex-test", 250);
    assert_eq!(c.base_url, "https://www.cagematch.net");
    assert_eq!(c.user_agent, "suplex-test");
    assert_eq!(c.rate_limit_ms, 250);
    assert_eq!(c.promotion_url(2287), "https://www.cagematch.net/?id=8&nr=2287");
    assert_eq!(c.titles_url(2287), "https://www.cagematch.net/?id=8&nr=2287&page=9");
    assert_eq!(c.title_url(4331), "https://www.cagematch.net/?id=5&nr=4331");
    assert_eq!(c.title_url(-7), "https://www.cagematch.net/?id=5&nr=-7");
}

#[test]
fn client_addresses_read_back_as_links() {
    let c = CagematchClient::new("ua", 0);
    for id in [0, 7, 4331, i32::MAX] {
        assert_eq!(extract_cagematch_nr(&c.title_url(id), 5), Some(id));
        assert_eq!(extract_cagematch_nr(&c.promotion_url(id), 8), Some(id));
        assert_eq!(extract_cagematch_nr(&c.titles_url(id), 8), Some(id));
    }
    assert_eq!(extract_cagematch_nr(&c.title_url(-1), 5), None);
}

#[test]
fn throttle_waits_out_the_window() {
    let c = CagematchClient::new("ua", 1000);
    assert_eq!(c.throttle_delay(None), 0);
    assert_eq!(c.throttle_delay(Some(250_000_000)), 750_000_000);
    assert_eq!(c.throttle_delay(Some(1_000_000_000)), 0);
    assert_eq!(c.throttle_delay(Some(5_000_000_000)), 0);
}

#[test]
fn split_page_title_cases() {
    let (n, a) = split_page_title("All Elite Wrestling (AEW) « Promotions Database");
    assert_eq!(n.as_deref(), Some("All Elite Wrestling"));
    assert_eq!(a.as_deref(), Some("AEW"));
    let (n, a) = split_page_title("  Some Promotion  « x « y");
    assert_eq!(n.as_deref(), Some("Some Promotion"));
    assert_eq!(a, None);
    let (n, a) = split_page_title("   « x");
    assert_eq!(n, None);
    assert_eq!(a, None);
    let (n, a) = split_page_title("Empty ( )");
    assert_eq!(n.as_deref(), Some("Empty ( )"));
    assert_eq!(a, None);
    let (n, a) = split_page_title("Big (Inner (X)) Show (BIS)");
    assert_eq!(n.as_deref(), Some("Big (Inner (X)) Show"));
    assert_eq!(a.as_deref(), Some("BIS"));
    let (n, a) = split_page_title("No Close (NC");
    assert_eq!(n.as_deref(), Some("No Close (NC"));
    assert_eq!(a, None);
}

#[test]
fn title_name_needs_a_title_element() {
    let (n, a) = extract_name_and_abbrev_from_title("<html><body>no title</body></html>");
    assert_eq!(n, None);
    assert_eq!(a, None);
    let (n, a) = extract_name_and_abbrev_from_title("<title>Wrestle Co (WC)</title>");
    assert_eq!(n.as_deref(), Some("Wrestle Co"));
    assert_eq!(a.as_deref(), Some("WC"));
}

#[test]
fn labeled_values_skip_tags_and_escape_labels() {
    let html = "<div>Location: <a href='x'> Tokyo, Japan </a></div>\n<b>Name (short):</b> NJPW<br>\nEmpty: <i></i>\n";
    assert_eq!(extract_labeled_value(html, "Location").as_deref(), Some("Tokyo, Japan"));
    assert_eq!(extract_labeled_value(html, "Name (short)").as_deref(), Some("NJPW"));
    assert_eq!(extract_labeled_value(html, "Missing"), None);
    assert_eq!(extract_labeled_value("Status:   \n", "Status"), None);
    assert_eq!(
        labeled_value_from_captures(&Some(vec![Some("x".to_string()), Some("  v ".to_string())])),
        Some("v".to_string())
    );
    assert_eq!(labeled_value_from_captures(&Some(vec![Some("x".to_string())])), None);
    assert_eq!(labeled_value_from_captures(&Some(vec![Some("x".to_string()), Some("  ".to_string())])), None);
    assert_eq!(labeled_value_from_captures(&None), None);
}

#[test]
fn logo_address_is_made_absolute() {
    let srcs = vec![
        None,
        Some("/other/img.gif".to_string()),
        Some("img/site/main/img/ligen/a.png".to_string()),
        Some("/site/main/img/ligen/b.png".to_string()),
    ];
    assert_eq!(
        logo_url_from_sources(&srcs).as_deref(),
        Some("https://www.cagematch.net/img/site/main/img/ligen/a.png")
    );
    let srcs = vec![Some("http://cdn.example/site/main/img/ligen/c.png".to_string())];
    assert_eq!(
        logo_url_from_sources(&srcs).as_deref(),
        Some("http://cdn.example/site/main/img/ligen/c.png")
    );
    assert_eq!(logo_url_from_sources(&vec![Some("/x.png".to_string())]), None);
    assert_eq!(extract_logo_url("<img alt='no src'><img src='/site/main/img/ligen/d.gif'>").as_deref(),
        Some("https://www.cagematch.net/site/main/img/ligen/d.gif"));
    assert_eq!(extract_logo_url("<p>none</p>"), None);
}

#[test]
fn dates_are_read_and_checked() {
    assert_eq!(naive(extract_first_date("since 29.02.2024 and 01.01.2025")), NaiveDate::from_ymd_opt(2024, 2, 29));
    assert_eq!(extract_first_date("29.02.2023"), None);
    assert_eq!(extract_first_date("no date"), None);
    assert_eq!(extract_first_date("1.2.2024"), None);
    let caps = Some(vec![Some("x".to_string()), Some("07".to_string()), Some("12".to_string()), Some("1999".to_string())]);
    assert_eq!(date_from_captures(&caps), Some(CalendarDate { year: 1999, month: 12, day: 7 }));
    let caps = Some(vec![Some("x".to_string()), Some("07".to_string()), Some("13".to_string()), Some("1999".to_string())]);
    assert_eq!(date_from_captures(&caps), None);
    let caps = Some(vec![Some("x".to_string()), Some("07".to_string())]);
    assert_eq!(date_from_captures(&caps), None);
}

#[test]
fn responses_are_checked() {
    assert_eq!(check_status("u", 200), Ok(()));
    assert_eq!(check_status("u", 299), Ok(()));
    assert_eq!(
        check_status("https://www.cagematch.net/?id=8&nr=1", 404),
        Err("cagematch.net returned HTTP 404 for https://www.cagematch.net/?id=8&nr=1".to_string())
    );
    assert_eq!(check_status("u", 301), Err("cagematch.net returned HTTP 301 for u".to_string()));
    assert_eq!(check_body("u", "<html>fine</html>".to_string()), Ok("<html>fine</html>".to_string()));
    assert_eq!(
        check_body("u", "<h1>Error 404 - Page not found</h1>".to_string()),
        Err("cagematch.net returned a soft 404 for u".to_string())
    );
}

#[test]
fn metadata_without_labels_takes_abbreviation_from_title() {
    let meta = parse_promotion_metadata("<title>World Wonder Ring Stardom (Stardom) « x</title>");
    assert_eq!(meta.canonical_name.as_deref(), Some("World Wonder Ring Stardom"));
    assert_eq!(meta.abbreviation.as_deref(), Some("Stardom"));
    assert_eq!(meta.country, None);
    assert_eq!(meta.logo_url, None);
}

#[test]
fn labeled_value_stops_at_a_line_break() {
    assert_eq!(
        extract_labeled_value("<div>Location: Tokyo\nJapan</div>", "Location").as_deref(),
        Some("Tokyo")
    );
    assert_eq!(
        extract_labeled_value("<div>Location: Osaka\r\nJapan</div>", "Location").as_deref(),
        Some("Osaka")
    );
    assert_eq!(extract_labeled_value("Location: Nagoya", "Location").as_deref(), Some("Nagoya"));
}

#[test]
fn validation_accepts_exactly_http_200() {
    assert_eq!(check_validation_status("u", 200), Ok(()));
    assert_eq!(
        check_validation_status("u", 204),
        Err("cagematch.net returned HTTP 204 for u".to_string())
    );
    assert_eq!(
        check_validation_status("u", 404),
        Err("cagematch.net returned HTTP 404 for u".to_string())
    );
    assert_eq!(check_status("u", 204), Ok(()));
}
