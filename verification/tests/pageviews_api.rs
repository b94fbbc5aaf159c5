use baglama2::pageviews::{pageviews_url, sum_view_items, total_views_of_response,
    view_count_or_zero};
use baglama2::records::ViewsTodo;

#[test]
fn test_get_total_monthly_page_views() {
    // The response shape of the per-article endpoint, with the daily counts
    // that sum to the month's total.
    let body = r#"{"items":[
        {"project":"en.wikipedia","article":"Eliza_Maria_Gordon-Cumming","views":40},
        {"project":"en.wikipedia","article":"Eliza_Maria_Gordon-Cumming","views":30},
        {"project":"en.wikipedia","article":"Eliza_Maria_Gordon-Cumming","views":40}
    ]}"#;
    assert_eq!(total_views_of_response(body), Some(110));
}

#[test]
fn test_response_without_items_is_nothing() {
    assert_eq!(total_views_of_response("{}"), None);
    assert_eq!(total_views_of_response("not json"), None);
    assert_eq!(total_views_of_response(r#"{"type":"about:blank","status":404}"#), None);
}

#[test]
fn test_items_without_views_count_zero() {
    let body = r#"{"items":[{"views":5},{"article":"x"},{"views":7}]}"#;
    assert_eq!(total_views_of_response(body), Some(12));
}

#[test]
fn test_sum_view_items_saturates() {
    assert_eq!(sum_view_items(&vec![Some(1), None, Some(2)]), 3);
    assert_eq!(sum_view_items(&vec![Some(u64::MAX), Some(1)]), u64::MAX);
    assert_eq!(sum_view_items(&vec![]), 0);
}

#[test]
fn test_view_count_or_zero() {
    assert_eq!(view_count_or_zero(Some(9)), 9);
    assert_eq!(view_count_or_zero(None), 0);
}

#[test]
fn test_pageviews_url() {
    let vt = ViewsTodo::new(
        "en.wikipedia.org",
        "Eliza_Maria_Gordon-Cumming",
        "20221001",
        "20221031",
        7,
    );
    assert_eq!(
        pageviews_url(&vt),
        "https://wikimedia.org/api/rest_v1/metrics/pageviews/per-article/en.wikipedia.org/all-access/user/Eliza_Maria_Gordon-Cumming/daily/20221001/20221031"
    );
    let vt = ViewsTodo::new("wikidata.wikipedia.org", "Q1", "20221001", "20221031", 8);
    assert!(pageviews_url(&vt).contains("/per-article/wikidata.org/"));
}
