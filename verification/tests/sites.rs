use baglama2::group_date::GroupDate;
use baglama2::site::{get_webserver_for_wiki, site2wiki, Site};

fn site(id: usize, project: &str, language: &str) -> Site {
    Site::new(
        id,
        None,
        Some(format!("{language}.{project}.org")),
        None,
        Some(project.to_string()),
        Some(language.to_string()),
        None,
    )
}

#[test]
fn test_fix_server_name_for_page_view_api() {
    assert_eq!(
        GroupDate::fix_server_name_for_page_view_api("en.wikipedia.org"),
        "en.wikipedia.org"
    );
    assert_eq!(
        GroupDate::fix_server_name_for_page_view_api("species.wikipedia.org"),
        "species.wikimedia.org"
    );
    assert_eq!(
        GroupDate::fix_server_name_for_page_view_api("wikidata.wikipedia.org"),
        "wikidata.org"
    );
}

#[test]
fn test_get_webserver_for_wiki() {
    assert_eq!(get_webserver_for_wiki("enwiki").unwrap(), "en.wikipedia.org");
    assert_eq!(get_webserver_for_wiki("wikidatawiki").unwrap(), "www.wikidata.org");
    assert_eq!(get_webserver_for_wiki("specieswiki").unwrap(), "species.wikimedia.org");
    assert_eq!(get_webserver_for_wiki("commonswiki").unwrap(), "commons.wikimedia.org");
    assert_eq!(get_webserver_for_wiki("enwikisource").unwrap(), "en.wikisource.org");
    assert_eq!(get_webserver_for_wiki("nosuchthing"), None);
    assert_eq!(get_webserver_for_wiki(""), None);
}

#[test]
fn test_site2wiki() {
    assert_eq!(site2wiki(&site(1, "wikipedia", "en")).unwrap(), "enwiki");
    assert_eq!(site2wiki(&site(2, "wikipedia", "commons")).unwrap(), "commonswiki");
    assert_eq!(site2wiki(&site(3, "wiktionary", "zh-min-nan")).unwrap(), "zh-min-nanwiktionary");
    let incomplete = Site::new(4, None, None, None, None, Some("en".to_string()), None);
    assert_eq!(site2wiki(&incomplete), None);
}
