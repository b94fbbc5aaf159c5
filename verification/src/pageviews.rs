//! The page-view client's computations: the request URL and the summation
//! of the per-day counts out of the API's response.
//!
//! The HTTP call itself stays outside; what enters here is the response
//! text, and what leaves is the month's total.

use crate::group_date::spec_fix_server;
use crate::records::ViewsTodo;
use vstd::prelude::*;
use vstd::string::StringExecFns;

verus! {

/// What the page-view API response parses to: for each element of its
/// top-level `items` array, the `views` field when it is an unsigned
/// integer; nothing when the text is not such a response.
pub uninterp spec fn pageview_items_of(s: Seq<char>) -> Option<Seq<Option<u64>>>;

/// Relies on serde_json::from_str and serde_json::Value's accessors: parses
/// the response text and reads `items[].views`; the result depends on the
/// text alone.
#[verifier::external_body]
fn parse_pageview_items(text: &str) -> (r: Option<Vec<Option<u64>>>)
    ensures
        r.deep_view() == pageview_items_of(text@),
{
    let v: serde_json::Value = serde_json::from_str(text).ok()?;
    let items = v.get("items")?.as_array()?;
    Some(items.iter().map(|item| item.get("views").and_then(|x| x.as_u64())).collect())
}

/// The sum of the present counts.
pub open spec fn spec_sum_items(items: Seq<Option<u64>>) -> int
    decreases items.len(),
{
    if items.len() == 0 {
        0
    } else {
        spec_sum_items(items.drop_last()) + match items.last() {
            Some(v) => v as int,
            None => 0int,
        }
    }
}

/// The sum clipped to the machine word.
pub open spec fn spec_clipped_sum(items: Seq<Option<u64>>) -> int {
    if spec_sum_items(items) <= u64::MAX {
        spec_sum_items(items)
    } else {
        u64::MAX as int
    }
}

proof fn lemma_sum_items_take(items: Seq<Option<u64>>, j: int)
    requires
        0 <= j < items.len(),
    ensures
        spec_sum_items(items.take(j + 1)) == spec_sum_items(items.take(j)) + match items[j] {
            Some(v) => v as int,
            None => 0int,
        },
{
    assert(items.take(j + 1).drop_last() =~= items.take(j));
    assert(items.take(j + 1).last() == items[j]);
}

/// Sums the present counts, saturating at the machine word.
pub fn sum_view_items(items: &Vec<Option<u64>>) -> (r: u64)
    ensures
        r as int == spec_clipped_sum(items@),
{
    let mut acc: u64 = 0;
    let mut i: usize = 0;
    while i < items.len()
        invariant
            i <= items@.len(),
            acc as int == spec_clipped_sum(items@.take(i as int)),
            acc as int <= spec_sum_items(items@.take(i as int)),
        decreases items@.len() - i,
    {
        proof {
            lemma_sum_items_take(items@, i as int);
        }
        match items[i] {
            Some(v) => {
                if acc > u64::MAX - v {
                    acc = u64::MAX;
                } else {
                    acc = acc + v;
                }
            },
            None => {},
        }
        i += 1;
    }
    proof {
        assert(items@.take(items@.len() as int) =~= items@);
    }
    acc
}

/// Sums the daily views of one response: the total for the month, or
/// nothing when the text is not a page-view response; the caller counts a
/// failed request as zero.
pub fn total_views_of_response(text: &str) -> (r: Option<u64>)
    ensures
        match r {
            Some(n) => pageview_items_of(text@) matches Some(items) && n as int
                == spec_clipped_sum(items),
            None => pageview_items_of(text@) is None,
        },
{
    match parse_pageview_items(text) {
        Some(items) => {
            proof {
                assert(items.deep_view() =~= items@);
            }
            Some(sum_view_items(&items))
        },
        None => None,
    }
}

/// A missing total counts as zero.
pub fn view_count_or_zero(r: Option<u64>) -> (n: u64)
    ensures
        match r {
            Some(v) => n == v,
            None => n == 0,
        },
{
    match r {
        Some(v) => v,
        None => 0,
    }
}

/// The monthly per-article endpoint for one request.
pub open spec fn spec_pageviews_url(
    server: Seq<char>,
    title: Seq<char>,
    first_day: Seq<char>,
    last_day: Seq<char>,
) -> Seq<char> {
    "https://wikimedia.org/api/rest_v1/metrics/pageviews/per-article/"@ + server
        + "/all-access/user/"@ + title + "/daily/"@ + first_day + seq!['/'] + last_day
}

/// Builds the request URL for one page-view item, with the server name
/// normalized for the API.
pub fn pageviews_url(vt: &ViewsTodo) -> (s: String)
    ensures
        s@ == spec_pageviews_url(
            spec_fix_server(vt.server@),
            vt.title@,
            vt.first_day@,
            vt.last_day@,
        ),
{
    let server = crate::group_date::GroupDate::fix_server_name_for_page_view_api(
        vt.server.as_str(),
    );
    let mut s = "https://wikimedia.org/api/rest_v1/metrics/pageviews/per-article/".to_owned();
    s.append(server.as_str());
    s.append("/all-access/user/");
    s.append(vt.title.as_str());
    s.append("/daily/");
    s.append(vt.first_day.as_str());
    crate::text::push_char(&mut s, '/');
    s.append(vt.last_day.as_str());
    proof {
        assert(s@ =~= spec_pageviews_url(
            spec_fix_server(vt.server@),
            vt.title@,
            vt.first_day@,
            vt.last_day@,
        ));
    }
    s
}

} // verus!
