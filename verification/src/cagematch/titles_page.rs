//! Reading a promotion's titles page: one entry per title, with its
//! current champion and since when they hold it.

use crate::calendar::{date_from_ymd, is_valid_date, CalendarDate};
use crate::cagematch::client::{cagematch_nr, extract_cagematch_nr};
use crate::html::{
    html_select_groups, select_groups, ElementGroup, GroupView, MemberElement, MemberView,
};
use crate::pattern::{first_captures, regex_first_captures};
use crate::text::{
    chars_of, lemma_trim_idempotent, parse_i32, parse_i32_spec, parse_u32, parse_u32_spec,
    string_from_chars, trim, trim_chars,
};
use std::collections::HashSet;
use vstd::prelude::*;

verus! {

broadcast use vstd::std_specs::hash::group_hash_axioms;

/// A date written `dd.mm.yyyy`.
pub const DATE_PATTERN: &'static str = r"(\d{2})\.(\d{2})\.(\d{4})";

/// Capture group `i`, `None` when the match has no such group or it did not
/// take part.
pub open spec fn capture_group(groups: Seq<Option<Seq<char>>>, i: int) -> Option<Seq<char>> {
    if 0 <= i < groups.len() {
        groups[i]
    } else {
        None
    }
}

/// The date spelled by the groups day, month, year of a match of
/// `DATE_PATTERN`, when the numbers parse and the day exists.
pub open spec fn date_from_groups(caps: Option<Seq<Option<Seq<char>>>>) -> Option<CalendarDate> {
    match caps {
        Some(g) => if capture_group(g, 1) is Some && capture_group(g, 2) is Some
            && capture_group(g, 3) is Some {
            let day = parse_u32_spec(capture_group(g, 1)->0);
            let month = parse_u32_spec(capture_group(g, 2)->0);
            let year = parse_i32_spec(capture_group(g, 3)->0);
            if day is Some && month is Some && year is Some && is_valid_date(
                year->0,
                month->0,
                day->0,
            ) {
                Some(CalendarDate { year: year->0, month: month->0, day: day->0 })
            } else {
                None
            }
        } else {
            None
        },
        None => None,
    }
}

/// The first `dd.mm.yyyy` date written in `text`, when it exists.
pub open spec fn first_date(text: Seq<char>) -> Option<CalendarDate> {
    date_from_groups(regex_first_captures(DATE_PATTERN@, text))
}

/// Reads capture group `i` of `groups`.
fn group_chars(groups: &Vec<Option<String>>, i: usize) -> (r: Option<Vec<char>>)
    ensures
        r matches Some(v) ==> capture_group(groups.deep_view(), i as int) == Some(v@),
        r is None ==> capture_group(groups.deep_view(), i as int) is None,
{
    if i < groups.len() {
        match &groups[i] {
            Some(v) => Some(chars_of(v.as_str())),
            None => None,
        }
    } else {
        None
    }
}

/// The date spelled by day, month and year groups of a match.
pub fn date_from_captures(caps: &Option<Vec<Option<String>>>) -> (r: Option<CalendarDate>)
    ensures
        r == date_from_groups(caps.deep_view()),
{
    match caps {
        Some(g) => {
            let d = group_chars(g, 1);
            let m = group_chars(g, 2);
            let y = group_chars(g, 3);
            match (d, m, y) {
                (Some(d), Some(m), Some(y)) => {
                    let day = parse_u32(&d);
                    let month = parse_u32(&m);
                    let year = parse_i32(&y);
                    match (day, month, year) {
                        (Some(day), Some(month), Some(year)) => date_from_ymd(year, month, day),
                        _ => None,
                    }
                },
                _ => None,
            }
        },
        None => None,
    }
}

/// The first `dd.mm.yyyy` date in `text`.
pub fn extract_first_date(text: &str) -> (r: Option<CalendarDate>)
    ensures
        r == first_date(text@),
{
    let caps = first_captures(DATE_PATTERN, text);
    date_from_captures(&caps)
}


/// One title row of a promotion's titles page.
#[derive(Debug, Clone)]
pub struct ScrapedTitle {
    pub cagematch_id: i32,
    pub name: String,
    pub is_active: bool,
    pub champion_display: Option<String>,
    pub champion_cagematch_id: Option<i32>,
    pub since_date: Option<CalendarDate>,
}

/// `ScrapedTitle` as plain values.
pub struct ScrapedTitleView {
    pub cagematch_id: i32,
    pub name: Seq<char>,
    pub is_active: bool,
    pub champion_display: Option<Seq<char>>,
    pub champion_cagematch_id: Option<i32>,
    pub since_date: Option<CalendarDate>,
}

impl DeepView for ScrapedTitle {
    type V = ScrapedTitleView;

    open spec fn deep_view(&self) -> ScrapedTitleView {
        ScrapedTitleView {
            cagematch_id: self.cagematch_id,
            name: self.name@,
            is_active: self.is_active,
            champion_display: self.champion_display.deep_view(),
            champion_cagematch_id: self.champion_cagematch_id,
            since_date: self.since_date,
        }
    }
}

/// The `href` of a link, empty when it has none.
pub open spec fn link_href(link: MemberView) -> Seq<char> {
    match link.0 {
        Some(h) => h,
        None => Seq::empty(),
    }
}

/// The title link and the champion link of a row: the first link with text
/// that points to a title (`?id=5&nr=`), and the first other link with text
/// that points to a wrestler (`?id=2&nr=`), each as (number, trimmed text).
pub open spec fn row_links(links: Seq<MemberView>) -> (
    Option<(i32, Seq<char>)>,
    Option<(i32, Seq<char>)>,
)
    decreases links.len(),
{
    if links.len() == 0 {
        (None, None)
    } else {
        let prior = row_links(links.drop_last());
        let href = link_href(links.last());
        let text = trim(links.last().1);
        if text.len() == 0 {
            prior
        } else if cagematch_nr(href, 5) is Some && prior.0 is None {
            (Some((cagematch_nr(href, 5)->0, text)), prior.1)
        } else if cagematch_nr(href, 2) is Some && prior.1 is None {
            (prior.0, Some((cagematch_nr(href, 2)->0, text)))
        } else {
            prior
        }
    }
}

/// `link` has non-blank text and points to an entity of kind `entity_id`.
pub open spec fn is_link_to(link: MemberView, entity_id: i32) -> bool {
    trim(link.1).len() > 0 && cagematch_nr(link_href(link), entity_id) is Some
}

/// Link `k` of `links` is the title link of its row: the first link with
/// text that points to a title.
pub open spec fn is_title_link(links: Seq<MemberView>, k: int) -> bool {
    is_link_to(links[k], 5) && forall|j: int| 0 <= j < k ==> !is_link_to(#[trigger] links[j], 5)
}

/// Link `k` of `links` may name the champion: it has text, points to a
/// wrestler, and is not the title link.
pub open spec fn is_champion_link(links: Seq<MemberView>, k: int) -> bool {
    is_link_to(links[k], 2) && !is_title_link(links, k)
}

/// The links a row's title and champion are read from: the title is the
/// first link with text to a title (none when no link is one); the champion
/// is the first other link with text to a wrestler, whatever links stand
/// before it, and there is none only when the row has no such link.
pub proof fn law_row_links(links: Seq<MemberView>)
    ensures
        row_links(links).0 is None <==> forall|k: int|
            0 <= k < links.len() ==> !is_link_to(#[trigger] links[k], 5),
        row_links(links).0 matches Some(t) ==> exists|k: int|
            0 <= k < links.len() && #[trigger] is_title_link(links, k) && t == (
                cagematch_nr(link_href(links[k]), 5)->0,
                trim(links[k].1),
            ),
        row_links(links).1 is None <==> forall|k: int|
            0 <= k < links.len() ==> !#[trigger] is_champion_link(links, k),
        row_links(links).1 matches Some(c) ==> exists|k: int|
            0 <= k < links.len() && #[trigger] is_champion_link(links, k) && (forall|j: int|
                0 <= j < k ==> !#[trigger] is_champion_link(links, j)) && c == (
                cagematch_nr(link_href(links[k]), 2)->0,
                trim(links[k].1),
            ),
    decreases links.len(),
{
    if links.len() > 0 {
        let p = links.drop_last();
        let n = links.len() - 1;
        let l = links[n];
        law_row_links(p);
        let prior = row_links(p);
        assert(l == links.last());
        assert forall|k: int| 0 <= k < n implies links[k] == p[k] by {}
        assert forall|k: int| 0 <= k < n implies #[trigger] is_title_link(links, k)
            == is_title_link(p, k) by {
            assert forall|j: int| 0 <= j < k implies links[j] == p[j] by {}
        }
        assert forall|k: int| 0 <= k < n implies #[trigger] is_champion_link(links, k)
            == is_champion_link(p, k) by {
            assert(is_title_link(links, k) == is_title_link(p, k));
        }
        assert(is_title_link(links, n) <==> is_link_to(l, 5) && prior.0 is None) by {
            if prior.0 is None {
                assert forall|j: int| 0 <= j < n implies !is_link_to(#[trigger] links[j], 5) by {
                    assert(links[j] == p[j]);
                }
            } else {
                let t = choose|t: int| 0 <= t < p.len() && #[trigger] is_title_link(p, t);
                assert(links[t] == p[t]);
                assert(is_link_to(links[t], 5));
            }
        }
        let r = row_links(links);
        if r.0 is None {
            assert forall|k: int| 0 <= k < links.len() implies !is_link_to(
                #[trigger] links[k],
                5,
            ) by {
                if k < n {
                    assert(links[k] == p[k]);
                }
            }
        }
        if r.0 is Some && prior.0 is Some {
            assert(r.0 == prior.0);
            let t = choose|t: int|
                0 <= t < p.len() && #[trigger] is_title_link(p, t) && prior.0->0 == (
                    cagematch_nr(link_href(p[t]), 5)->0,
                    trim(p[t].1),
                );
            assert(is_title_link(links, t));
        }
        if r.0 is Some && prior.0 is None {
            assert(is_title_link(links, n));
        }
        if r.1 is None {
            assert forall|k: int| 0 <= k < links.len() implies !#[trigger] is_champion_link(
                links,
                k,
            ) by {
                if k < n {
                    assert(is_champion_link(links, k) == is_champion_link(p, k));
                }
            }
        }
        if r.1 is Some && prior.1 is Some {
            assert(r.1 == prior.1);
            let c = choose|c: int|
                0 <= c < p.len() && #[trigger] is_champion_link(p, c) && (forall|j: int|
                    0 <= j < c ==> !#[trigger] is_champion_link(p, j)) && prior.1->0 == (
                    cagematch_nr(link_href(p[c]), 2)->0,
                    trim(p[c].1),
                );
            assert(is_champion_link(links, c));
            assert forall|j: int| 0 <= j < c implies !#[trigger] is_champion_link(links, j) by {
                assert(is_champion_link(links, j) == is_champion_link(p, j));
            }
        }
        if r.1 is Some && prior.1 is None {
            assert(is_champion_link(links, n));
            assert forall|j: int| 0 <= j < n implies !#[trigger] is_champion_link(links, j) by {
                assert(is_champion_link(links, j) == is_champion_link(p, j));
            }
        }
    }
}

/// Some title in `titles` has number `id`.
pub open spec fn has_title_id(titles: Seq<ScrapedTitleView>, id: i32) -> bool {
    exists|k: int| 0 <= k < titles.len() && #[trigger] titles[k].cagematch_id == id
}

/// The title that a row with text `text` and links `links` describes.
pub open spec fn row_title(text: Seq<char>, links: Seq<MemberView>) -> Option<ScrapedTitleView> {
    let (title, champion) = row_links(links);
    match title {
        Some(t) => Some(
            ScrapedTitleView {
                cagematch_id: t.0,
                name: t.1,
                is_active: true,
                champion_display: match champion {
                    Some(c) => Some(c.1),
                    None => None,
                },
                champion_cagematch_id: match champion {
                    Some(c) => Some(c.0),
                    None => None,
                },
                since_date: first_date(text),
            },
        ),
        None => None,
    }
}

/// The titles of the table rows `rows`, in order: rows without a title link
/// are skipped, and so is a row whose title number an earlier row has.
pub open spec fn titles_from_groups(rows: Seq<GroupView>) -> Seq<ScrapedTitleView>
    decreases rows.len(),
{
    if rows.len() == 0 {
        Seq::empty()
    } else {
        let prior = titles_from_groups(rows.drop_last());
        match row_title(rows.last().0, rows.last().1) {
            Some(t) => if has_title_id(prior, t.cagematch_id) {
                prior
            } else {
                prior.push(t)
            },
            None => prior,
        }
    }
}

/// The titles listed on the titles page `html`.
pub open spec fn titles_listing(html: Seq<char>) -> Seq<ScrapedTitleView> {
    match html_select_groups(html, "tr"@, "a"@, "href"@) {
        Some(rows) => titles_from_groups(rows),
        None => Seq::empty(),
    }
}

/// Titles as the titles page gives them: no number twice, each active and
/// named with trimmed text, and a champion either with both a trimmed name
/// and a number or with neither.
pub open spec fn titles_well_formed(titles: Seq<ScrapedTitleView>) -> bool {
    &&& forall|i: int, j: int|
        0 <= i < j < titles.len() ==> #[trigger] titles[i].cagematch_id
            != #[trigger] titles[j].cagematch_id
    &&& forall|i: int|
        0 <= i < titles.len() ==> {
            &&& #[trigger] titles[i].is_active
            &&& titles[i].name.len() > 0
            &&& trim(titles[i].name) == titles[i].name
            &&& (titles[i].champion_display matches Some(c) ==> c.len() > 0 && trim(c) == c)
            &&& (titles[i].champion_display is None <==> titles[i].champion_cagematch_id is None)
        }
}

/// The links picked in a row carry trimmed, non-empty text.
proof fn lemma_row_links_named(links: Seq<MemberView>)
    ensures
        row_links(links).0 matches Some(t) ==> t.1.len() > 0 && trim(t.1) == t.1,
        row_links(links).1 matches Some(c) ==> c.1.len() > 0 && trim(c.1) == c.1,
    decreases links.len(),
{
    if links.len() > 0 {
        lemma_row_links_named(links.drop_last());
        lemma_trim_idempotent(links.last().1);
    }
}

/// The titles read from any table rows are well formed: no title number
/// appears twice, every title is active and has a trimmed, non-empty name,
/// and a champion has a (trimmed, non-empty) name exactly when it has a
/// number.
pub proof fn law_titles_well_formed(rows: Seq<GroupView>)
    ensures
        titles_well_formed(titles_from_groups(rows)),
    decreases rows.len(),
{
    if rows.len() > 0 {
        law_titles_well_formed(rows.drop_last());
        lemma_row_links_named(rows.last().1);
        let prior = titles_from_groups(rows.drop_last());
        let ts = titles_from_groups(rows);
        let lt = row_title(rows.last().0, rows.last().1);
        if lt is Some && !has_title_id(prior, lt->0.cagematch_id) {
            let t = lt->0;
            assert(ts == prior.push(t));
            assert(t.is_active);
            assert(t.name.len() > 0 && trim(t.name) == t.name);
            assert(t.champion_display is None <==> t.champion_cagematch_id is None);
            assert forall|i: int| 0 <= i < ts.len() implies {
                &&& #[trigger] ts[i].is_active
                &&& ts[i].name.len() > 0
                &&& trim(ts[i].name) == ts[i].name
                &&& (ts[i].champion_display matches Some(c) ==> c.len() > 0 && trim(c) == c)
                &&& (ts[i].champion_display is None <==> ts[i].champion_cagematch_id is None)
            } by {
                if i < prior.len() {
                    assert(ts[i] == prior[i]);
                } else {
                    assert(ts[i] == t);
                }
            }
            assert forall|i: int, j: int|
                0 <= i < j < ts.len() implies #[trigger] ts[i].cagematch_id
                != #[trigger] ts[j].cagematch_id by {
                assert(ts[i] == prior[i]);
                if j == prior.len() {
                    assert(ts[j] == t);
                    if ts[i].cagematch_id == t.cagematch_id {
                        assert(has_title_id(prior, t.cagematch_id));
                    }
                } else {
                    assert(ts[j] == prior[j]);
                }
            }
        } else {
            assert(ts == prior);
        }
    }
}

/// The title that row `i` of `rows` describes.
pub open spec fn title_of_row(rows: Seq<GroupView>, i: int) -> Option<ScrapedTitleView> {
    row_title(rows[i].0, rows[i].1)
}

/// Row `i` of `rows` describes a title with number `id`.
pub open spec fn row_has_title(rows: Seq<GroupView>, i: int, id: i32) -> bool {
    title_of_row(rows, i) is Some && title_of_row(rows, i)->0.cagematch_id == id
}

/// The index of the first row of `rows` that describes a title with number
/// `id`, or -1 when no row does.
pub open spec fn first_title_row(rows: Seq<GroupView>, id: i32) -> int
    decreases rows.len(),
{
    if rows.len() == 0 {
        -1
    } else if first_title_row(rows.drop_last(), id) >= 0 {
        first_title_row(rows.drop_last(), id)
    } else if row_title(rows.last().0, rows.last().1) is Some && row_title(
        rows.last().0,
        rows.last().1,
    )->0.cagematch_id == id {
        rows.len() - 1
    } else {
        -1
    }
}

/// The titles read from table rows follow the rows: a number is listed
/// exactly when some row describes a title with it; each listed title is the
/// title (number, name, champion and date) of the first row with its number,
/// no earlier row has that number; and the titles come in the order of those
/// rows.
pub proof fn law_titles_follow_rows(rows: Seq<GroupView>)
    ensures
        forall|id: i32|
            -1 <= #[trigger] first_title_row(rows, id) < rows.len() && (first_title_row(rows, id)
                >= 0 <==> has_title_id(titles_from_groups(rows), id)),
        forall|id: i32, i: int|
            0 <= i < rows.len() && #[trigger] row_has_title(rows, i, id) ==> 0 <= first_title_row(
                rows,
                id,
            ) <= i,
        forall|k: int|
            0 <= k < titles_from_groups(rows).len() ==> title_of_row(
                rows,
                first_title_row(rows, (#[trigger] titles_from_groups(rows)[k]).cagematch_id),
            ) == Some(titles_from_groups(rows)[k]),
        forall|k1: int, k2: int|
            0 <= k1 < k2 < titles_from_groups(rows).len() ==> first_title_row(
                rows,
                (#[trigger] titles_from_groups(rows)[k1]).cagematch_id,
            ) < first_title_row(rows, (#[trigger] titles_from_groups(rows)[k2]).cagematch_id),
    decreases rows.len(),
{
    if rows.len() > 0 {
        let pr = rows.drop_last();
        let n = rows.len() - 1;
        law_titles_follow_rows(pr);
        let p = titles_from_groups(pr);
        let ts = titles_from_groups(rows);
        let lt = row_title(rows.last().0, rows.last().1);
        assert(title_of_row(rows, n) == lt);
        assert forall|i: int| 0 <= i < n implies #[trigger] title_of_row(rows, i) == title_of_row(
            pr,
            i,
        ) by {
            assert(rows[i] == pr[i]);
        }
        let pushed = lt is Some && !has_title_id(p, lt->0.cagematch_id);
        if pushed {
            assert(ts == p.push(lt->0));
        } else {
            assert(ts == p);
        }
        assert forall|k: int| 0 <= k < p.len() implies ts[k] == p[k] by {}
        assert forall|id: i32|
            -1 <= #[trigger] first_title_row(rows, id) < rows.len() && (first_title_row(rows, id)
                >= 0 <==> has_title_id(ts, id)) by {
            let f0 = first_title_row(pr, id);
            assert(-1 <= f0 < pr.len() && (f0 >= 0 <==> has_title_id(p, id)));
            if has_title_id(p, id) {
                let k = choose|k: int| 0 <= k < p.len() && #[trigger] p[k].cagematch_id == id;
                assert(ts[k].cagematch_id == id);
            }
            if has_title_id(ts, id) && !has_title_id(p, id) {
                let k = choose|k: int| 0 <= k < ts.len() && #[trigger] ts[k].cagematch_id == id;
                if k < p.len() {
                    assert(p[k].cagematch_id == id);
                }
                assert(pushed && k == p.len());
            }
            if f0 < 0 && lt is Some && lt->0.cagematch_id == id && !pushed {
                assert(has_title_id(p, id));
            }
            if f0 < 0 && lt is Some && lt->0.cagematch_id == id && pushed {
                assert(ts[p.len() as int].cagematch_id == id);
            }
        }
        assert forall|id: i32, i: int|
            0 <= i < rows.len() && #[trigger] row_has_title(rows, i, id) implies 0
            <= first_title_row(rows, id) <= i by {
            if i < n {
                assert(row_has_title(pr, i, id));
            }
        }
        assert forall|k: int| 0 <= k < ts.len() implies title_of_row(
            rows,
            first_title_row(rows, (#[trigger] ts[k]).cagematch_id),
        ) == Some(ts[k]) by {
            let id = ts[k].cagematch_id;
            if k < p.len() {
                assert(p[k].cagematch_id == id);
                assert(has_title_id(p, id));
                assert(first_title_row(pr, id) >= 0);
                assert(first_title_row(rows, id) == first_title_row(pr, id));
                assert(title_of_row(pr, first_title_row(pr, (p[k]).cagematch_id)) == Some(p[k]));
            } else {
                assert(pushed);
                if first_title_row(pr, id) >= 0 {
                    assert(has_title_id(p, id));
                }
                assert(first_title_row(rows, id) == n);
            }
        }
        assert forall|k1: int, k2: int| 0 <= k1 < k2 < ts.len() implies first_title_row(
            rows,
            (#[trigger] ts[k1]).cagematch_id,
        ) < first_title_row(rows, (#[trigger] ts[k2]).cagematch_id) by {
            let id1 = ts[k1].cagematch_id;
            let id2 = ts[k2].cagematch_id;
            assert(p[k1].cagematch_id == id1);
            assert(has_title_id(p, id1));
            assert(first_title_row(pr, id1) >= 0);
            assert(first_title_row(rows, id1) == first_title_row(pr, id1));
            assert(first_title_row(pr, id1) < pr.len());
            if k2 < p.len() {
                assert(p[k2].cagematch_id == id2);
                assert(has_title_id(p, id2));
                assert(first_title_row(rows, id2) == first_title_row(pr, id2));
                assert(first_title_row(pr, (p[k1]).cagematch_id) < first_title_row(
                    pr,
                    (p[k2]).cagematch_id,
                ));
            } else {
                assert(pushed);
                if first_title_row(pr, id2) >= 0 {
                    assert(has_title_id(p, id2));
                }
                assert(first_title_row(rows, id2) == n);
            }
        }
    }
}

/// Picks the title link and the champion link among the links of a row.
pub fn links_of_row(links: &Vec<MemberElement>) -> (r: (Option<(i32, String)>, Option<(i32, String)>))
    ensures
        (r.0.deep_view(), r.1.deep_view()) == row_links(links.deep_view()),
{
    let ghost all = links.deep_view();
    let mut title: Option<(i32, String)> = None;
    let mut champion: Option<(i32, String)> = None;
    let mut j: usize = 0;
    assert(all.take(0) == Seq::<MemberView>::empty());
    while j < links.len()
        invariant
            j <= links@.len(),
            all == links.deep_view(),
            (title.deep_view(), champion.deep_view()) == row_links(all.take(j as int)),
        decreases links@.len() - j,
    {
        let link = &links[j];
        assert(all.take(j + 1).drop_last() == all.take(j as int));
        assert(all.take(j + 1).last() == link.deep_view());
        let href: &str = match &link.attr {
            Some(h) => h.as_str(),
            None => "",
        };
        proof {
            reveal_strlit("");
            assert(href@ == link_href(link.deep_view()));
        }
        let text = trim_chars(&chars_of(link.text.as_str()));
        if text.len() > 0 {
            let as_title = extract_cagematch_nr(href, 5);
            let as_champion = extract_cagematch_nr(href, 2);
            if as_title.is_some() && title.is_none() {
                title = Some((as_title.unwrap(), string_from_chars(&text)));
            } else if as_champion.is_some() && champion.is_none() {
                champion = Some((as_champion.unwrap(), string_from_chars(&text)));
            }
        }
        j = j + 1;
    }
    assert(all.take(j as int) == all);
    (title, champion)
}

/// The titles of table rows, first row first; rows without a title link, and
/// rows repeating a title already listed, are left out.
pub fn titles_from_rows(rows: &Vec<ElementGroup>) -> (r: Vec<ScrapedTitle>)
    ensures
        r.deep_view() == titles_from_groups(rows.deep_view()),
{
    let ghost all = rows.deep_view();
    let mut titles: Vec<ScrapedTitle> = Vec::new();
    let mut seen: HashSet<i32> = HashSet::new();
    let mut i: usize = 0;
    assert(all.take(0) == Seq::<GroupView>::empty());
    assert(titles.deep_view() == Seq::<ScrapedTitleView>::empty());
    while i < rows.len()
        invariant
            i <= rows@.len(),
            all == rows.deep_view(),
            titles.deep_view() == titles_from_groups(all.take(i as int)),
            forall|id: i32| seen@.contains(id) <==> has_title_id(titles.deep_view(), id),
        decreases rows@.len() - i,
    {
        let row = &rows[i];
        assert(all.take(i + 1).drop_last() == all.take(i as int));
        assert(all.take(i + 1).last() == row.deep_view());
        let (title, champion) = links_of_row(&row.members);
        if let Some((id, name)) = title {
            if seen.insert(id) {
                let (champion_display, champion_cagematch_id) = match champion {
                    Some((cid, cname)) => (Some(cname), Some(cid)),
                    None => (None, None),
                };
                let t = ScrapedTitle {
                    cagematch_id: id,
                    name,
                    is_active: true,
                    champion_display,
                    champion_cagematch_id,
                    since_date: extract_first_date(row.text.as_str()),
                };
                let ghost before = titles.deep_view();
                titles.push(t);
                assert(titles.deep_view() == before.push(t.deep_view()));
                assert forall|x: i32| seen@.contains(x) <==> has_title_id(titles.deep_view(), x) by {
                    if x == id {
                        assert(titles.deep_view()[before.len() as int].cagematch_id == id);
                    }
                    if has_title_id(titles.deep_view(), x) && x != id {
                        let k = choose|k: int|
                            0 <= k < titles.deep_view().len() && #[trigger] titles.deep_view()[k].cagematch_id
                                == x;
                        assert(before[k].cagematch_id == x);
                    }
                    if has_title_id(before, x) {
                        let k = choose|k: int|
                            0 <= k < before.len() && #[trigger] before[k].cagematch_id == x;
                        assert(titles.deep_view()[k].cagematch_id == x);
                    }
                }
            }
        }
        i = i + 1;
    }
    assert(all.take(i as int) == all);
    titles
}

/// Parses the titles page into one `ScrapedTitle` per title row. Rows
/// missing a title link are skipped; rows missing a champion link are kept
/// with `champion_display = None` (vacant or undecided titles).
pub fn parse_titles_listing(html: &str) -> (r: Vec<ScrapedTitle>)
    ensures
        r.deep_view() == titles_listing(html@),
        titles_well_formed(r.deep_view()),
{
    proof {
        if let Some(rows) = html_select_groups(html@, "tr"@, "a"@, "href"@) {
            law_titles_well_formed(rows);
        }
    }
    match select_groups(html, "tr", "a", "href") {
        Some(rows) => titles_from_rows(&rows),
        None => Vec::new(),
    }
}

} // verus!
