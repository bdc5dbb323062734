//! The decisions of a scrape run: what a scrape writes into a promotion and
//! its titles, how the run is counted and logged, and what is reported back.

use uuid::Uuid;
use vstd::prelude::*;
use crate::calendar::CalendarDate;
use crate::cagematch::{
    title_url_spec, CagematchClient, MetadataView, PromotionMetadata, ScrapedTitle,
};

verus! {

/// The identifier type of the database rows (`uuid::Uuid`), carried through
/// unread.
#[verifier::external_type_specification]
#[verifier::external_body]
pub struct ExUuid(Uuid);

/// What a successful scrape of one promotion did.
pub struct ScrapeSummary {
    pub promotion_id: Uuid,
    pub titles_created: i32,
    pub titles_updated: i32,
}

/// What the API reports of the scrape of one promotion.
pub struct ScrapeResult {
    pub promotion_id: Uuid,
    pub titles_created: i32,
    pub titles_updated: i32,
    pub error: Option<String>,
}

/// The report of the scrape of promotion `requested` that ended in `outcome`.
pub open spec fn scrape_report(
    requested: Uuid,
    outcome: Result<ScrapeSummary, String>,
) -> (Uuid, i32, i32, Option<Seq<char>>) {
    match outcome {
        Ok(s) => (s.promotion_id, s.titles_created, s.titles_updated, None),
        Err(e) => (requested, 0, 0, Some(e@)),
    }
}

impl ScrapeResult {
    /// The report fields as plain values.
    pub open spec fn report(&self) -> (Uuid, i32, i32, Option<Seq<char>>) {
        (self.promotion_id, self.titles_created, self.titles_updated, self.error.deep_view())
    }

    /// The report of the scrape of promotion `requested`: the counts of a
    /// success, or zero counts and the error of a failure.
    pub fn from_outcome(requested: Uuid, outcome: Result<ScrapeSummary, String>) -> (r: Self)
        ensures
            r.report() == scrape_report(requested, outcome),
    {
        match outcome {
            Ok(summary) => ScrapeResult {
                promotion_id: summary.promotion_id,
                titles_created: summary.titles_created,
                titles_updated: summary.titles_updated,
                error: None,
            },
            Err(e) => ScrapeResult {
                promotion_id: requested,
                titles_created: 0,
                titles_updated: 0,
                error: Some(e),
            },
        }
    }
}

/// The reports of scraping the promotions `ids` in turn, whose outcomes are
/// `outcomes`: one report per promotion, in order, whether its scrape failed
/// or not.
pub fn collect_scrape_results(ids: &Vec<Uuid>, outcomes: Vec<Result<ScrapeSummary, String>>) -> (r:
    Vec<ScrapeResult>)
    requires
        ids@.len() == outcomes@.len(),
    ensures
        r@.len() == ids@.len(),
        forall|i: int|
            0 <= i < ids@.len() ==> #[trigger] r@[i].report() == scrape_report(
                ids@[i],
                outcomes@[i],
            ),
{
    let ghost all = outcomes@;
    let mut out: Vec<ScrapeResult> = Vec::new();
    let mut rest = outcomes;
    let mut i: usize = 0;
    while i < ids.len()
        invariant
            i <= ids@.len() == all.len(),
            rest@ == all.skip(i as int),
            out@.len() == i,
            forall|k: int|
                0 <= k < i ==> #[trigger] out@[k].report() == scrape_report(ids@[k], all[k]),
        decreases ids@.len() - i,
    {
        let outcome = rest.remove(0);
        assert(outcome == all[i as int]);
        assert(rest@ == all.skip(i + 1));
        out.push(ScrapeResult::from_outcome(ids[i], outcome));
        i = i + 1;
    }
    out
}


/// `new` where it says something, `current` where it does not.
pub open spec fn overlay(current: Option<Seq<char>>, new: Option<Seq<char>>) -> Option<Seq<char>> {
    match new {
        Some(v) => Some(v),
        None => current,
    }
}

/// The metadata a promotion keeps after a scrape found `scraped`: each field
/// the page gave replaces the stored one, the others stay.
pub open spec fn merged_metadata(current: MetadataView, scraped: MetadataView) -> MetadataView {
    MetadataView {
        canonical_name: overlay(current.canonical_name, scraped.canonical_name),
        abbreviation: overlay(current.abbreviation, scraped.abbreviation),
        country: overlay(current.country, scraped.country),
        logo_url: overlay(current.logo_url, scraped.logo_url),
    }
}

/// Metadata that says nothing.
pub open spec fn empty_metadata() -> MetadataView {
    MetadataView { canonical_name: None, abbreviation: None, country: None, logo_url: None }
}

/// Merging the same scrape twice changes nothing more than merging it once.
pub proof fn law_merge_idempotent(current: MetadataView, scraped: MetadataView)
    ensures
        merged_metadata(merged_metadata(current, scraped), scraped) == merged_metadata(
            current,
            scraped,
        ),
{
}

/// A scrape that found nothing leaves the stored metadata as it was.
pub proof fn law_merge_nothing_found(current: MetadataView)
    ensures
        merged_metadata(current, empty_metadata()) == current,
{
}

/// Field by field, a merge takes what the scrape found and otherwise keeps
/// exactly the stored value, whatever the other fields hold.
pub proof fn law_merge_fieldwise(current: MetadataView, scraped: MetadataView)
    ensures
        ({
            let m = merged_metadata(current, scraped);
            &&& m.canonical_name == (if scraped.canonical_name is Some {
                scraped.canonical_name
            } else {
                current.canonical_name
            })
            &&& m.abbreviation == (if scraped.abbreviation is Some {
                scraped.abbreviation
            } else {
                current.abbreviation
            })
            &&& m.country == (if scraped.country is Some {
                scraped.country
            } else {
                current.country
            })
            &&& m.logo_url == (if scraped.logo_url is Some {
                scraped.logo_url
            } else {
                current.logo_url
            })
        }),
{
}

/// After a merge, every field the scrape found holds the scraped value, and
/// every field that was known before is still known.
pub proof fn law_merge_keeps_known(current: MetadataView, scraped: MetadataView)
    ensures
        ({
            let m = merged_metadata(current, scraped);
            &&& scraped.canonical_name is Some ==> m.canonical_name == scraped.canonical_name
            &&& scraped.abbreviation is Some ==> m.abbreviation == scraped.abbreviation
            &&& scraped.country is Some ==> m.country == scraped.country
            &&& scraped.logo_url is Some ==> m.logo_url == scraped.logo_url
            &&& current.canonical_name is Some ==> m.canonical_name is Some
            &&& current.abbreviation is Some ==> m.abbreviation is Some
            &&& current.country is Some ==> m.country is Some
            &&& current.logo_url is Some ==> m.logo_url is Some
        }),
{
}

/// Keeps `current` where `new` is `None`.
fn overlay_field(current: Option<String>, new: Option<String>) -> (r: Option<String>)
    ensures
        r.deep_view() == overlay(current.deep_view(), new.deep_view()),
{
    match new {
        Some(v) => Some(v),
        None => current,
    }
}

/// The metadata a promotion keeps after a scrape that found `scraped`.
pub fn merge_metadata(current: PromotionMetadata, scraped: PromotionMetadata) -> (r:
    PromotionMetadata)
    ensures
        r.deep_view() == merged_metadata(current.deep_view(), scraped.deep_view()),
        r.canonical_name.deep_view() == (if scraped.canonical_name is Some {
            scraped.canonical_name.deep_view()
        } else {
            current.canonical_name.deep_view()
        }),
        r.abbreviation.deep_view() == (if scraped.abbreviation is Some {
            scraped.abbreviation.deep_view()
        } else {
            current.abbreviation.deep_view()
        }),
        r.country.deep_view() == (if scraped.country is Some {
            scraped.country.deep_view()
        } else {
            current.country.deep_view()
        }),
        r.logo_url.deep_view() == (if scraped.logo_url is Some {
            scraped.logo_url.deep_view()
        } else {
            current.logo_url.deep_view()
        }),
{
    PromotionMetadata {
        canonical_name: overlay_field(current.canonical_name, scraped.canonical_name),
        abbreviation: overlay_field(current.abbreviation, scraped.abbreviation),
        country: overlay_field(current.country, scraped.country),
        logo_url: overlay_field(current.logo_url, scraped.logo_url),
    }
}

/// What a scrape writes into a title row.
pub struct TitleFields {
    pub cagematch_id: i32,
    pub name: String,
    pub is_active: bool,
    pub cagematch_url: Option<String>,
    pub current_champion_display: Option<String>,
    pub current_champion_cagematch_id: Option<i32>,
    pub current_since_date: Option<CalendarDate>,
}

/// The fields of the title row for the scraped title `scraped`: its page
/// data, and the address of its page.
pub fn title_fields(client: &CagematchClient, scraped: ScrapedTitle) -> (r: TitleFields)
    ensures
        r.cagematch_id == scraped.cagematch_id,
        r.name@ == scraped.name@,
        r.is_active == scraped.is_active,
        r.cagematch_url.deep_view() == Some(title_url_spec(client.base_url@, scraped.cagematch_id)),
        r.current_champion_display.deep_view() == scraped.champion_display.deep_view(),
        r.current_champion_cagematch_id == scraped.champion_cagematch_id,
        r.current_since_date == scraped.since_date,
{
    let url = client.title_url(scraped.cagematch_id);
    TitleFields {
        cagematch_id: scraped.cagematch_id,
        name: scraped.name,
        is_active: scraped.is_active,
        cagematch_url: Some(url),
        current_champion_display: scraped.champion_display,
        current_champion_cagematch_id: scraped.champion_cagematch_id,
        current_since_date: scraped.since_date,
    }
}

/// The count of title rows a scrape created and updated.
pub struct ScrapeTally {
    pub created: i32,
    pub updated: i32,
}

impl ScrapeTally {
    /// Nothing counted yet.
    pub fn new() -> (r: Self)
        ensures
            r.created == 0,
            r.updated == 0,
    {
        ScrapeTally { created: 0, updated: 0 }
    }

    /// Counts one title: an update when its row existed, a creation otherwise.
    pub fn record(&mut self, existed: bool)
        requires
            existed ==> old(self).updated < i32::MAX,
            !existed ==> old(self).created < i32::MAX,
        ensures
            existed ==> final(self).updated == old(self).updated + 1 && final(self).created == old(
                self,
            ).created,
            !existed ==> final(self).created == old(self).created + 1 && final(self).updated
                == old(self).updated,
    {
        if existed {
            self.updated = self.updated + 1;
        } else {
            self.created = self.created + 1;
        }
    }

    /// The summary of the scrape of promotion `promotion_id`.
    pub fn summary(&self, promotion_id: Uuid) -> (r: ScrapeSummary)
        ensures
            r.promotion_id == promotion_id,
            r.titles_created == self.created,
            r.titles_updated == self.updated,
    {
        ScrapeSummary { promotion_id, titles_created: self.created, titles_updated: self.updated }
    }
}

/// How many of `flags` equal `value`.
pub open spec fn count_flags(flags: Seq<bool>, value: bool) -> nat
    decreases flags.len(),
{
    if flags.len() == 0 {
        0
    } else {
        count_flags(flags.drop_last(), value) + if flags.last() == value {
            1nat
        } else {
            0nat
        }
    }
}

/// Each flag is counted once, as `true` or as `false`.
pub proof fn lemma_count_flags_total(flags: Seq<bool>)
    ensures
        count_flags(flags, true) + count_flags(flags, false) == flags.len(),
    decreases flags.len(),
{
    if flags.len() > 0 {
        lemma_count_flags_total(flags.drop_last());
    }
}

impl ScrapeTally {
    /// The tally of a scrape whose titles, in the order they were written,
    /// already had a stored row (`true`) or not (`false`): one update per
    /// stored title, one creation per new one, every title counted once.
    pub fn of_flags(existed: &Vec<bool>) -> (r: Self)
        requires
            existed@.len() <= i32::MAX,
        ensures
            r.updated == count_flags(existed@, true),
            r.created == count_flags(existed@, false),
            r.created + r.updated == existed@.len(),
    {
        let mut t = ScrapeTally::new();
        let mut i: usize = 0;
        assert(existed@.take(0) =~= Seq::<bool>::empty());
        while i < existed.len()
            invariant
                i <= existed@.len() <= i32::MAX,
                t.updated == count_flags(existed@.take(i as int), true),
                t.created == count_flags(existed@.take(i as int), false),
                t.created + t.updated == i,
            decreases existed@.len() - i,
        {
            proof {
                lemma_count_flags_total(existed@.take(i as int));
            }
            assert(existed@.take(i + 1).drop_last() =~= existed@.take(i as int));
            assert(existed@.take(i + 1).last() == existed@[i as int]);
            t.record(existed[i]);
            i = i + 1;
        }
        assert(existed@.take(i as int) =~= existed@);
        t
    }
}

/// What the sync log records of a run: the scope of a single-promotion run.
pub const SYNC_SCOPE_PROMOTION: &'static str = "promotion";

/// The state of a run in the sync log.
#[derive(Clone, Copy, Debug, PartialEq, Eq, Structural)]
pub enum SyncStatus {
    Running,
    Success,
    Error,
}

impl SyncStatus {
    /// The text the sync log stores.
    pub open spec fn text(self) -> Seq<char> {
        match self {
            SyncStatus::Running => "running"@,
            SyncStatus::Success => "success"@,
            SyncStatus::Error => "error"@,
        }
    }

    /// The text the sync log stores for this state.
    pub fn as_str(&self) -> (r: &'static str)
        ensures
            r@ == self.text(),
    {
        match self {
            SyncStatus::Running => "running",
            SyncStatus::Success => "success",
            SyncStatus::Error => "error",
        }
    }
}

/// What a sync log row says of a run.
pub struct SyncLogState {
    pub status: SyncStatus,
    pub items_created: i32,
    pub items_updated: i32,
    pub error: Option<String>,
}

impl SyncLogState {
    /// A run that has begun: running, nothing counted, no error.
    pub fn started() -> (r: Self)
        ensures
            r.status == SyncStatus::Running,
            r.items_created == 0,
            r.items_updated == 0,
            r.error is None,
    {
        SyncLogState { status: SyncStatus::Running, items_created: 0, items_updated: 0, error: None }
    }

    /// A run that ended in `outcome`: a success with its counts, or an error
    /// with its message and nothing counted.
    pub fn finished(outcome: &Result<ScrapeSummary, String>) -> (r: Self)
        ensures
            match outcome {
                Ok(s) => r.status == SyncStatus::Success && r.items_created == s.titles_created
                    && r.items_updated == s.titles_updated && r.error is None,
                Err(e) => r.status == SyncStatus::Error && r.items_created == 0 && r.items_updated
                    == 0 && r.error.deep_view() == Some(e@),
            },
    {
        match outcome {
            Ok(s) => SyncLogState {
                status: SyncStatus::Success,
                items_created: s.titles_created,
                items_updated: s.titles_updated,
                error: None,
            },
            Err(e) => SyncLogState {
                status: SyncStatus::Error,
                items_created: 0,
                items_updated: 0,
                error: Some(e.clone()),
            },
        }
    }
}

} // verus!
