//! Reading cagematch.net: the addresses of its pages, what counts as a
//! usable response, and what a promotion page and a titles page say.

pub mod client;
pub mod promotion_page;
pub mod titles_page;

pub use client::{
    check_body, check_status, check_validation_status, extract_cagematch_nr, promotion_url_spec, title_url_spec,
    titles_url_spec, CagematchClient, BASE_URL, SOFT_404_MARKER,
};
pub use promotion_page::{
    extract_labeled_value, extract_logo_url, extract_name_and_abbrev_from_title,
    labeled_value_from_captures, logo_url_from_sources, parse_promotion_metadata,
    split_page_title, MetadataView, PromotionMetadata,
};
pub use titles_page::{
    date_from_captures, extract_first_date, parse_titles_listing, titles_from_rows,
    ScrapedTitle, ScrapedTitleView,
};
