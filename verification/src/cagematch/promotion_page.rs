//! Reading a promotion's main page: its name, abbreviation, location and
//! logo.

use crate::cagematch::client::BASE_URL;
use crate::html::{html_select_attrs, html_select_texts, select_attrs, select_texts};
use crate::pattern::{first_captures, regex_escape, regex_escaped, regex_first_captures};
use crate::text::{
    chars_of, contains, contains_chars, copy_range, find, find_chars, lemma_contains_iff,
    lemma_occurs_in_concat, lemma_trim_idempotent, occurs_at, push_chars, push_str, rfind,
    rfind_chars, starts_with, starts_with_chars, string_from_chars, trim, trim_chars,
};
use vstd::prelude::*;

verus! {

/// What follows a label in the pattern that finds a labeled value: a colon,
/// any tags and whitespace, then the value, which ends at the next tag, at a
/// line break, or at the end of the page.
pub const LABELED_VALUE_TAIL: &'static str = r":\s*(?:<[^>]*>\s*)*([^<\r\n]+?)\s*(?:<|\r|\n|$)";

/// The path segment that marks a promotion logo among a page's images.
pub const LOGO_PATH_MARKER: &'static str = "/site/main/img/ligen/";

/// The head of a page title: the text before the first ` « `, trimmed.
pub open spec fn title_head(raw: Seq<char>) -> Seq<char> {
    trim(
        match find(raw, " « "@) {
            Some(i) => raw.take(i),
            None => raw,
        },
    )
}

/// Name and abbreviation read from the text of a page's `<title>`:
/// `"All Elite Wrestling (AEW) « ..."` gives the name `All Elite Wrestling` and
/// the abbreviation `AEW`; a head without a trailing parenthesis is the name
/// alone; an empty head gives neither.
pub open spec fn name_and_abbrev(raw: Seq<char>) -> (Option<Seq<char>>, Option<Seq<char>>) {
    let head = title_head(raw);
    if head.len() == 0 {
        (None, None)
    } else if rfind(head, " ("@) is Some && head.last() == ')' {
        let open = rfind(head, " ("@)->0;
        let name = trim(head.take(open));
        let abbrev = trim(head.subrange(open + 2, head.len() - 1));
        if name.len() > 0 && abbrev.len() > 0 {
            (Some(name), Some(abbrev))
        } else {
            (Some(head), None)
        }
    } else {
        (Some(head), None)
    }
}

/// The text of the first `<title>` element of the page `html`.
pub open spec fn page_title_text(html: Seq<char>) -> Option<Seq<char>> {
    match html_select_texts(html, "title"@) {
        Some(texts) => if texts.len() > 0 {
            Some(texts[0])
        } else {
            None
        },
        None => None,
    }
}

/// Name and abbreviation read from the `<title>` of the page `html`.
pub open spec fn title_name_and_abbrev(html: Seq<char>) -> (Option<Seq<char>>, Option<Seq<char>>) {
    match page_title_text(html) {
        Some(raw) => name_and_abbrev(raw),
        None => (None, None),
    }
}

/// Splits the text of a page title into name and abbreviation.
pub fn split_page_title(raw: &str) -> (r: (Option<String>, Option<String>))
    ensures
        (r.0.deep_view(), r.1.deep_view()) == name_and_abbrev(raw@),
{
    let chars = chars_of(raw);
    let sep = chars_of(" « ");
    let before = match find_chars(&chars, &sep) {
        Some(i) => copy_range(&chars, 0, i),
        None => chars,
    };
    let head = trim_chars(&before);
    if head.len() == 0 {
        return (None, None);
    }
    let paren = chars_of(" (");
    let n = head.len();
    if let Some(open) = rfind_chars(&head, &paren) {
        if head[n - 1] == ')' {
            proof {
                reveal_strlit(" (");
                assert(head@.subrange(open as int, open + 2)[1] == '(');
            }
            let name = trim_chars(&copy_range(&head, 0, open));
            let abbrev = trim_chars(&copy_range(&head, open + 2, n - 1));
            if name.len() > 0 && abbrev.len() > 0 {
                return (Some(string_from_chars(&name)), Some(string_from_chars(&abbrev)));
            }
        }
    }
    (Some(string_from_chars(&head)), None)
}

/// Name and abbreviation of a promotion, read from the `<title>` of its page.
pub fn extract_name_and_abbrev_from_title(html: &str) -> (r: (Option<String>, Option<String>))
    ensures
        (r.0.deep_view(), r.1.deep_view()) == title_name_and_abbrev(html@),
{
    match select_texts(html, "title") {
        Some(texts) => {
            if texts.len() > 0 {
                split_page_title(texts[0].as_str())
            } else {
                (None, None)
            }
        },
        None => (None, None),
    }
}


/// The pattern that finds the value written after `label`.
pub open spec fn labeled_value_pattern(label: Seq<char>) -> Seq<char> {
    regex_escaped(label) + LABELED_VALUE_TAIL@
}

/// The first capture group of a match, trimmed, when there is one and it is
/// not blank.
pub open spec fn captured_value(caps: Option<Seq<Option<Seq<char>>>>) -> Option<Seq<char>> {
    match caps {
        Some(groups) => if groups.len() > 1 && groups[1] is Some && trim(groups[1]->0).len() > 0 {
            Some(trim(groups[1]->0))
        } else {
            None
        },
        None => None,
    }
}

/// The value written after `label:` in the page `html`.
pub open spec fn labeled_value(html: Seq<char>, label: Seq<char>) -> Option<Seq<char>> {
    captured_value(regex_first_captures(labeled_value_pattern(label), html))
}

/// The trimmed first group of a match of the labeled-value pattern, unless blank.
pub fn labeled_value_from_captures(caps: &Option<Vec<Option<String>>>) -> (r: Option<String>)
    ensures
        r.deep_view() == captured_value(caps.deep_view()),
{
    match caps {
        Some(groups) => {
            if groups.len() > 1 {
                match &groups[1] {
                    Some(v) => {
                        let t = trim_chars(&chars_of(v.as_str()));
                        if t.len() > 0 {
                            Some(string_from_chars(&t))
                        } else {
                            None
                        }
                    },
                    None => None,
                }
            } else {
                None
            }
        },
        None => None,
    }
}

/// Pulls `Label: Value` out of raw HTML, whatever tags stand between the
/// label and the value; the value stops at the next tag or line end.
pub fn extract_labeled_value(html: &str, label: &str) -> (r: Option<String>)
    ensures
        r.deep_view() == labeled_value(html@, label@),
{
    let escaped = regex_escape(label);
    let mut p = chars_of(escaped.as_str());
    push_str(&mut p, LABELED_VALUE_TAIL);
    let pattern = string_from_chars(&p);
    let caps = first_captures(pattern.as_str(), html);
    labeled_value_from_captures(&caps)
}

/// The absolute address of a logo whose `src` is `src`.
pub open spec fn absolute_logo_url(src: Seq<char>) -> Seq<char> {
    if starts_with(src, "http"@) {
        src
    } else if src.len() > 0 && src[0] == '/' {
        BASE_URL@ + "/"@ + src.drop_first()
    } else {
        BASE_URL@ + "/"@ + src
    }
}

/// The first image source that points into the promotion logo directory,
/// made absolute.
pub open spec fn logo_url_from(srcs: Seq<Option<Seq<char>>>) -> Option<Seq<char>>
    decreases srcs.len(),
{
    if srcs.len() == 0 {
        None
    } else if srcs[0] is Some && contains(srcs[0]->0, LOGO_PATH_MARKER@) {
        Some(absolute_logo_url(srcs[0]->0))
    } else {
        logo_url_from(srcs.drop_first())
    }
}

/// The logo address of the page `html`.
pub open spec fn page_logo_url(html: Seq<char>) -> Option<Seq<char>> {
    match html_select_attrs(html, "img"@, "src"@) {
        Some(srcs) => logo_url_from(srcs),
        None => None,
    }
}

/// The logo address among the `src` attributes of a page's images.
pub fn logo_url_from_sources(srcs: &Vec<Option<String>>) -> (r: Option<String>)
    ensures
        r.deep_view() == logo_url_from(srcs.deep_view()),
{
    let marker = chars_of(LOGO_PATH_MARKER);
    let http = chars_of("http");
    let ghost all = srcs.deep_view();
    let mut i: usize = 0;
    assert(all.skip(0) == all);
    while i < srcs.len()
        invariant
            i <= srcs@.len(),
            all == srcs.deep_view(),
            marker@ == LOGO_PATH_MARKER@,
            http@ == "http"@,
            logo_url_from(all) == logo_url_from(all.skip(i as int)),
        decreases srcs@.len() - i,
    {
        assert(all.skip(i as int)[0] == srcs@[i as int].deep_view());
        assert(all.skip(i as int).drop_first() == all.skip(i + 1));
        if let Some(src) = &srcs[i] {
            let s = chars_of(src.as_str());
            if contains_chars(&s, &marker) {
                let mut out: Vec<char> = Vec::new();
                if starts_with_chars(&s, &http) {
                    push_chars(&mut out, &s);
                } else {
                    push_str(&mut out, BASE_URL);
                    push_str(&mut out, "/");
                    if s.len() > 0 && s[0] == '/' {
                        let rest = copy_range(&s, 1, s.len());
                        assert(rest@ == s@.drop_first());
                        push_chars(&mut out, &rest);
                    } else {
                        push_chars(&mut out, &s);
                    }
                }
                return Some(string_from_chars(&out));
            }
        }
        i = i + 1;
    }
    None
}

/// The address of the promotion logo on the page `html`: the first image
/// whose source lies in the logo directory, made absolute.
pub fn extract_logo_url(html: &str) -> (r: Option<String>)
    ensures
        r.deep_view() == page_logo_url(html@),
        r is None <==> match html_select_attrs(html@, "img"@, "src"@) {
            Some(srcs) => forall|i: int| 0 <= i < srcs.len() ==> !is_logo_source(#[trigger] srcs[i]),
            None => true,
        },
        r matches Some(u) ==> starts_with(u@, "http"@) && contains(u@, LOGO_PATH_MARKER@),
{
    proof {
        if let Some(srcs) = html_select_attrs(html@, "img"@, "src"@) {
            law_logo_url(srcs);
        }
    }
    match select_attrs(html, "img", "src") {
        Some(srcs) => logo_url_from_sources(&srcs),
        None => None,
    }
}

/// What a promotion page says of the promotion.
#[derive(Debug, Clone)]
pub struct PromotionMetadata {
    pub canonical_name: Option<String>,
    pub abbreviation: Option<String>,
    pub country: Option<String>,
    pub logo_url: Option<String>,
}

/// `PromotionMetadata` as plain values.
pub struct MetadataView {
    pub canonical_name: Option<Seq<char>>,
    pub abbreviation: Option<Seq<char>>,
    pub country: Option<Seq<char>>,
    pub logo_url: Option<Seq<char>>,
}

impl DeepView for PromotionMetadata {
    type V = MetadataView;

    open spec fn deep_view(&self) -> MetadataView {
        MetadataView {
            canonical_name: self.canonical_name.deep_view(),
            abbreviation: self.abbreviation.deep_view(),
            country: self.country.deep_view(),
            logo_url: self.logo_url.deep_view(),
        }
    }
}

impl Default for PromotionMetadata {
    /// Metadata that says nothing.
    fn default() -> (r: Self)
        ensures
            r.canonical_name is None,
            r.abbreviation is None,
            r.country is None,
            r.logo_url is None,
    {
        PromotionMetadata { canonical_name: None, abbreviation: None, country: None, logo_url: None }
    }
}

/// What the promotion page `html` says: name and abbreviation from its
/// `<title>`, where a `Current abbreviation:` entry overrides the
/// abbreviation, the `Location:` entry as country, and the logo address.
pub open spec fn promotion_metadata(html: Seq<char>) -> MetadataView {
    let (name, abbrev_from_title) = title_name_and_abbrev(html);
    MetadataView {
        canonical_name: name,
        abbreviation: match labeled_value(html, "Current abbreviation"@) {
            Some(v) => Some(v),
            None => abbrev_from_title,
        },
        country: labeled_value(html, "Location"@),
        logo_url: page_logo_url(html),
    }
}

/// Metadata whose text fields, where present, are trimmed and not empty,
/// and whose logo address is absolute (it starts with `http`).
pub open spec fn metadata_well_formed(m: MetadataView) -> bool {
    &&& m.canonical_name matches Some(v) ==> v.len() > 0 && trim(v) == v
    &&& m.abbreviation matches Some(v) ==> v.len() > 0 && trim(v) == v
    &&& m.country matches Some(v) ==> v.len() > 0 && trim(v) == v
    &&& m.logo_url matches Some(v) ==> starts_with(v, "http"@)
}

/// Name and abbreviation read from a title are trimmed and not empty, and
/// an abbreviation comes only with a name.
proof fn lemma_name_and_abbrev_trimmed(raw: Seq<char>)
    ensures
        name_and_abbrev(raw).0 matches Some(v) ==> v.len() > 0 && trim(v) == v,
        name_and_abbrev(raw).1 matches Some(v) ==> v.len() > 0 && trim(v) == v,
        name_and_abbrev(raw).1 is Some ==> name_and_abbrev(raw).0 is Some,
{
    let base = match find(raw, " « "@) {
        Some(i) => raw.take(i),
        None => raw,
    };
    lemma_trim_idempotent(base);
    let head = title_head(raw);
    if head.len() > 0 && rfind(head, " ("@) is Some && head.last() == ')' {
        let open = rfind(head, " ("@)->0;
        lemma_trim_idempotent(head.take(open));
        lemma_trim_idempotent(head.subrange(open + 2, head.len() - 1));
    }
}

/// A value captured after a label is trimmed.
proof fn lemma_captured_value_trimmed(caps: Option<Seq<Option<Seq<char>>>>)
    ensures
        captured_value(caps) matches Some(v) ==> v.len() > 0 && trim(v) == v,
{
    if let Some(groups) = caps {
        if groups.len() > 1 && groups[1] is Some {
            lemma_trim_idempotent(groups[1]->0);
        }
    }
}

/// An image source that points into the promotion logo directory.
pub open spec fn is_logo_source(src: Option<Seq<char>>) -> bool {
    src is Some && contains(src->0, LOGO_PATH_MARKER@)
}

/// Making a logo source absolute keeps the logo directory in it, and gives
/// an address that starts with `http`.
proof fn lemma_absolute_logo_url(src: Seq<char>)
    requires
        contains(src, LOGO_PATH_MARKER@),
    ensures
        starts_with(absolute_logo_url(src), "http"@),
        contains(absolute_logo_url(src), LOGO_PATH_MARKER@),
{
    reveal_strlit("http");
    reveal_strlit("/");
    reveal_strlit("https://www.cagematch.net");
    let m = LOGO_PATH_MARKER@;
    let u = absolute_logo_url(src);
    lemma_contains_iff(src, m);
    let i = choose|i: int| occurs_at(src, m, i);
    if !starts_with(src, "http"@) {
        assert(u.subrange(0, 4) =~= "http"@);
        if src.len() > 0 && src[0] == '/' {
            assert(u =~= BASE_URL@ + src);
            lemma_occurs_in_concat(BASE_URL@, src, m, i);
            lemma_contains_iff(u, m);
        } else {
            assert(u =~= (BASE_URL@ + "/"@) + src);
            lemma_occurs_in_concat(BASE_URL@ + "/"@, src, m, i);
            lemma_contains_iff(u, m);
        }
    }
}

/// Among image sources, the logo address is absent exactly when no source
/// points into the logo directory; otherwise it is the first such source
/// made absolute, which starts with `http` and still points into the logo
/// directory.
pub proof fn law_logo_url(srcs: Seq<Option<Seq<char>>>)
    ensures
        logo_url_from(srcs) is None <==> forall|i: int|
            0 <= i < srcs.len() ==> !is_logo_source(#[trigger] srcs[i]),
        logo_url_from(srcs) matches Some(u) ==> starts_with(u, "http"@) && contains(
            u,
            LOGO_PATH_MARKER@,
        ),
        logo_url_from(srcs) matches Some(u) ==> exists|i: int|
            0 <= i < srcs.len() && is_logo_source(#[trigger] srcs[i]) && u == absolute_logo_url(
                srcs[i]->0,
            ) && forall|j: int| 0 <= j < i ==> !is_logo_source(#[trigger] srcs[j]),
    decreases srcs.len(),
{
    if srcs.len() > 0 {
        let rest = srcs.drop_first();
        assert forall|i: int| 0 <= i < rest.len() implies rest[i] == srcs[i + 1] by {}
        if is_logo_source(srcs[0]) {
            lemma_absolute_logo_url(srcs[0]->0);
            assert(is_logo_source(srcs[0]) && logo_url_from(srcs) == Some(absolute_logo_url(
                srcs[0]->0,
            )));
        } else {
            law_logo_url(rest);
            assert forall|i: int|
                0 <= i < srcs.len() && is_logo_source(#[trigger] srcs[i]) implies !(
                logo_url_from(srcs) is None) by {
                assert(i > 0);
                assert(is_logo_source(rest[i - 1]));
            }
            if logo_url_from(srcs) is None {
                assert forall|i: int| 0 <= i < srcs.len() implies !is_logo_source(
                    #[trigger] srcs[i],
                ) by {
                    if i > 0 {
                        assert(!is_logo_source(rest[i - 1]));
                    }
                }
            }
            if let Some(u) = logo_url_from(srcs) {
                let i = choose|i: int|
                    0 <= i < rest.len() && is_logo_source(#[trigger] rest[i]) && u
                        == absolute_logo_url(rest[i]->0) && forall|j: int|
                        0 <= j < i ==> !is_logo_source(#[trigger] rest[j]);
                assert(is_logo_source(srcs[i + 1]));
                assert forall|j: int| 0 <= j < i + 1 implies !is_logo_source(
                    #[trigger] srcs[j],
                ) by {
                    if j > 0 {
                        assert(srcs[j] == rest[j - 1]);
                    }
                }
            }
        }
    }
}

/// Whatever page is read, the metadata found in it is well formed: no text
/// field is present but blank or untrimmed, and a logo address is absolute.
pub proof fn law_metadata_well_formed(html: Seq<char>)
    ensures
        metadata_well_formed(promotion_metadata(html)),
{
    if let Some(srcs) = html_select_attrs(html, "img"@, "src"@) {
        law_logo_url(srcs);
    }
    if let Some(raw) = page_title_text(html) {
        lemma_name_and_abbrev_trimmed(raw);
    }
    lemma_captured_value_trimmed(
        regex_first_captures(labeled_value_pattern("Current abbreviation"@), html),
    );
    lemma_captured_value_trimmed(regex_first_captures(labeled_value_pattern("Location"@), html));
}

/// Where each field of a promotion page's metadata comes from: the name from
/// the `<title>`; the abbreviation from a non-blank `Current abbreviation:`
/// entry whenever there is one, and from the title's parenthesis only when
/// there is none; the country from the `Location:` entry; the logo from the
/// page's images.
pub proof fn law_metadata_sources(html: Seq<char>)
    ensures
        promotion_metadata(html).canonical_name == title_name_and_abbrev(html).0,
        labeled_value(html, "Current abbreviation"@) matches Some(v) ==> promotion_metadata(
            html,
        ).abbreviation == Some(v),
        labeled_value(html, "Current abbreviation"@) is None ==> promotion_metadata(html).abbreviation
            == title_name_and_abbrev(html).1,
        promotion_metadata(html).country == labeled_value(html, "Location"@),
        promotion_metadata(html).logo_url == page_logo_url(html),
{
}

/// Parses the main promotion page for name, abbreviation, country, and logo.
pub fn parse_promotion_metadata(html: &str) -> (r: PromotionMetadata)
    ensures
        r.deep_view() == promotion_metadata(html@),
        metadata_well_formed(r.deep_view()),
        r.canonical_name.deep_view() == title_name_and_abbrev(html@).0,
        labeled_value(html@, "Current abbreviation"@) matches Some(v) ==> r.abbreviation.deep_view()
            == Some(v),
        labeled_value(html@, "Current abbreviation"@) is None ==> r.abbreviation.deep_view()
            == title_name_and_abbrev(html@).1,
        r.country.deep_view() == labeled_value(html@, "Location"@),
        r.logo_url.deep_view() == page_logo_url(html@),
{
    proof {
        law_metadata_sources(html@);
        law_metadata_well_formed(html@);
    }
    let (name_from_title, abbrev_from_title) = extract_name_and_abbrev_from_title(html);
    let abbreviation = match extract_labeled_value(html, "Current abbreviation") {
        Some(v) => Some(v),
        None => abbrev_from_title,
    };
    let country = extract_labeled_value(html, "Location");
    let logo_url = extract_logo_url(html);
    PromotionMetadata { canonical_name: name_from_title, abbreviation, country, logo_url }
}

} // verus!
