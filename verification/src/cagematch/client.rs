//! The cagematch.net reader: page addresses, the links between pages, the
//! pause between requests, and what counts as a usable response.

use crate::text::{
    all_ascii_digits, chars_of, contains, contains_chars, copy_range, decimal_digits, find,
    find_chars, i32_decimal, is_ascii_digit, lemma_decimal_digits, lemma_find_from_first,
    lemma_parse_i32_decimal, occurs_at, parse_i32, parse_i32_spec, push_decimal, push_i32, push_str,
    string_from_chars, without_plus,
};
use vstd::prelude::*;

verus! {

/// The site that every page address starts with.
pub const BASE_URL: &'static str = "https://www.cagematch.net";

/// The text of the error page that cagematch.net serves with HTTP 200.
pub const SOFT_404_MARKER: &'static str = "Error 404 - Page not found";

/// The address of the promotion page `cagematch_id` under `base`.
pub open spec fn promotion_url_spec(base: Seq<char>, cagematch_id: i32) -> Seq<char> {
    base + "/?id=8&nr="@ + i32_decimal(cagematch_id)
}

/// The address of the titles page of promotion `cagematch_id` under `base`.
pub open spec fn titles_url_spec(base: Seq<char>, cagematch_id: i32) -> Seq<char> {
    base + "/?id=8&nr="@ + i32_decimal(cagematch_id) + "&page=9"@
}

/// The address of the page of title `cagematch_id` under `base`.
pub open spec fn title_url_spec(base: Seq<char>, cagematch_id: i32) -> Seq<char> {
    base + "/?id=5&nr="@ + i32_decimal(cagematch_id)
}

/// The part of a link that precedes the number of an entity of kind
/// `entity_id` (5 for a title, 2 for a wrestler, 8 for a promotion).
pub open spec fn nr_prefix(entity_id: i32) -> Seq<char> {
    "?id="@ + i32_decimal(entity_id) + "&nr="@
}

/// The ASCII digits at the start of `s`.
pub open spec fn digit_run(s: Seq<char>) -> Seq<char>
    decreases s.len(),
{
    if s.len() > 0 && is_ascii_digit(s[0]) {
        seq![s[0]] + digit_run(s.drop_first())
    } else {
        Seq::empty()
    }
}

/// The number that follows the first `?id=<entity_id>&nr=` in `href`, when
/// the digits there make an `i32`.
pub open spec fn cagematch_nr(href: Seq<char>, entity_id: i32) -> Option<i32> {
    match find(href, nr_prefix(entity_id)) {
        Some(start) => parse_i32_spec(digit_run(href.skip(start + nr_prefix(entity_id).len()))),
        None => None,
    }
}

/// The digits at the start of `d + t` are `d`, when `d` is all digits and
/// `t` does not start with one.
proof fn lemma_digit_run_of_digits(d: Seq<char>, t: Seq<char>)
    requires
        all_ascii_digits(d),
        t.len() == 0 || !is_ascii_digit(t[0]),
    ensures
        digit_run(d + t) == d,
    decreases d.len(),
{
    if d.len() == 0 {
        assert(d + t == t);
        assert(d =~= Seq::<char>::empty());
    } else {
        assert((d + t)[0] == d[0]);
        assert((d + t).drop_first() == d.drop_first() + t);
        assert(all_ascii_digits(d.drop_first()));
        lemma_digit_run_of_digits(d.drop_first(), t);
        assert(d == seq![d[0]] + d.drop_first());
    }
}

/// The number a link to a page reads back as: the number itself when it is
/// not negative; nothing for a negative one, whose minus sign is no digit.
pub open spec fn read_back(id: i32) -> Option<i32> {
    if id >= 0 {
        Some(id)
    } else {
        None
    }
}

/// A link made of an address without `?`, then `/?id=<entity_id>&nr=`, then
/// a number, then text that does not start with a digit, is read back as
/// that number when it is not negative, and as nothing otherwise.
proof fn lemma_link_number(base: Seq<char>, entity_id: i32, id: i32, tail: Seq<char>)
    requires
        !base.contains('?'),
        tail.len() == 0 || !is_ascii_digit(tail[0]),
    ensures
        cagematch_nr(base + "/"@ + nr_prefix(entity_id) + i32_decimal(id) + tail, entity_id)
            == read_back(id),
{
    reveal_strlit("/");
    reveal_strlit("?id=");
    reveal_strlit("&nr=");
    let p = nr_prefix(entity_id);
    let d = i32_decimal(id);
    let s = base + "/"@ + p + d + tail;
    let k: int = base.len() as int + 1;
    assert(p[0] == '?');
    assert(s.subrange(k, k + p.len()) =~= p);
    assert forall|j: int| 0 <= j < k implies !occurs_at(s, p, j) by {
        if occurs_at(s, p, j) {
            assert(s.subrange(j, j + p.len())[0] == s[j]);
            if j < base.len() {
                assert(s[j] == base[j]);
            } else {
                assert(s[j] == '/');
            }
        }
    }
    lemma_find_from_first(s, p, 0, k);
    assert(s.skip(k + p.len()) =~= d + tail);
    if id >= 0 {
        lemma_decimal_digits(id as nat);
        lemma_digit_run_of_digits(d, tail);
        lemma_parse_i32_decimal(id);
    } else {
        assert((d + tail)[0] == '-');
        assert(digit_run(d + tail) =~= Seq::<char>::empty());
        assert(without_plus(Seq::<char>::empty()) =~= Seq::<char>::empty());
    }
}

/// The cagematch.net address has no `?`.
proof fn lemma_base_url_has_no_query()
    ensures
        !BASE_URL@.contains('?'),
{
    reveal_strlit("https://www.cagematch.net");
}

/// Reading a title page address as a link to a title gives back the title's
/// number, for any site address without `?`: the number itself when it is
/// not negative, nothing when it is.
pub proof fn law_title_url_reads_back(base: Seq<char>, title_cagematch_id: i32)
    requires
        !base.contains('?'),
    ensures
        cagematch_nr(title_url_spec(base, title_cagematch_id), 5) == read_back(title_cagematch_id),
{
    reveal_strlit("/?id=5&nr=");
    reveal_strlit("/");
    reveal_strlit("?id=");
    reveal_strlit("&nr=");
    assert(i32_decimal(5) =~= seq!['5']);
    assert(title_url_spec(base, title_cagematch_id) =~= base + "/"@ + nr_prefix(5) + i32_decimal(
        title_cagematch_id,
    ) + Seq::<char>::empty());
    lemma_link_number(base, 5, title_cagematch_id, Seq::empty());
}

/// Reading a promotion page address, or a titles page address, as a link to
/// a promotion gives back the promotion's number (nothing for a negative
/// one).
pub proof fn law_promotion_urls_read_back(base: Seq<char>, cagematch_id: i32)
    requires
        !base.contains('?'),
    ensures
        cagematch_nr(promotion_url_spec(base, cagematch_id), 8) == read_back(cagematch_id),
        cagematch_nr(titles_url_spec(base, cagematch_id), 8) == read_back(cagematch_id),
{
    reveal_strlit("/?id=8&nr=");
    reveal_strlit("&page=9");
    reveal_strlit("/");
    reveal_strlit("?id=");
    reveal_strlit("&nr=");
    assert(i32_decimal(8) =~= seq!['8']);
    assert(promotion_url_spec(base, cagematch_id) =~= base + "/"@ + nr_prefix(8) + i32_decimal(
        cagematch_id,
    ) + Seq::<char>::empty());
    lemma_link_number(base, 8, cagematch_id, Seq::empty());
    assert(titles_url_spec(base, cagematch_id) =~= base + "/"@ + nr_prefix(8) + i32_decimal(
        cagematch_id,
    ) + "&page=9"@);
    lemma_link_number(base, 8, cagematch_id, "&page=9"@);
}

/// The addresses a reader made by `CagematchClient::new` builds are read
/// back as links to the same title or promotion for every number that is
/// not negative, and as no link at all for a negative one.
pub proof fn law_cagematch_urls_read_back(cagematch_id: i32)
    ensures
        cagematch_id >= 0 ==> cagematch_nr(title_url_spec(BASE_URL@, cagematch_id), 5) == Some(
            cagematch_id,
        ),
        cagematch_id >= 0 ==> cagematch_nr(promotion_url_spec(BASE_URL@, cagematch_id), 8) == Some(
            cagematch_id,
        ),
        cagematch_id >= 0 ==> cagematch_nr(titles_url_spec(BASE_URL@, cagematch_id), 8) == Some(
            cagematch_id,
        ),
        cagematch_id < 0 ==> cagematch_nr(title_url_spec(BASE_URL@, cagematch_id), 5) is None,
        cagematch_id < 0 ==> cagematch_nr(promotion_url_spec(BASE_URL@, cagematch_id), 8) is None,
        cagematch_id < 0 ==> cagematch_nr(titles_url_spec(BASE_URL@, cagematch_id), 8) is None,
{
    lemma_base_url_has_no_query();
    law_title_url_reads_back(BASE_URL@, cagematch_id);
    law_promotion_urls_read_back(BASE_URL@, cagematch_id);
}

/// The settings of the cagematch.net reader: where the site is, how it
/// introduces itself, and how long it waits between two requests.
pub struct CagematchClient {
    pub base_url: String,
    pub user_agent: String,
    pub rate_limit_ms: u64,
}

impl CagematchClient {
    /// A reader of cagematch.net that sends `user_agent` and waits
    /// `rate_limit_ms` milliseconds between requests.
    pub fn new(user_agent: &str, rate_limit_ms: u64) -> (r: Self)
        ensures
            r.base_url@ == BASE_URL@,
            r.user_agent@ == user_agent@,
            r.rate_limit_ms == rate_limit_ms,
    {
        CagematchClient {
            base_url: string_from_chars(&chars_of(BASE_URL)),
            user_agent: string_from_chars(&chars_of(user_agent)),
            rate_limit_ms,
        }
    }

    /// The address of the main page of promotion `cagematch_id`.
    pub fn promotion_url(&self, cagematch_id: i32) -> (r: String)
        ensures
            r@ == promotion_url_spec(self.base_url@, cagematch_id),
    {
        let mut v = chars_of(self.base_url.as_str());
        push_str(&mut v, "/?id=8&nr=");
        push_i32(&mut v, cagematch_id);
        string_from_chars(&v)
    }

    /// The address of the titles page of promotion `cagematch_id`.
    pub fn titles_url(&self, cagematch_id: i32) -> (r: String)
        ensures
            r@ == titles_url_spec(self.base_url@, cagematch_id),
    {
        let mut v = chars_of(self.base_url.as_str());
        push_str(&mut v, "/?id=8&nr=");
        push_i32(&mut v, cagematch_id);
        push_str(&mut v, "&page=9");
        string_from_chars(&v)
    }

    /// The address of the page of title `title_cagematch_id`.
    pub fn title_url(&self, title_cagematch_id: i32) -> (r: String)
        ensures
            r@ == title_url_spec(self.base_url@, title_cagematch_id),
    {
        let mut v = chars_of(self.base_url.as_str());
        push_str(&mut v, "/?id=5&nr=");
        push_i32(&mut v, title_cagematch_id);
        string_from_chars(&v)
    }

    /// The pause, in nanoseconds, that keeps requests `rate_limit_ms` apart:
    /// none before the first request (`elapsed_nanos` is `None`), otherwise
    /// what is left of the window since the previous one.
    pub open spec fn throttle_delay_spec(&self, elapsed_nanos: Option<u128>) -> int {
        match elapsed_nanos {
            Some(e) => if e < self.rate_limit_ms * 1_000_000 {
                self.rate_limit_ms * 1_000_000 - e
            } else {
                0
            },
            None => 0,
        }
    }

    /// How long to wait before the next request, given the time elapsed since
    /// the previous one.
    pub fn throttle_delay(&self, elapsed_nanos: Option<u128>) -> (r: u128)
        ensures
            r == self.throttle_delay_spec(elapsed_nanos),
            r <= self.rate_limit_ms * 1_000_000,
            elapsed_nanos matches Some(e) ==> e + r >= self.rate_limit_ms * 1_000_000,
            elapsed_nanos is None ==> r == 0,
            elapsed_nanos matches Some(e) ==> (e < self.rate_limit_ms * 1_000_000 ==> r
                == self.rate_limit_ms * 1_000_000 - e),
            elapsed_nanos matches Some(e) ==> (e >= self.rate_limit_ms * 1_000_000 ==> r == 0),
    {
        let window: u128 = self.rate_limit_ms as u128 * 1_000_000;
        match elapsed_nanos {
            Some(e) => if e < window {
                window - e
            } else {
                0
            },
            None => 0,
        }
    }
}

/// The pause before a request is none before the first request, what is left
/// of the window while the window is still running, and none once the window
/// has passed: requests are at least a window apart, and never held longer.
pub proof fn law_throttle_delay(client: CagematchClient, elapsed_nanos: Option<u128>)
    ensures
        elapsed_nanos is None ==> client.throttle_delay_spec(elapsed_nanos) == 0,
        elapsed_nanos matches Some(e) ==> (e < client.rate_limit_ms * 1_000_000 ==> e
            + client.throttle_delay_spec(elapsed_nanos) == client.rate_limit_ms * 1_000_000),
        elapsed_nanos matches Some(e) ==> (e >= client.rate_limit_ms * 1_000_000
            ==> client.throttle_delay_spec(elapsed_nanos) == 0),
{
}

/// The HTTP statuses that count as success.
pub open spec fn is_success_status(status: u16) -> bool {
    200 <= status <= 299
}

/// The error for a page answered with a status other than success.
pub open spec fn status_error(url: Seq<char>, status: u16) -> Seq<char> {
    "cagematch.net returned HTTP "@ + decimal_digits(status as nat) + " for "@ + url
}

/// The error for the error page that cagematch.net serves as a success.
pub open spec fn soft_404_error(url: Seq<char>) -> Seq<char> {
    "cagematch.net returned a soft 404 for "@ + url
}

/// The statuses a page fetch accepts are exactly 200 to 299: every
/// redirection, client error and server error is refused.
pub proof fn law_success_statuses(status: u16)
    ensures
        is_success_status(status) <==> 200 <= status && status <= 299,
        500 <= status ==> !is_success_status(status),
{
}

/// Accepts a response status for `url`: a 2xx status, or the error that
/// names the status and the address.
pub fn check_status(url: &str, status: u16) -> (r: Result<(), String>)
    ensures
        r is Ok <==> 200 <= status <= 299,
        r matches Err(m) ==> m@ == "cagematch.net returned HTTP "@ + decimal_digits(status as nat)
            + " for "@ + url@,
        match r {
            Ok(()) => is_success_status(status),
            Err(m) => !is_success_status(status) && m@ == status_error(url@, status),
        },
{
    if 200 <= status && status <= 299 {
        Ok(())
    } else {
        let mut m = chars_of("cagematch.net returned HTTP ");
        push_decimal(&mut m, status as u64);
        push_str(&mut m, " for ");
        push_str(&mut m, url);
        Err(string_from_chars(&m))
    }
}

/// Accepts the status of the answer to a validation request for `url`:
/// exactly HTTP 200, or the error that names the status and the address.
pub fn check_validation_status(url: &str, status: u16) -> (r: Result<(), String>)
    ensures
        match r {
            Ok(()) => status == 200,
            Err(m) => status != 200 && m@ == status_error(url@, status),
        },
{
    if status == 200 {
        Ok(())
    } else {
        let mut m = chars_of("cagematch.net returned HTTP ");
        push_decimal(&mut m, status as u64);
        push_str(&mut m, " for ");
        push_str(&mut m, url);
        Err(string_from_chars(&m))
    }
}

/// Accepts the body of the page at `url`, unless it is cagematch.net's error
/// page served as a success (it holds `SOFT_404_MARKER`).
pub fn check_body(url: &str, body: String) -> (r: Result<String, String>)
    ensures
        match r {
            Ok(b) => !contains(body@, SOFT_404_MARKER@) && b@ == body@,
            Err(m) => contains(body@, SOFT_404_MARKER@) && m@ == soft_404_error(url@),
        },
{
    let b = chars_of(body.as_str());
    let marker = chars_of(SOFT_404_MARKER);
    if contains_chars(&b, &marker) {
        let mut m = chars_of("cagematch.net returned a soft 404 for ");
        push_str(&mut m, url);
        Err(string_from_chars(&m))
    } else {
        Ok(body)
    }
}

/// The number of the entity of kind `entity_id` that link `href` points to:
/// the digits after the first `?id=<entity_id>&nr=`.
pub fn extract_cagematch_nr(href: &str, entity_id: i32) -> (r: Option<i32>)
    ensures
        r == cagematch_nr(href@, entity_id),
{
    let h = chars_of(href);
    let mut prefix = chars_of("?id=");
    push_i32(&mut prefix, entity_id);
    push_str(&mut prefix, "&nr=");
    match find_chars(&h, &prefix) {
        None => None,
        Some(start) => {
            let hl = h.len();
            let pl = prefix.len();
            assert(start + pl <= hl);
            let from = start + pl;
            let mut end = from;
            assert(h@.skip(from as int) == h@.subrange(from as int, end as int) + h@.skip(
                end as int,
            ));
            while end < h.len() && 48 <= h[end] as u32 && h[end] as u32 <= 57
                invariant
                    from <= end <= h@.len(),
                    digit_run(h@.skip(from as int)) == h@.subrange(from as int, end as int)
                        + digit_run(h@.skip(end as int)),
                decreases h@.len() - end,
            {
                assert(h@.skip(end as int).drop_first() == h@.skip(end + 1));
                assert(h@.subrange(from as int, end + 1) == h@.subrange(from as int, end as int)
                    + seq![h@[end as int]]);
                end = end + 1;
            }
            assert(digit_run(h@.skip(end as int)) == Seq::<char>::empty());
            assert(h@.subrange(from as int, end as int) + digit_run(h@.skip(end as int))
                == h@.subrange(from as int, end as int));
            let digits = copy_range(&h, from, end);
            parse_i32(&digits)
        },
    }
}

} // verus!
