use crate::text::{decimal, decimal_text};
use vstd::prelude::*;
use vstd::string::{StrSliceExecFns, StringExecFns};

verus! {

/// Relies on scraper: `Selector::parse(selector)`, then
/// `Html::parse_fragment(page).select(..).next()` and `ElementRef::html`.
/// A selector that does not parse yields its error's debug text. The
/// forecast box selector, a type selector with one attribute selector whose
/// value is a quoted string, is valid CSS and parses. The element's HTML
/// writes its attributes in the order of a randomly seeded hash map, so
/// nothing more is stated of it.
#[verifier::external_body]
fn select_first_html(page: &str, selector: &str) -> (r: Result<Option<String>, String>)
    ensures
        selector@ == FORECAST_BOX_SELECTOR@ ==> r is Ok,
{
    let selector = scraper::Selector::parse(selector).map_err(|e| format!("{:?}", e))?;
    let fragment = scraper::Html::parse_fragment(page);
    let found = fragment.select(&selector).next().map(|s| s.html());
    Ok(found)
}

/// Why the forecast data address could not be found in the overview page.
#[derive(Clone, Debug)]
pub enum UrlError {
    /// The selector of the forecast box does not parse; the selector that
    /// this library uses always parses.
    Css(String),
    /// The page has no forecast box.
    NoForecastBox,
}

/// The selector of the local forecast box.
pub const FORECAST_BOX_SELECTOR: &'static str = "div[class=\"overview__local-forecast clearfix\"]";

/// The attribute that holds the data address.
pub const JSON_URL_MARKER: &'static str = "data-json-url=\"";

/// The site that data addresses are relative to.
pub const SITE: &'static str = "https://www.meteoschweiz.admin.ch";

/// `pat` occurs in `s` at index `j`.
pub open spec fn occurs_at(s: Seq<char>, pat: Seq<char>, j: int) -> bool {
    0 <= j && j + pat.len() <= s.len() && s.subrange(j, j + pat.len()) == pat
}

/// The first index from `i` on where `pat` occurs in `s`, or the length of
/// `s` where it occurs nowhere there.
pub open spec fn first_occurrence(s: Seq<char>, pat: Seq<char>, i: int) -> int
    decreases s.len() - i,
{
    if i < 0 || i >= s.len() {
        s.len() as int
    } else if occurs_at(s, pat, i) {
        i
    } else {
        first_occurrence(s, pat, i + 1)
    }
}

/// The text that follows the first marker, up to the next marker; the whole
/// text where no marker occurs.
pub open spec fn after_marker(s: Seq<char>) -> Seq<char> {
    let p = first_occurrence(s, JSON_URL_MARKER@, 0);
    if p >= s.len() {
        s
    } else {
        let rest = s.subrange(p + JSON_URL_MARKER@.len(), s.len() as int);
        rest.subrange(0, first_occurrence(rest, JSON_URL_MARKER@, 0))
    }
}

/// The text before the first double quote.
pub open spec fn before_quote(s: Seq<char>) -> Seq<char> {
    s.subrange(0, first_occurrence(s, "\""@, 0))
}

/// The data address for postal code `plz`: the address in the forecast box,
/// made absolute, with its last eleven characters (`{code}00.json`) replaced
/// by `{plz}00.json`.
pub open spec fn json_url_for(section: Seq<char>, plz: u32) -> Seq<char> {
    let u = SITE@ + before_quote(after_marker(section));
    u.subrange(0, u.len() - 11) + decimal_text(plz as nat) + "00.json"@
}

proof fn lemma_no_room(s: Seq<char>, pat: Seq<char>, i: int)
    requires
        0 <= i,
        pat.len() > 0,
        i + pat.len() > s.len(),
    ensures
        first_occurrence(s, pat, i) == s.len(),
    decreases s.len() - i,
{
    if i < s.len() {
        lemma_no_room(s, pat, i + 1);
    }
}

proof fn lemma_first_occurrence(s: Seq<char>, pat: Seq<char>, i: int)
    requires
        0 <= i,
    ensures
        first_occurrence(s, pat, i) <= s.len(),
        i <= s.len() ==> i <= first_occurrence(s, pat, i),
        first_occurrence(s, pat, i) < s.len() ==> occurs_at(s, pat, first_occurrence(s, pat, i)),
    decreases s.len() - i,
{
    if i < s.len() && !occurs_at(s, pat, i) {
        lemma_first_occurrence(s, pat, i + 1);
    }
}

/// The first index from `from` on where `pat` occurs in `s`, or the length
/// of `s`.
pub fn find_from(s: &str, pat: &str, from: usize) -> (r: usize)
    requires
        pat@.len() > 0,
        from <= s@.len(),
    ensures
        r == first_occurrence(s@, pat@, from as int),
{
    let n = s.unicode_len();
    let m = pat.unicode_len();
    let mut j = from;
    while m <= n - j
        invariant
            n == s@.len(),
            m == pat@.len(),
            m > 0,
            from <= j <= n,
            first_occurrence(s@, pat@, from as int) == first_occurrence(s@, pat@, j as int),
        decreases n - j,
    {
        let mut k: usize = 0;
        let mut same = true;
        while k < m && same
            invariant
                n == s@.len(),
                m == pat@.len(),
                j + m <= n,
                k <= m,
                same ==> forall|q: int| 0 <= q < k ==> s@[j + q] == pat@[q],
                !same ==> k > 0 && s@[j + k - 1] != pat@[k - 1],
            decreases m - k + (if same { 1int } else { 0int }),
        {
            if s.get_char(j + k) != pat.get_char(k) {
                same = false;
            }
            k = k + 1;
        }
        if same {
            assert(s@.subrange(j as int, j + m) =~= pat@);
            return j;
        }
        assert(s@.subrange(j as int, j + m)[k - 1] != pat@[k - 1]);
        j = j + 1;
    }
    proof {
        lemma_no_room(s@, pat@, j as int);
    }
    n
}

/// The data address for postal code `plz`, read from the HTML of the
/// forecast box.
pub fn json_url_from_section(section: &str, plz: u32) -> (r: String)
    ensures
        r@ == json_url_for(section@, plz),
{
    let n = section.unicode_len();
    let mark_len = JSON_URL_MARKER.unicode_len();
    proof {
        reveal_strlit("data-json-url=\"");
        reveal_strlit("\"");
        reveal_strlit("https://www.meteoschweiz.admin.ch");
    }
    let p = find_from(section, JSON_URL_MARKER, 0);
    proof {
        lemma_first_occurrence(section@, JSON_URL_MARKER@, 0);
    }
    let piece = if p >= n {
        section
    } else {
        let rest = section.substring_char(p + mark_len, n);
        let end = find_from(rest, JSON_URL_MARKER, 0);
        proof {
            lemma_first_occurrence(rest@, JSON_URL_MARKER@, 0);
        }
        rest.substring_char(0, end)
    };
    let q = find_from(piece, "\"", 0);
    proof {
        lemma_first_occurrence(piece@, "\""@, 0);
    }
    let address = piece.substring_char(0, q);
    let mut url = String::from_str(SITE);
    url.append(address);
    let full = url.as_str().unicode_len();
    let mut out = String::from_str(url.as_str().substring_char(0, full - 11));
    let code = decimal(plz as u64);
    out.append(code.as_str());
    out.append("00.json");
    out
}

/// The data address for postal code `plz`, read from the overview page:
/// the address that `json_url_from_section` reads from the HTML of the
/// page's forecast box, or `NoForecastBox` where the page has none.
pub fn forecast_json_url(page: &str, plz: u32) -> (r: Result<String, UrlError>)
    ensures
        match r {
            Ok(u) => exists|section: Seq<char>| u@ == json_url_for(section, plz),
            Err(UrlError::NoForecastBox) => true,
            Err(UrlError::Css(_)) => false,
        },
{
    match select_first_html(page, FORECAST_BOX_SELECTOR) {
        Err(e) => Err(UrlError::Css(e)),
        Ok(None) => Err(UrlError::NoForecastBox),
        Ok(Some(section)) => {
            let u = json_url_from_section(section.as_str(), plz);
            assert(u@ == json_url_for(section@, plz));
            Ok(u)
        },
    }
}

} // verus!
