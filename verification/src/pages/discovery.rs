//! Telling crawlers what is here, and what is not: the robots file and the
//! sitemap document.

use vstd::prelude::*;

use crate::text::{chars_of, push_char, push_str};

verus! {

/// The XML escape of one character: the five characters that would break a
/// text node or attribute become entities.
pub open spec fn xml_escape_char(c: char) -> Seq<char> {
    if c == '&' {
        "&amp;"@
    } else if c == '<' {
        "&lt;"@
    } else if c == '>' {
        "&gt;"@
    } else if c == '"' {
        "&quot;"@
    } else if c == '\'' {
        "&apos;"@
    } else {
        seq![c]
    }
}

/// Every character escaped in turn.
pub open spec fn xml_escape(s: Seq<char>) -> Seq<char>
    decreases s.len(),
{
    if s.len() == 0 {
        s
    } else {
        xml_escape(s.drop_last()) + xml_escape_char(s.last())
    }
}

/// Escape the characters a URL may legally contain that would break XML.
pub fn escape_xml(s: &str) -> (r: String)
    ensures
        r@ == xml_escape(s@),
{
    let v = chars_of(s);
    let mut out = String::new();
    let mut i: usize = 0;
    assert(v@.subrange(0, 0) =~= Seq::<char>::empty());
    while i < v.len()
        invariant
            i <= v@.len(),
            out@ == xml_escape(v@.subrange(0, i as int)),
        decreases v@.len() - i,
    {
        let c = v[i];
        if c == '&' {
            push_str(&mut out, "&amp;");
        } else if c == '<' {
            push_str(&mut out, "&lt;");
        } else if c == '>' {
            push_str(&mut out, "&gt;");
        } else if c == '"' {
            push_str(&mut out, "&quot;");
        } else if c == '\'' {
            push_str(&mut out, "&apos;");
        } else {
            push_char(&mut out, c);
        }
        assert(v@.subrange(0, i + 1).drop_last() =~= v@.subrange(0, i as int));
        i = i + 1;
    }
    assert(v@.subrange(0, v@.len() as int) =~= s@);
    out
}

/// The most URLs one sitemap file may contain, per the sitemap protocol.
pub const MAX_URLS: usize = 50_000;

/// The robots file: under construction everything is disallowed; otherwise
/// the non-content paths are disallowed, the rest allowed, and the sitemap
/// named when the public origin is known.
pub open spec fn robots_spec(construction: bool, base_url: Seq<char>) -> Seq<char> {
    if construction {
        "User-agent: *\nDisallow: /\n"@
    } else {
        "User-agent: *\n"@ + "Disallow: /admin\n"@ + "Disallow: /login\n"@
            + "Disallow: /register\n"@ + "Disallow: /verify\n"@ + "Disallow: /reset\n"@
            + "Disallow: /forgot\n"@ + "Allow: /\n"@ + if base_url.len() > 0 {
            "\nSitemap: "@ + base_url + "/sitemap.xml\n"@
        } else {
            Seq::<char>::empty()
        }
    }
}

/// The body of `/robots.txt`.
pub fn robots_body(construction: bool, base_url: &str) -> (r: String)
    ensures
        r@ == robots_spec(construction, base_url@),
{
    let mut out = String::new();
    if construction {
        push_str(&mut out, "User-agent: *\nDisallow: /\n");
        return out;
    }
    push_str(&mut out, "User-agent: *\n");
    push_str(&mut out, "Disallow: /admin\n");
    push_str(&mut out, "Disallow: /login\n");
    push_str(&mut out, "Disallow: /register\n");
    push_str(&mut out, "Disallow: /verify\n");
    push_str(&mut out, "Disallow: /reset\n");
    push_str(&mut out, "Disallow: /forgot\n");
    push_str(&mut out, "Allow: /\n");
    let ghost before = out@;
    if !base_url.is_empty() {
        push_str(&mut out, "\nSitemap: ");
        push_str(&mut out, base_url);
        push_str(&mut out, "/sitemap.xml\n");
    }
    assert(out@ =~= robots_spec(construction, base_url@));
    out
}

/// What the sitemap lists of one country: its slug and the slugs of its
/// people, parties, elections and alliances.
pub struct CountryPages {
    pub slug: String,
    pub people: Vec<String>,
    pub parties: Vec<String>,
    pub elections: Vec<String>,
    pub alliances: Vec<String>,
}

/// The sections every country has a page for, in sitemap order.
pub open spec fn sections() -> Seq<Seq<char>> {
    seq![
        "people"@, "parties"@, "alliances"@, "elections"@, "polls"@, "news"@, "outlets"@,
        "history"@, "compass"@,
    ]
}

/// `prefix` followed by each slug.
pub open spec fn under(prefix: Seq<char>, slugs: Seq<Seq<char>>) -> Seq<Seq<char>>
    decreases slugs.len(),
{
    if slugs.len() == 0 {
        Seq::empty()
    } else {
        under(prefix, slugs.drop_last()).push(prefix + slugs.last())
    }
}

/// The texts of a list of strings.
pub open spec fn strs(v: Seq<String>) -> Seq<Seq<char>> {
    v.map_values(|s: String| s@)
}

/// The addresses of one country: its page, its sections, then the page of
/// each person, party, election and alliance.
pub open spec fn country_urls(origin: Seq<char>, c: CountryPages) -> Seq<Seq<char>> {
    let base = origin + "/"@ + c.slug@;
    seq![base] + under(base + "/"@, sections()) + under(base + "/people/"@, strs(c.people@))
        + under(base + "/parties/"@, strs(c.parties@)) + under(
        base + "/election/"@,
        strs(c.elections@),
    ) + under(base + "/alliance/"@, strs(c.alliances@))
}

/// Every readable page: the home page, the privacy page, then each country's
/// pages in order.
pub open spec fn site_urls(origin: Seq<char>, countries: Seq<CountryPages>) -> Seq<Seq<char>>
    decreases countries.len(),
{
    if countries.len() == 0 {
        seq![origin, origin + "/privacy"@]
    } else {
        site_urls(origin, countries.drop_last()) + country_urls(origin, countries.last())
    }
}

fn joined(a: &str, b: &str) -> (r: String)
    ensures
        r@ == a@ + b@,
{
    let mut s = String::new();
    push_str(&mut s, a);
    push_str(&mut s, b);
    s
}

/// Append `prefix + slug` for each slug.
fn push_under(out: &mut Vec<String>, prefix: &str, slugs: &Vec<String>)
    ensures
        strs(final(out)@) == strs(old(out)@) + under(prefix@, strs(slugs@)),
{
    let ghost start = strs(out@);
    let mut k: usize = 0;
    while k < slugs.len()
        invariant
            k <= slugs@.len(),
            strs(out@) == start + under(prefix@, strs(slugs@).take(k as int)),
        decreases slugs.len() - k,
    {
        let ghost before = out@;
        out.push(joined(prefix, slugs[k].as_str()));
        proof {
            assert(strs(slugs@).take(k + 1).drop_last() =~= strs(slugs@).take(k as int));
            assert(strs(out@) =~= strs(before).push(prefix@ + slugs@[k as int]@));
        }
        k = k + 1;
    }
    assert(strs(slugs@).take(slugs@.len() as int) =~= strs(slugs@));
}

/// The addresses of every readable page, from the public origin and what the
/// database lists of each country.
pub fn sitemap_urls(origin: &str, countries: &Vec<CountryPages>) -> (r: Vec<String>)
    ensures
        strs(r@) == site_urls(origin@, countries@),
{
    let mut out: Vec<String> = Vec::new();
    out.push(joined(origin, ""));
    out.push(joined(origin, "/privacy"));
    proof {
        reveal_strlit("");
        assert(strs(out@) =~= site_urls(origin@, countries@.take(0)));
    }
    let names: [&'static str; 9] = [
        "people", "parties", "alliances", "elections", "polls", "news", "outlets", "history",
        "compass",
    ];
    let mut i: usize = 0;
    while i < countries.len()
        invariant
            i <= countries@.len(),
            strs(out@) == site_urls(origin@, countries@.take(i as int)),
            names@ == seq![
                "people", "parties", "alliances", "elections", "polls", "news", "outlets",
                "history", "compass",
            ],
        decreases countries.len() - i,
    {
        let c = &countries[i];
        let ghost before = strs(out@);
        let mut base = joined(origin, "/");
        push_str(&mut base, c.slug.as_str());
        out.push(joined(base.as_str(), ""));
        let section_base = joined(base.as_str(), "/");
        let ghost after_base = strs(out@);
        let mut k: usize = 0;
        while k < 9
            invariant
                k <= 9,
                names@ == seq![
                    "people", "parties", "alliances", "elections", "polls", "news", "outlets",
                    "history", "compass",
                ],
                strs(out@) == after_base + under(section_base@, sections().take(k as int)),
            decreases 9 - k,
        {
            let ghost b2 = out@;
            out.push(joined(section_base.as_str(), names[k]));
            proof {
                assert(sections().take(k + 1).drop_last() =~= sections().take(k as int));
                assert(sections()[k as int] == names@[k as int]@);
                assert(strs(out@) =~= strs(b2).push(section_base@ + sections()[k as int]));
            }
            k = k + 1;
        }
        assert(sections().take(9) =~= sections());
        push_under(&mut out, joined(base.as_str(), "/people/").as_str(), &c.people);
        push_under(&mut out, joined(base.as_str(), "/parties/").as_str(), &c.parties);
        push_under(&mut out, joined(base.as_str(), "/election/").as_str(), &c.elections);
        push_under(&mut out, joined(base.as_str(), "/alliance/").as_str(), &c.alliances);
        proof {
            reveal_strlit("");
            assert(countries@.take(i + 1).drop_last() =~= countries@.take(i as int));
            assert(countries@.take(i + 1).last() == countries@[i as int]);
            assert(strs(out@) =~= before + country_urls(origin@, countries@[i as int]));
        }
        i = i + 1;
    }
    assert(countries@.take(countries@.len() as int) =~= countries@);
    out
}

/// One `<url>` entry per address, each escaped.
pub open spec fn url_entries(urls: Seq<Seq<char>>) -> Seq<char>
    decreases urls.len(),
{
    if urls.len() == 0 {
        Seq::<char>::empty()
    } else {
        url_entries(urls.drop_last()) + "  <url><loc>"@ + xml_escape(urls.last())
            + "</loc></url>\n"@
    }
}

/// The sitemap document for the first [`MAX_URLS`] addresses.
pub open spec fn sitemap_spec(urls: Seq<Seq<char>>) -> Seq<char> {
    let kept = if urls.len() > MAX_URLS {
        urls.take(MAX_URLS as int)
    } else {
        urls
    };
    "<?xml version=\"1.0\" encoding=\"UTF-8\"?>\n<urlset xmlns=\"http://www.sitemaps.org/schemas/sitemap/0.9\">\n"@
        + url_entries(kept) + "</urlset>\n"@
}

/// The sitemap of every readable page. A list over the protocol's limit is
/// cut to it, since a file over the limit would be rejected whole.
pub fn sitemap_body(urls: &Vec<String>) -> (r: String)
    ensures
        r@ == sitemap_spec(urls@.map_values(|u: String| u@)),
{
    let ghost all = urls@.map_values(|u: String| u@);
    let n = if urls.len() > MAX_URLS {
        MAX_URLS
    } else {
        urls.len()
    };
    let mut out = String::new();
    push_str(
        &mut out,
        "<?xml version=\"1.0\" encoding=\"UTF-8\"?>\n<urlset xmlns=\"http://www.sitemaps.org/schemas/sitemap/0.9\">\n",
    );
    let ghost head = out@;
    let mut i: usize = 0;
    assert(all.take(0) =~= Seq::<Seq<char>>::empty());
    while i < n
        invariant
            i <= n <= urls@.len(),
            all == urls@.map_values(|u: String| u@),
            out@ == head + url_entries(all.take(i as int)),
        decreases n - i,
    {
        push_str(&mut out, "  <url><loc>");
        let e = escape_xml(urls[i].as_str());
        push_str(&mut out, e.as_str());
        push_str(&mut out, "</loc></url>\n");
        proof {
            assert(all.take(i + 1).drop_last() =~= all.take(i as int));
            assert(all.take(i + 1).last() == urls@[i as int]@);
        }
        i = i + 1;
    }
    push_str(&mut out, "</urlset>\n");
    proof {
        if urls@.len() <= MAX_URLS {
            assert(all.take(n as int) =~= all);
        }
    }
    out
}

/// A sitemap lists at most [`MAX_URLS`] addresses: the first ones, in order,
/// when there are more.
pub proof fn law_sitemap_within_limit(urls: Seq<Seq<char>>)
    ensures
        sitemap_spec(urls) == "<?xml version=\"1.0\" encoding=\"UTF-8\"?>\n<urlset xmlns=\"http://www.sitemaps.org/schemas/sitemap/0.9\">\n"@
            + url_entries(urls.take(if urls.len() > MAX_URLS { MAX_URLS as int } else { urls.len() as int })) + "</urlset>\n"@,
{
    if urls.len() <= MAX_URLS {
        assert(urls.take(urls.len() as int) =~= urls);
    }
}

} // verus!
