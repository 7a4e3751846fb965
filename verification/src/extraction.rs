//! Extraction of fic metadata from a downloaded AO3 HTML page.
use vstd::prelude::*;
use crate::errors::{FicDataError, FicDataErrorView};
use crate::metadata::{new_metadata_view, opt_view, tags_of, FicMetadata, FicMetadataView};
use crate::scrape::{
    captures, escape, nodes_view, opt_strings_seq_view, regex_captures, regex_escaped,
    regex_replaced_all, replace_all, scraper_selected_attr, scraper_selected_text, select_attribute,
    select_text_pieces,
};
use crate::tag_map::{
    index_of_key, insert_entry, lemma_index_of_key, push_value_entry, strings_view, TagEntries, TagMap,
};
use crate::text::{law_normalized_idempotent, parse_number, parsed_number, first_piece, has_prefix, join, normalize_text, normalized, push_str, split_first, starts_with};

verus! {

/// The abstract content of a fallible optional string.
pub open spec fn res_opt_view(r: Result<Option<String>, FicDataError>) -> Result<Option<Seq<char>>, FicDataErrorView> {
    match r {
        Ok(o) => Ok(opt_view(o)),
        Err(e) => Err(e@),
    }
}

/// The abstract content of a fallible string.
pub open spec fn res_str_view(r: Result<String, FicDataError>) -> Result<Seq<char>, FicDataErrorView> {
    match r {
        Ok(s) => Ok(s@),
        Err(e) => Err(e@),
    }
}

/// The abstract content of a fallible list of strings.
pub open spec fn res_strings_view(r: Result<Vec<String>, FicDataError>) -> Result<Seq<Seq<char>>, FicDataErrorView> {
    match r {
        Ok(v) => Ok(strings_view(v@)),
        Err(e) => Err(e@),
    }
}

/// `Some(t)` when `t` is not empty, `None` otherwise.
pub open spec fn non_empty(t: Seq<char>) -> Option<Seq<char>> {
    if t.len() > 0 {
        Some(t)
    } else {
        None
    }
}

/// The text of an element: its text pieces joined with spaces, whitespace-normalised.
pub open spec fn node_text(pieces: Seq<Seq<char>>) -> Seq<char> {
    normalized(join(pieces, seq![' ']))
}

/// The text of the first element, when there is one and its text is not empty.
pub open spec fn first_node_text_of(nodes: Seq<Seq<Seq<char>>>) -> Option<Seq<char>> {
    if nodes.len() > 0 {
        non_empty(node_text(nodes[0]))
    } else {
        None
    }
}

/// The texts of the elements, leaving out the empty ones.
pub open spec fn nonempty_texts(nodes: Seq<Seq<Seq<char>>>) -> Seq<Seq<char>>
    decreases nodes.len(),
{
    if nodes.len() == 0 {
        seq![]
    } else {
        let r = nonempty_texts(nodes.drop_last());
        let t = node_text(nodes.last());
        if t.len() > 0 {
            r.push(t)
        } else {
            r
        }
    }
}

/// The text of the first element of `html` that `selector` selects, if not empty.
pub open spec fn selected_first_text(html: Seq<char>, selector: Seq<char>) -> Result<Option<Seq<char>>, FicDataErrorView> {
    match scraper_selected_text(html, selector) {
        Ok(nodes) => Ok(first_node_text_of(nodes)),
        Err(e) => Err(FicDataErrorView::SelectorError(e)),
    }
}

/// The non-empty texts of the elements of `html` that `selector` selects.
pub open spec fn selected_texts(html: Seq<char>, selector: Seq<char>) -> Result<Seq<Seq<char>>, FicDataErrorView> {
    match scraper_selected_text(html, selector) {
        Ok(nodes) => Ok(nonempty_texts(nodes)),
        Err(e) => Err(FicDataErrorView::SelectorError(e)),
    }
}

/// Capture group `k` of a match, if the match took place and the group took part.
pub open spec fn group_of(caps: Option<Seq<Option<Seq<char>>>>, k: int) -> Option<Seq<char>> {
    match caps {
        Some(g) => if 0 <= k < g.len() {
            g[k]
        } else {
            None
        },
        None => None,
    }
}

/// Capture group `k` of the match of `pattern` in `text`.
pub open spec fn captured_group(pattern: Seq<char>, text: Seq<char>, k: int) -> Result<Option<Seq<char>>, FicDataErrorView> {
    match regex_captures(pattern, text) {
        Ok(c) => Ok(group_of(c, k)),
        Err(e) => Err(FicDataErrorView::RegexError(e)),
    }
}

/// The pattern of an HTML tag.
pub open spec fn tag_pattern() -> Seq<char> {
    "(?is)<[^>]+>"@
}

/// `input` with its HTML tags replaced by spaces, whitespace-normalised.
pub open spec fn stripped(input: Seq<char>) -> Result<Seq<char>, FicDataErrorView> {
    match regex_replaced_all(tag_pattern(), input, " "@) {
        Ok(t) => Ok(normalized(t)),
        Err(e) => Err(FicDataErrorView::RegexError(e)),
    }
}

/// The pattern of a `<dt>label</dt><dd>value</dd>` pair, capturing the value.
pub open spec fn labeled_dd_pattern(label: Seq<char>) -> Seq<char> {
    "(?is)<dt>\\s*"@ + regex_escaped(label) + "\\s*:?\\s*</dt>\\s*<dd>\\s*(.*?)\\s*</dd>"@
}

/// The text of the value labelled `label` in a definition list of `html`, if not empty.
pub open spec fn labeled_dd(html: Seq<char>, label: Seq<char>) -> Result<Option<Seq<char>>, FicDataErrorView> {
    match captured_group(labeled_dd_pattern(label), html, 1) {
        Err(e) => Err(e),
        Ok(None) => Ok(None),
        Ok(Some(g)) => match stripped(g) {
            Err(e) => Err(e),
            Ok(t) => Ok(non_empty(t)),
        },
    }
}

/// The pattern of a `key: value` statistic, capturing the value.
pub open spec fn stats_pattern(key: Seq<char>) -> Seq<char> {
    "(?i)\\b"@ + regex_escaped(key) + "\\s*:\\s*([0-9][0-9,]*/?[0-9?]*)"@
}

/// The value of statistic `key` in the text `stats`, if not empty.
pub open spec fn stats_value(stats: Seq<char>, key: Seq<char>) -> Result<Option<Seq<char>>, FicDataErrorView> {
    match captured_group(stats_pattern(key), stats, 1) {
        Err(e) => Err(e),
        Ok(None) => Ok(None),
        Ok(Some(g)) => Ok(non_empty(normalized(g))),
    }
}

/// The abstract content of optional capture groups.
pub open spec fn caps_view(c: Option<Vec<Option<String>>>) -> Option<Seq<Option<Seq<char>>>> {
    match c {
        Some(g) => Some(opt_strings_seq_view(g@)),
        None => None,
    }
}

/// The text pieces joined with single spaces.
pub fn join_pieces(pieces: &Vec<String>) -> (r: String)
    ensures
        r@ == join(strings_view(pieces@), seq![' ']),
{
    let mut r = String::new();
    let n = pieces.len();
    let ghost ws = strings_view(pieces@);
    for i in 0..n
        invariant
            n == pieces@.len(),
            ws == strings_view(pieces@),
            r@ == join(ws.take(i as int), seq![' ']),
    {
        assert(ws.take(i + 1).drop_last() =~= ws.take(i as int));
        if i > 0 {
            proof {
                reveal_strlit(" ");
            }
            push_str(&mut r, " ");
        } else {
            assert(r@ =~= Seq::<char>::empty());
        }
        push_str(&mut r, pieces[i].as_str());
        assert(ws[i as int] == pieces@[i as int]@);
        proof {
            if i > 0 {
                assert(r@ =~= join(ws.take(i as int), seq![' ']) + seq![' '] + ws[i as int]);
            } else {
                assert(r@ =~= ws[0]);
            }
        }
    }
    assert(ws.take(n as int) =~= ws);
    r
}

/// The text of one selected element: its pieces joined with spaces, whitespace-normalised.
pub fn element_text(pieces: &Vec<String>) -> (r: String)
    ensures
        r@ == node_text(strings_view(pieces@)),
{
    let joined = join_pieces(pieces);
    normalize_text(joined.as_str())
}

/// The text of the first selected element, when there is one and it is not empty.
pub fn first_node_text(nodes: &Vec<Vec<String>>) -> (r: Option<String>)
    ensures
        opt_view(r) == first_node_text_of(nodes_view(nodes@)),
{
    if nodes.len() == 0 {
        return None;
    }
    let t = element_text(&nodes[0]);
    if !t.as_str().is_empty() {
        Some(t)
    } else {
        None
    }
}

/// The texts of the selected elements, leaving out the empty ones.
pub fn node_texts(nodes: &Vec<Vec<String>>) -> (r: Vec<String>)
    ensures
        strings_view(r@) == nonempty_texts(nodes_view(nodes@)),
{
    let mut r: Vec<String> = Vec::new();
    let n = nodes.len();
    let ghost nv = nodes_view(nodes@);
    for i in 0..n
        invariant
            n == nodes@.len(),
            nv == nodes_view(nodes@),
            strings_view(r@) == nonempty_texts(nv.take(i as int)),
    {
        assert(nv.take(i + 1).drop_last() =~= nv.take(i as int));
        let t = element_text(&nodes[i]);
        if !t.as_str().is_empty() {
            let ghost r0 = r@;
            r.push(t);
            assert(strings_view(r@) =~= strings_view(r0).push(t@));
        }
    }
    assert(nv.take(n as int) =~= nv);
    r
}

/// The text of the first element of `html` that `selector` selects, if not empty.
pub fn first_text(html: &str, selector: &str) -> (r: Result<Option<String>, FicDataError>)
    ensures
        res_opt_view(r) == selected_first_text(html@, selector@),
{
    match select_text_pieces(html, selector) {
        Ok(nodes) => Ok(first_node_text(&nodes)),
        Err(e) => Err(FicDataError::SelectorError(e)),
    }
}

/// The non-empty texts of the elements of `html` that `selector` selects.
pub fn collect_text(html: &str, selector: &str) -> (r: Result<Vec<String>, FicDataError>)
    ensures
        res_strings_view(r) == selected_texts(html@, selector@),
{
    match select_text_pieces(html, selector) {
        Ok(nodes) => Ok(node_texts(&nodes)),
        Err(e) => Err(FicDataError::SelectorError(e)),
    }
}

/// Capture group `k` of a match, if the match took place and the group took part.
pub fn capture_group(caps: Option<Vec<Option<String>>>, k: usize) -> (r: Option<String>)
    ensures
        opt_view(r) == group_of(caps_view(caps), k as int),
{
    match caps {
        None => None,
        Some(mut groups) => {
            if k < groups.len() {
                let ghost g0 = groups@;
                let g = groups.swap_remove(k);
                assert(opt_view(g) == opt_strings_seq_view(g0)[k as int]);
                g
            } else {
                None
            }
        },
    }
}

/// Capture group `k` of the match of `pattern` in `text`.
pub fn captured(pattern: &str, text: &str, k: usize) -> (r: Result<Option<String>, FicDataError>)
    ensures
        res_opt_view(r) == captured_group(pattern@, text@, k as int),
{
    match captures(pattern, text) {
        Ok(c) => Ok(capture_group(c, k)),
        Err(e) => Err(FicDataError::RegexError(e)),
    }
}

/// `input` with its HTML tags replaced by spaces, whitespace-normalised.
pub fn strip_tags(input: &str) -> (r: Result<String, FicDataError>)
    ensures
        res_str_view(r) == stripped(input@),
{
    match replace_all("(?is)<[^>]+>", input, " ") {
        Ok(t) => Ok(normalize_text(t.as_str())),
        Err(e) => Err(FicDataError::RegexError(e)),
    }
}

/// The text of the value labelled `label` in a definition list
/// (`<dt>label:</dt><dd>value</dd>`) of `html`, with its tags stripped; `None`
/// when there is no such pair or its value is empty.
pub fn parse_labeled_dd(html: &str, label: &str) -> (r: Result<Option<String>, FicDataError>)
    ensures
        res_opt_view(r) == labeled_dd(html@, label@),
{
    let mut pattern = String::new();
    push_str(&mut pattern, "(?is)<dt>\\s*");
    let escaped = escape(label);
    push_str(&mut pattern, escaped.as_str());
    push_str(&mut pattern, "\\s*:?\\s*</dt>\\s*<dd>\\s*(.*?)\\s*</dd>");
    assert(pattern@ =~= labeled_dd_pattern(label@));
    match captured(pattern.as_str(), html, 1)? {
        None => Ok(None),
        Some(g) => {
            let t = strip_tags(g.as_str())?;
            if !t.as_str().is_empty() {
                Ok(Some(t))
            } else {
                Ok(None)
            }
        },
    }
}

/// The value of statistic `key` (as in `Words: 1,234`) in the text `stats`,
/// whitespace-normalised; `None` when absent or empty.
pub fn parse_stats_value(stats: &str, key: &str) -> (r: Result<Option<String>, FicDataError>)
    ensures
        res_opt_view(r) == stats_value(stats@, key@),
{
    let mut pattern = String::new();
    push_str(&mut pattern, "(?i)\\b");
    let escaped = escape(key);
    push_str(&mut pattern, escaped.as_str());
    push_str(&mut pattern, "\\s*:\\s*([0-9][0-9,]*/?[0-9?]*)");
    assert(pattern@ =~= stats_pattern(key@));
    match captured(pattern.as_str(), stats, 1)? {
        None => Ok(None),
        Some(g) => {
            let t = normalize_text(g.as_str());
            if !t.as_str().is_empty() {
                Ok(Some(t))
            } else {
                Ok(None)
            }
        },
    }
}

/// The selector of the title heading.
pub open spec fn title_selector() -> Seq<char> {
    "div.meta h1, h1.title, h2.title"@
}

/// The suffix that AO3 appends to page titles.
pub open spec fn site_title_suffix() -> Seq<char> {
    " - Archive of Our Own"@
}

/// The title of the fic: the text of its title heading, or else the page
/// title up to the site suffix.
pub open spec fn title_of(html: Seq<char>) -> Result<Seq<char>, FicDataErrorView> {
    match selected_first_text(html, title_selector()) {
        Err(e) => Err(e),
        Ok(Some(t)) => Ok(t),
        Ok(None) => match selected_first_text(html, "title"@) {
            Err(e) => Err(e),
            Ok(Some(t)) => Ok(first_piece(t, site_title_suffix())),
            Ok(None) => Err(FicDataErrorView::GenericError("Could not extract title from HTML"@)),
        },
    }
}

/// Extracts the title of the fic from the page `html`.
pub fn parse_title(html: &str) -> (r: Result<String, FicDataError>)
    ensures
        res_str_view(r) == title_of(html@),
{
    if let Some(title) = first_text(html, "div.meta h1, h1.title, h2.title")? {
        return Ok(title);
    }
    if let Some(title) = first_text(html, "title")? {
        return Ok(split_first(title.as_str(), " - Archive of Our Own"));
    }
    Err(FicDataError::GenericError(String::from_str("Could not extract title from HTML")))
}

/// The pattern of a work path, capturing the work id.
pub open spec fn work_id_pattern() -> Seq<char> {
    "/works/(\\d+)"@
}

/// The selector of links to works.
pub open spec fn work_link_selector() -> Seq<char> {
    "a[href*='/works/'], link[href*='/works/']"@
}

/// The first link target, in order, in which the work id pattern matches.
pub open spec fn first_work_href(hrefs: Seq<Option<Seq<char>>>) -> Result<Option<Seq<char>>, FicDataErrorView>
    decreases hrefs.len(),
{
    if hrefs.len() == 0 {
        Ok(None)
    } else {
        match hrefs[0] {
            None => first_work_href(hrefs.skip(1)),
            Some(h) => match regex_captures(work_id_pattern(), h) {
                Err(e) => Err(FicDataErrorView::RegexError(e)),
                Ok(Some(_)) => Ok(Some(h)),
                Ok(None) => first_work_href(hrefs.skip(1)),
            },
        }
    }
}

/// The reference to the work: the first work link of the page, or else the
/// first work path anywhere in the page.
pub open spec fn work_href(html: Seq<char>) -> Result<Option<Seq<char>>, FicDataErrorView> {
    match scraper_selected_attr(html, work_link_selector(), "href"@) {
        Err(e) => Err(FicDataErrorView::SelectorError(e)),
        Ok(hrefs) => match first_work_href(hrefs) {
            Err(e) => Err(e),
            Ok(Some(h)) => Ok(Some(h)),
            Ok(None) => captured_group(work_id_pattern(), html, 0),
        },
    }
}

/// The URL of the work: `href` itself when absolute, the canonical AO3 URL of `id` otherwise.
pub open spec fn work_url(href: Seq<char>, id: Seq<char>) -> Seq<char> {
    if has_prefix(href, "http://"@) || has_prefix(href, "https://"@) {
        href
    } else {
        "https://archiveofourown.org/works/"@ + id
    }
}

/// The work id and URL of the page.
pub open spec fn id_and_url(html: Seq<char>) -> Result<(Seq<char>, Seq<char>), FicDataErrorView> {
    match work_href(html) {
        Err(e) => Err(e),
        Ok(None) => Err(FicDataErrorView::GenericError("Could not extract fic id from HTML"@)),
        Ok(Some(h)) => match captured_group(work_id_pattern(), h, 1) {
            Err(e) => Err(e),
            Ok(None) => Err(FicDataErrorView::GenericError("Could not parse fic id from HTML"@)),
            Ok(Some(id)) => Ok((id, work_url(h, id))),
        },
    }
}

/// The first of `hrefs` in which the work id pattern matches.
pub fn find_work_href(hrefs: Vec<Option<String>>) -> (r: Result<Option<String>, FicDataError>)
    ensures
        res_opt_view(r) == first_work_href(opt_strings_seq_view(hrefs@)),
{
    let ghost all = opt_strings_seq_view(hrefs@);
    let n = hrefs.len();
    let mut i: usize = 0;
    assert(all.skip(0) =~= all);
    while i < n
        invariant
            i <= n,
            n == hrefs@.len(),
            all == opt_strings_seq_view(hrefs@),
            first_work_href(all) == first_work_href(all.skip(i as int)),
        decreases n - i,
    {
        let ghost rest = all.skip(i as int);
        assert(rest.skip(1) =~= all.skip(i + 1));
        assert(rest[0] == opt_view(hrefs@[i as int]));
        if let Some(h) = &hrefs[i] {
            match captures("/works/(\\d+)", h.as_str()) {
                Err(e) => {
                    return Err(FicDataError::RegexError(e));
                },
                Ok(Some(_)) => {
                    return Ok(Some(h.clone()));
                },
                Ok(None) => {},
            }
        }
        i = i + 1;
    }
    assert(all.skip(n as int) =~= Seq::<Option<Seq<char>>>::empty());
    Ok(None)
}

/// Extracts the work id and URL from the page `html`: the id is taken from
/// the first link to a work (or else the first work path in the page), and
/// the URL is that link when absolute, the canonical AO3 URL otherwise.
pub fn parse_id_and_url(html: &str) -> (r: Result<(String, String), FicDataError>)
    ensures
        match r {
            Ok((id, url)) => id_and_url(html@) == Ok::<_, FicDataErrorView>((id@, url@)),
            Err(e) => id_and_url(html@) == Err::<(Seq<char>, Seq<char>), _>(e@),
        },
{
    let hrefs = match select_attribute(html, "a[href*='/works/'], link[href*='/works/']", "href") {
        Ok(v) => v,
        Err(e) => {
            return Err(FicDataError::SelectorError(e));
        },
    };
    let href = match find_work_href(hrefs)? {
        Some(h) => h,
        None => match captured("/works/(\\d+)", html, 0)? {
            Some(h) => h,
            None => {
                return Err(
                    FicDataError::GenericError(String::from_str("Could not extract fic id from HTML")),
                );
            },
        },
    };
    let id = match captured("/works/(\\d+)", href.as_str(), 1)? {
        Some(id) => id,
        None => {
            return Err(
                FicDataError::GenericError(String::from_str("Could not parse fic id from HTML")),
            );
        },
    };
    let url = build_work_url(href, id.as_str());
    Ok((id, url))
}

/// The URL of the work with id `id` whose link is `href`: the link itself when
/// it is absolute (`http://` or `https://`), the canonical AO3 URL otherwise.
pub fn build_work_url(href: String, id: &str) -> (url: String)
    ensures
        url@ == work_url(href@, id@),
{
    if starts_with(href.as_str(), "http://") || starts_with(href.as_str(), "https://") {
        href
    } else {
        let mut u = String::new();
        push_str(&mut u, "https://archiveofourown.org/works/");
        push_str(&mut u, id);
        assert(u@ =~= "https://archiveofourown.org/works/"@ + id@);
        u
    }
}

/// The pattern of a `YYYY-MM-DD` date, capturing it.
pub open spec fn date_pattern() -> Seq<char> {
    "\\b(\\d{4}-\\d{2}-\\d{2})\\b"@
}

/// The date in `text`, if any.
pub open spec fn date_in(text: Seq<char>) -> Result<Option<Seq<char>>, FicDataErrorView> {
    captured_group(date_pattern(), text, 1)
}

/// The selectors of the elements that may show the update date, in order of preference.
pub open spec fn date_selectors() -> Seq<Seq<char>> {
    seq!["dd.status"@, "dd.updated"@, "dd.published"@, "li.stats dd"@]
}

/// The first date found in the text of the first element of each selector, in order.
pub open spec fn date_from_selectors(html: Seq<char>, sels: Seq<Seq<char>>) -> Result<Option<Seq<char>>, FicDataErrorView>
    decreases sels.len(),
{
    if sels.len() == 0 {
        Ok(None)
    } else {
        match selected_first_text(html, sels[0]) {
            Err(e) => Err(e),
            Ok(None) => date_from_selectors(html, sels.skip(1)),
            Ok(Some(v)) => match date_in(v) {
                Err(e) => Err(e),
                Ok(Some(d)) => Ok(Some(d)),
                Ok(None) => date_from_selectors(html, sels.skip(1)),
            },
        }
    }
}

/// The date the fic was last updated: found in the status, update, publication
/// or statistics elements, or else in the labelled statistics, or else
/// anywhere in the page; empty when there is none.
pub open spec fn last_updated_of(html: Seq<char>) -> Result<Seq<char>, FicDataErrorView> {
    match date_from_selectors(html, date_selectors()) {
        Err(e) => Err(e),
        Ok(Some(d)) => Ok(d),
        Ok(None) => match labeled_dd(html, "Stats"@) {
            Err(e) => Err(e),
            Ok(stats) => match (match stats {
                Some(st) => date_in(st),
                None => Ok(None),
            }) {
                Err(e) => Err(e),
                Ok(Some(d)) => Ok(d),
                Ok(None) => match date_in(html) {
                    Err(e) => Err(e),
                    Ok(Some(d)) => Ok(d),
                    Ok(None) => Ok(Seq::empty()),
                },
            },
        },
    }
}

/// Extracts the date the fic was last updated from the page `html` (empty when there is none).
pub fn parse_last_updated(html: &str) -> (r: Result<String, FicDataError>)
    ensures
        res_str_view(r) == last_updated_of(html@),
{
    let selectors = ["dd.status", "dd.updated", "dd.published", "li.stats dd"];
    let ghost sels = date_selectors();
    assert(sels.skip(0) =~= sels);
    for i in 0..4
        invariant
            selectors@.len() == 4,
            sels == date_selectors(),
            forall|k: int| 0 <= k < 4 ==> #[trigger] selectors@[k]@ == sels[k],
            date_from_selectors(html@, sels) == date_from_selectors(html@, sels.skip(i as int)),
    {
        let ghost rest = sels.skip(i as int);
        assert(rest.skip(1) =~= sels.skip(i + 1));
        assert(rest[0] == selectors@[i as int]@);
        if let Some(value) = first_text(html, selectors[i])? {
            if let Some(date) = captured("\\b(\\d{4}-\\d{2}-\\d{2})\\b", value.as_str(), 1)? {
                return Ok(date);
            }
        }
    }
    assert(sels.skip(4) =~= Seq::<Seq<char>>::empty());
    if let Some(stats) = parse_labeled_dd(html, "Stats")? {
        if let Some(date) = captured("\\b(\\d{4}-\\d{2}-\\d{2})\\b", stats.as_str(), 1)? {
            return Ok(date);
        }
    }
    if let Some(date) = captured("\\b(\\d{4}-\\d{2}-\\d{2})\\b", html, 1)? {
        return Ok(date);
    }
    Ok(String::new())
}

/// The selector of the tag links of a tag group.
pub open spec fn tag_group_selector(css_group: Seq<char>) -> Seq<char> {
    "dd."@ + css_group + ".tags a.tag, dd."@ + css_group + " a.tag"@
}

/// `tags` with the tags of the page's group `css_group` stored under
/// `output_key`, when the page has any.
pub open spec fn with_tag_group(html: Seq<char>, tags: TagEntries, css_group: Seq<char>, output_key: Seq<char>) -> Result<TagEntries, FicDataErrorView> {
    match selected_texts(html, tag_group_selector(css_group)) {
        Err(e) => Err(e),
        Ok(values) => Ok(
            if values.len() > 0 {
                insert_entry(tags, output_key, values)
            } else {
                tags
            },
        ),
    }
}

/// The tag groups of an AO3 page: (CSS class, category name).
pub open spec fn tag_groups() -> Seq<(Seq<char>, Seq<char>)> {
    seq![
        ("rating"@, "rating"@),
        ("warning"@, "warnings"@),
        ("category"@, "categories"@),
        ("fandom"@, "fandoms"@),
        ("relationship"@, "relationships"@),
        ("character"@, "characters"@),
        ("freeform"@, "freeforms"@),
    ]
}

/// `tags` with the tag groups `groups` added in order.
pub open spec fn with_tag_groups(html: Seq<char>, tags: TagEntries, groups: Seq<(Seq<char>, Seq<char>)>) -> Result<TagEntries, FicDataErrorView>
    decreases groups.len(),
{
    if groups.len() == 0 {
        Ok(tags)
    } else {
        match with_tag_group(html, tags, groups[0].0, groups[0].1) {
            Err(e) => Err(e),
            Ok(t) => with_tag_groups(html, t, groups.skip(1)),
        }
    }
}

/// `tags` with the value labelled `label` appended under `key`, when the page has one.
pub open spec fn with_labeled_tag(html: Seq<char>, tags: TagEntries, label: Seq<char>, key: Seq<char>) -> Result<TagEntries, FicDataErrorView> {
    match labeled_dd(html, label) {
        Err(e) => Err(e),
        Ok(None) => Ok(tags),
        Ok(Some(v)) => Ok(push_value_entry(tags, key, v)),
    }
}

/// The tags of the page: its tag groups, then its labelled rating, archive
/// warning and fandom.
pub open spec fn tags_of_page(html: Seq<char>) -> Result<TagEntries, FicDataErrorView> {
    match with_tag_groups(html, TagEntries::empty(), tag_groups()) {
        Err(e) => Err(e),
        Ok(t1) => match with_labeled_tag(html, t1, "Rating"@, "rating"@) {
            Err(e) => Err(e),
            Ok(t2) => match with_labeled_tag(html, t2, "Archive Warning"@, "warnings"@) {
                Err(e) => Err(e),
                Ok(t3) => with_labeled_tag(html, t3, "Fandom"@, "fandoms"@),
            },
        },
    }
}

/// Stores the tags of the page's group `css_group` under `output_key`, when the page has any.
pub fn insert_tag_group(html: &str, tags: &mut TagMap, css_group: &str, output_key: &str) -> (r: Result<(), FicDataError>)
    ensures
        match r {
            Ok(_) => with_tag_group(html@, old(tags)@, css_group@, output_key@) == Ok::<_, FicDataErrorView>(final(tags)@),
            Err(e) => with_tag_group(html@, old(tags)@, css_group@, output_key@) == Err::<TagEntries, _>(e@),
        },
{
    let mut selector = String::new();
    push_str(&mut selector, "dd.");
    push_str(&mut selector, css_group);
    push_str(&mut selector, ".tags a.tag, dd.");
    push_str(&mut selector, css_group);
    push_str(&mut selector, " a.tag");
    assert(selector@ =~= tag_group_selector(css_group@));
    let values = collect_text(html, selector.as_str())?;
    if values.len() > 0 {
        tags.insert(String::from_str(output_key), values);
    }
    Ok(())
}

fn insert_labeled_tag(html: &str, tags: &mut TagMap, label: &str, key: &str) -> (r: Result<(), FicDataError>)
    ensures
        match r {
            Ok(_) => with_labeled_tag(html@, old(tags)@, label@, key@) == Ok::<_, FicDataErrorView>(final(tags)@),
            Err(e) => with_labeled_tag(html@, old(tags)@, label@, key@) == Err::<TagEntries, _>(e@),
        },
{
    if let Some(value) = parse_labeled_dd(html, label)? {
        tags.push_value(String::from_str(key), value);
    }
    Ok(())
}

/// Collects the tags of the page `html`: its tag groups, then its labelled
/// rating, archive warning and fandom.
pub fn page_tags(html: &str) -> (r: Result<TagMap, FicDataError>)
    ensures
        match r {
            Ok(t) => tags_of_page(html@) == Ok::<_, FicDataErrorView>(t@),
            Err(e) => tags_of_page(html@) == Err::<TagEntries, _>(e@),
        },
{
    let groups = [
        ("rating", "rating"),
        ("warning", "warnings"),
        ("category", "categories"),
        ("fandom", "fandoms"),
        ("relationship", "relationships"),
        ("character", "characters"),
        ("freeform", "freeforms"),
    ];
    let ghost gs = tag_groups();
    let mut tags = TagMap::new();
    assert(gs.skip(0) =~= gs);
    for i in 0..7
        invariant
            groups@.len() == 7,
            gs == tag_groups(),
            forall|k: int| 0 <= k < 7 ==> #[trigger] groups@[k].0@ == gs[k].0 && groups@[k].1@ == gs[k].1,
            with_tag_groups(html@, TagEntries::empty(), gs) == with_tag_groups(html@, tags@, gs.skip(i as int)),
    {
        let ghost rest = gs.skip(i as int);
        assert(rest.skip(1) =~= gs.skip(i + 1));
        assert(rest[0] == gs[i as int]);
        let (css_group, key) = groups[i];
        insert_tag_group(html, &mut tags, css_group, key)?;
    }
    assert(gs.skip(7) =~= Seq::<(Seq<char>, Seq<char>)>::empty());
    insert_labeled_tag(html, &mut tags, "Rating", "rating")?;
    insert_labeled_tag(html, &mut tags, "Archive Warning", "warnings")?;
    insert_labeled_tag(html, &mut tags, "Fandom", "fandoms")?;
    Ok(tags)
}

/// The selector of the summary.
pub open spec fn summary_selector() -> Seq<char> {
    "blockquote.userstuff.summary, .summary blockquote.userstuff, blockquote.summary, #preface .meta blockquote.userstuff"@
}

/// The selector of the author links.
pub open spec fn authors_selector() -> Seq<char> {
    "a[rel='author'], h2.byline a"@
}

/// The selector of the series links.
pub open spec fn series_selector() -> Seq<char> {
    "dd.series a, li.series a"@
}

/// `a` when it is present, `b` otherwise.
pub open spec fn or_opt<T>(a: Option<T>, b: Option<T>) -> Option<T> {
    match a {
        Some(x) => Some(x),
        None => b,
    }
}

/// The value of statistic `key` in the labelled statistics `stats`, when both
/// are present; a failure to look it up counts as absence.
pub open spec fn lenient_stats_value(stats: Option<Seq<char>>, key: Seq<char>) -> Option<Seq<char>> {
    match stats {
        None => None,
        Some(v) => match stats_value(v, key) {
            Ok(x) => x,
            Err(_) => None,
        },
    }
}

/// The values read from a page, from which its metadata is assembled.
pub struct PageFields {
    pub id: String,
    pub url: String,
    pub name: String,
    pub last_updated: String,
    pub tags: TagMap,
    /// The text of the summary, if any.
    pub description: Option<String>,
    pub authors: Vec<String>,
    /// The language element's text.
    pub language: Option<String>,
    /// The value labelled `Language`.
    pub labeled_language: Option<String>,
    /// The chapters element's text.
    pub chapters: Option<String>,
    /// The `Chapters` statistic of the labelled statistics.
    pub stats_chapters: Option<String>,
    pub kudos: Option<String>,
    /// The words element's text.
    pub words: Option<String>,
    /// The `Words` statistic of the labelled statistics.
    pub stats_words: Option<String>,
    pub hits: Option<String>,
    pub series: Vec<String>,
}

/// The abstract content of [`PageFields`].
pub struct PageFieldsView {
    pub id: Seq<char>,
    pub url: Seq<char>,
    pub name: Seq<char>,
    pub last_updated: Seq<char>,
    pub tags: TagEntries,
    pub description: Option<Seq<char>>,
    pub authors: Seq<Seq<char>>,
    pub language: Option<Seq<char>>,
    pub labeled_language: Option<Seq<char>>,
    pub chapters: Option<Seq<char>>,
    pub stats_chapters: Option<Seq<char>>,
    pub kudos: Option<Seq<char>>,
    pub words: Option<Seq<char>>,
    pub stats_words: Option<Seq<char>>,
    pub hits: Option<Seq<char>>,
    pub series: Seq<Seq<char>>,
}

impl View for PageFields {
    type V = PageFieldsView;

    open spec fn view(&self) -> PageFieldsView {
        PageFieldsView {
            id: self.id@,
            url: self.url@,
            name: self.name@,
            last_updated: self.last_updated@,
            tags: self.tags@,
            description: opt_view(self.description),
            authors: strings_view(self.authors@),
            language: opt_view(self.language),
            labeled_language: opt_view(self.labeled_language),
            chapters: opt_view(self.chapters),
            stats_chapters: opt_view(self.stats_chapters),
            kudos: opt_view(self.kudos),
            words: opt_view(self.words),
            stats_words: opt_view(self.stats_words),
            hits: opt_view(self.hits),
            series: strings_view(self.series@),
        }
    }
}

/// The metadata assembled from the values `f` read from a page: a missing
/// summary is empty; the fandoms and relationship categories are the tags of
/// categories `fandoms` and `categories`; the language falls back on the
/// labelled language, the chapters on the `Chapters` statistic, the words on
/// the `Words` statistic; kudos, words and hits are read as numbers (commas
/// ignored, anything else unreadable giving none); the version is 0.
pub open spec fn assembled_metadata(f: PageFieldsView) -> FicMetadataView {
    FicMetadataView {
        tags: f.tags,
        description: match f.description {
            Some(d) => d,
            None => Seq::empty(),
        },
        authors: f.authors,
        fandom: tags_of(f.tags, "fandoms"@),
        ship_type: tags_of(f.tags, "categories"@),
        language: or_opt(f.language, f.labeled_language),
        chapters: or_opt(f.chapters, f.stats_chapters),
        kudos: parsed_number(f.kudos),
        words: or_opt(parsed_number(f.words), parsed_number(f.stats_words)),
        series: f.series,
        hits: parsed_number(f.hits),
        ..new_metadata_view(f.id, f.name, f.url, f.last_updated)
    }
}

/// Assembles the metadata of a page from the values read from it.
pub fn assemble_metadata(fields: PageFields) -> (m: FicMetadata)
    ensures
        m@ == assembled_metadata(fields@),
{
    let fandom = crate::metadata::safe_get_hash(&fields.tags, "fandoms");
    let ship_type = crate::metadata::safe_get_hash(&fields.tags, "categories");
    let description = match fields.description {
        Some(d) => d,
        None => String::new(),
    };
    let language = match fields.language {
        Some(l) => Some(l),
        None => fields.labeled_language,
    };
    let chapters = match fields.chapters {
        Some(c) => Some(c),
        None => fields.stats_chapters,
    };
    let kudos = parse_number(fields.kudos);
    let words = match parse_number(fields.words) {
        Some(w) => Some(w),
        None => parse_number(fields.stats_words),
    };
    let hits = parse_number(fields.hits);
    FicMetadata::new(fields.id, fields.name, fields.url, fields.last_updated).with_tags(
        fields.tags,
    ).with_description(description).with_authors(fields.authors).with_fandom(fandom).with_ship_type(
        ship_type,
    ).with_language(language).with_chapters(chapters).with_kudos(kudos).with_words(words).with_series(
        fields.series,
    ).with_hits(hits)
}

/// The metadata that the page `html` describes, gathered field by field in
/// this order: id and URL, title, update date, tags, summary, authors,
/// labelled statistics, language, chapters, kudos, words, hits and series;
/// the first failure is the result. The fandoms and relationship categories
/// are the tags of categories `fandoms` and `categories`; the language, chapter
/// and word information falls back on the labelled values and statistics.
pub open spec fn extracted_metadata(html: Seq<char>) -> Result<FicMetadataView, FicDataErrorView> {
    match id_and_url(html) {
        Err(e) => Err(e),
        Ok((id, url)) => match title_of(html) {
            Err(e) => Err(e),
            Ok(name) => match last_updated_of(html) {
                Err(e) => Err(e),
                Ok(last_updated) => match tags_of_page(html) {
                    Err(e) => Err(e),
                    Ok(tags) => match selected_first_text(html, summary_selector()) {
                        Err(e) => Err(e),
                        Ok(description) => match selected_texts(html, authors_selector()) {
                            Err(e) => Err(e),
                            Ok(authors) => match labeled_dd(html, "Stats"@) {
                                Err(e) => Err(e),
                                Ok(stats) => match selected_first_text(html, "dd.language"@) {
                                    Err(e) => Err(e),
                                    Ok(language) => match labeled_dd(html, "Language"@) {
                                        Err(e) => Err(e),
                                        Ok(labeled_language) => match selected_first_text(html, "dd.chapters"@) {
                                            Err(e) => Err(e),
                                            Ok(chapters) => match selected_first_text(html, "dd.kudos"@) {
                                                Err(e) => Err(e),
                                                Ok(kudos) => match selected_first_text(html, "dd.words"@) {
                                                    Err(e) => Err(e),
                                                    Ok(words) => match selected_first_text(html, "dd.hits"@) {
                                                        Err(e) => Err(e),
                                                        Ok(hits) => match selected_texts(html, series_selector()) {
                                                            Err(e) => Err(e),
                                                            Ok(series) => Ok(
                                                                assembled_metadata(
                                                                    PageFieldsView {
                                                                        id,
                                                                        url,
                                                                        name,
                                                                        last_updated,
                                                                        tags,
                                                                        description,
                                                                        authors,
                                                                        language,
                                                                        labeled_language,
                                                                        chapters,
                                                                        stats_chapters: lenient_stats_value(stats, "Chapters"@),
                                                                        kudos,
                                                                        words,
                                                                        stats_words: lenient_stats_value(stats, "Words"@),
                                                                        hits,
                                                                        series,
                                                                    },
                                                                ),
                                                            ),
                                                        },
                                                    },
                                                },
                                            },
                                        },
                                    },
                                },
                            },
                        },
                    },
                },
            },
        },
    }
}

fn lenient_stats(stats: &Option<String>, key: &str) -> (r: Option<String>)
    ensures
        opt_view(r) == lenient_stats_value(opt_view(*stats), key@),
{
    match stats {
        None => None,
        Some(v) => match parse_stats_value(v.as_str(), key) {
            Ok(x) => x,
            Err(_) => None,
        },
    }
}

/// Extracts fic metadata from the contents of a downloaded AO3 HTML page.
///
/// This is meant for offline recovery, when a fic has been removed from AO3
/// but an HTML download of it still exists. The version of the result is 0.
pub fn extract_metadata_from_downloaded_html(html: &str) -> (r: Result<FicMetadata, FicDataError>)
    ensures
        match r {
            Ok(m) => extracted_metadata(html@) == Ok::<_, FicDataErrorView>(m@),
            Err(e) => extracted_metadata(html@) == Err::<FicMetadataView, _>(e@),
        },
{
    let (id, url) = parse_id_and_url(html)?;
    let name = parse_title(html)?;
    let last_updated = parse_last_updated(html)?;
    let tags = page_tags(html)?;
    let description = first_text(
        html,
        "blockquote.userstuff.summary, .summary blockquote.userstuff, blockquote.summary, #preface .meta blockquote.userstuff",
    )?;
    let authors = collect_text(html, "a[rel='author'], h2.byline a")?;
    let stats = parse_labeled_dd(html, "Stats")?;
    let language = first_text(html, "dd.language")?;
    let labeled_language = parse_labeled_dd(html, "Language")?;
    let chapters = first_text(html, "dd.chapters")?;
    let kudos = first_text(html, "dd.kudos")?;
    let words = first_text(html, "dd.words")?;
    let hits = first_text(html, "dd.hits")?;
    let series = collect_text(html, "dd.series a, li.series a")?;
    let stats_chapters = lenient_stats(&stats, "Chapters");
    let stats_words = lenient_stats(&stats, "Words");
    Ok(
        assemble_metadata(
            PageFields {
                id,
                url,
                name,
                last_updated,
                tags,
                description,
                authors,
                language,
                labeled_language,
                chapters,
                stats_chapters,
                kudos,
                words,
                stats_words,
                hits,
                series,
            },
        ),
    )
}


/// A text as extraction yields it: not empty, and whitespace-normalised.
pub open spec fn is_clean_text(t: Seq<char>) -> bool {
    t.len() > 0 && normalized(t) == t
}

/// Every text of `ts` is clean.
pub open spec fn all_clean(ts: Seq<Seq<char>>) -> bool {
    forall|j: int| 0 <= j < ts.len() ==> is_clean_text(#[trigger] ts[j])
}

/// Every tag value of every category of `tags` is clean.
pub open spec fn tags_clean(tags: TagEntries) -> bool {
    forall|i: int| 0 <= i < tags.len() ==> all_clean(#[trigger] tags[i].1)
}

proof fn lemma_nonempty_texts_clean(nodes: Seq<Seq<Seq<char>>>)
    ensures
        all_clean(nonempty_texts(nodes)),
    decreases nodes.len(),
{
    if nodes.len() > 0 {
        lemma_nonempty_texts_clean(nodes.drop_last());
        let r = nonempty_texts(nodes.drop_last());
        let t = node_text(nodes.last());
        law_normalized_idempotent(join(nodes.last(), seq![' ']));
        if t.len() > 0 {
            assert forall|j: int| 0 <= j < r.push(t).len() implies is_clean_text(#[trigger] r.push(t)[j]) by {
                if j < r.len() {
                    assert(r.push(t)[j] == r[j]);
                }
            }
        }
    }
}

proof fn lemma_lookup_clean(tags: TagEntries, key: Seq<char>)
    requires
        tags_clean(tags),
    ensures
        all_clean(tags_of(tags, key)),
    decreases tags.len(),
{
    if tags.len() > 0 {
        assert(all_clean(tags[tags.len() - 1].1));
        let pre = tags.drop_last();
        assert forall|i: int| 0 <= i < pre.len() implies all_clean(#[trigger] pre[i].1) by {
            assert(pre[i] == tags[i]);
            assert(all_clean(tags[i].1));
        }
        lemma_lookup_clean(pre, key);
    }
}

proof fn lemma_insert_clean(tags: TagEntries, key: Seq<char>, values: Seq<Seq<char>>)
    requires
        tags_clean(tags),
        all_clean(values),
    ensures
        tags_clean(insert_entry(tags, key, values)),
{
    lemma_index_of_key(tags, key);
    let r = insert_entry(tags, key, values);
    assert forall|i: int| 0 <= i < r.len() implies all_clean(#[trigger] r[i].1) by {
        if i < tags.len() && i != index_of_key(tags, key) {
            assert(r[i] == tags[i]);
            assert(all_clean(tags[i].1));
        }
    }
}

proof fn lemma_push_value_clean(tags: TagEntries, key: Seq<char>, value: Seq<char>)
    requires
        tags_clean(tags),
        is_clean_text(value),
    ensures
        tags_clean(push_value_entry(tags, key, value)),
{
    lemma_lookup_clean(tags, key);
    let current = tags_of(tags, key);
    assert forall|j: int| 0 <= j < current.push(value).len() implies is_clean_text(#[trigger] current.push(value)[j]) by {
        if j < current.len() {
            assert(current.push(value)[j] == current[j]);
        }
    }
    lemma_insert_clean(tags, key, current.push(value));
}

proof fn lemma_labeled_dd_clean(html: Seq<char>, label: Seq<char>)
    ensures
        labeled_dd(html, label) matches Ok(Some(v)) ==> is_clean_text(v),
{
    if let Ok(Some(g)) = captured_group(labeled_dd_pattern(label), html, 1) {
        if let Ok(t) = regex_replaced_all(tag_pattern(), g, " "@) {
            law_normalized_idempotent(t);
        }
    }
}

proof fn lemma_tag_groups_clean(html: Seq<char>, tags: TagEntries, groups: Seq<(Seq<char>, Seq<char>)>)
    requires
        tags_clean(tags),
    ensures
        with_tag_groups(html, tags, groups) matches Ok(t) ==> tags_clean(t),
    decreases groups.len(),
{
    if groups.len() > 0 {
        let sel = tag_group_selector(groups[0].0);
        if let Ok(nodes) = scraper_selected_text(html, sel) {
            lemma_nonempty_texts_clean(nodes);
            let values = nonempty_texts(nodes);
            if values.len() > 0 {
                lemma_insert_clean(tags, groups[0].1, values);
            }
            let t = if values.len() > 0 {
                insert_entry(tags, groups[0].1, values)
            } else {
                tags
            };
            lemma_tag_groups_clean(html, t, groups.skip(1));
        }
    }
}

proof fn lemma_labeled_tag_clean(html: Seq<char>, tags: TagEntries, label: Seq<char>, key: Seq<char>)
    requires
        tags_clean(tags),
    ensures
        with_labeled_tag(html, tags, label, key) matches Ok(t) ==> tags_clean(t),
{
    lemma_labeled_dd_clean(html, label);
    if let Ok(Some(v)) = labeled_dd(html, label) {
        lemma_push_value_clean(tags, key, v);
    }
}

/// Law: every text of extracted metadata that comes from a list of page
/// elements (each tag value, each author, each fandom and relationship
/// category, each series) is non-empty and whitespace-normalised.
pub proof fn law_extracted_texts_clean(html: Seq<char>)
    requires
        extracted_metadata(html) is Ok,
    ensures
        tags_clean(extracted_metadata(html)->Ok_0.tags),
        all_clean(extracted_metadata(html)->Ok_0.authors),
        all_clean(extracted_metadata(html)->Ok_0.fandom),
        all_clean(extracted_metadata(html)->Ok_0.ship_type),
        all_clean(extracted_metadata(html)->Ok_0.series),
{
    let empty = TagEntries::empty();
    lemma_tag_groups_clean(html, empty, tag_groups());
    let t1 = with_tag_groups(html, empty, tag_groups())->Ok_0;
    lemma_labeled_tag_clean(html, t1, "Rating"@, "rating"@);
    let t2 = with_labeled_tag(html, t1, "Rating"@, "rating"@)->Ok_0;
    lemma_labeled_tag_clean(html, t2, "Archive Warning"@, "warnings"@);
    let t3 = with_labeled_tag(html, t2, "Archive Warning"@, "warnings"@)->Ok_0;
    lemma_labeled_tag_clean(html, t3, "Fandom"@, "fandoms"@);
    let tags = tags_of_page(html)->Ok_0;
    lemma_lookup_clean(tags, "fandoms"@);
    lemma_lookup_clean(tags, "categories"@);
    lemma_nonempty_texts_clean(scraper_selected_text(html, authors_selector())->Ok_0);
    lemma_nonempty_texts_clean(scraper_selected_text(html, series_selector())->Ok_0);
}


/// Whether the first element that `selector` selects in `html` has a text
/// holding a `YYYY-MM-DD` date, that date being `d`.
pub open spec fn shows_date(html: Seq<char>, selector: Seq<char>, d: Seq<char>) -> bool {
    exists|t: Seq<char>| selected_first_text(html, selector) == Ok::<_, FicDataErrorView>(Some(t)) && #[trigger] date_in(t)
        == Ok::<_, FicDataErrorView>(Some(d))
}

/// Whether the first element that `selector` selects in `html`, if any,
/// shows no date (and selecting and matching raise no error).
pub open spec fn shows_no_date(html: Seq<char>, selector: Seq<char>) -> bool {
    ||| selected_first_text(html, selector) == Ok::<_, FicDataErrorView>(None::<Seq<char>>)
    ||| exists|t: Seq<char>| selected_first_text(html, selector) == Ok::<_, FicDataErrorView>(Some(t)) && #[trigger] date_in(t)
        == Ok::<_, FicDataErrorView>(None::<Seq<char>>)
}

/// Law: the update date of a page is the date shown by its status element
/// (`dd.status`), whatever its publication element shows; without one, the
/// date of its update element (`dd.updated`); without either, the date of its
/// publication element (`dd.published`). Extracted metadata carries that date.
pub proof fn law_update_date_precedence(html: Seq<char>, d: Seq<char>)
    ensures
        shows_date(html, "dd.status"@, d) ==> last_updated_of(html) == Ok::<_, FicDataErrorView>(d),
        shows_no_date(html, "dd.status"@) && shows_date(html, "dd.updated"@, d) ==> last_updated_of(html)
            == Ok::<_, FicDataErrorView>(d),
        shows_no_date(html, "dd.status"@) && shows_no_date(html, "dd.updated"@) && shows_date(
            html,
            "dd.published"@,
            d,
        ) ==> last_updated_of(html) == Ok::<_, FicDataErrorView>(d),
        extracted_metadata(html) matches Ok(m) ==> last_updated_of(html) == Ok::<_, FicDataErrorView>(m.last_updated),
{
    let s0 = date_selectors();
    let s1 = s0.skip(1);
    let s2 = s1.skip(1);
    assert(s0[0] == "dd.status"@);
    assert(s1 =~= seq!["dd.updated"@, "dd.published"@, "li.stats dd"@]);
    assert(s1[0] == "dd.updated"@);
    assert(s2 =~= seq!["dd.published"@, "li.stats dd"@]);
    assert(s2[0] == "dd.published"@);
    reveal_with_fuel(date_from_selectors, 4);
}

} // verus!
