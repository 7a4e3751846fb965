//! The calls into `scraper` (HTML parsing and CSS selection) and `regex`
//! (regular expressions) that metadata extraction makes.
//!
//! What these crates compute takes pages to state, and depends on their
//! arguments alone, so each call's result is given a name below; the
//! contracts of the extraction functions are stated over these names.
use vstd::prelude::*;
use crate::metadata::opt_view;
use crate::tag_map::strings_view;

verus! {

/// What `scraper` selects with the CSS selector `selector` in the HTML document
/// `html`: for each selected element, in document order, the pieces of text
/// that its `text()` yields; or the message of the error that `Selector::parse`
/// reports for `selector`.
pub uninterp spec fn scraper_selected_text(html: Seq<char>, selector: Seq<char>) -> Result<Seq<Seq<Seq<char>>>, Seq<char>>;

/// What `scraper` selects with the CSS selector `selector` in the HTML document
/// `html`: for each selected element, in document order, the value of its
/// attribute `attr` if it has one; or the message of the error that
/// `Selector::parse` reports for `selector`.
pub uninterp spec fn scraper_selected_attr(html: Seq<char>, selector: Seq<char>, attr: Seq<char>) -> Result<Seq<Option<Seq<char>>>, Seq<char>>;

/// What `regex` finds in `text` with the pattern `pattern`: `None` when
/// `Regex::captures` finds no match; otherwise, for each capture group of the
/// leftmost-first match in order (group 0 being the whole match), the matched
/// text, or nothing for a group that did not take part; or the message of the
/// error that `Regex::new` reports for `pattern`.
pub uninterp spec fn regex_captures(pattern: Seq<char>, text: Seq<char>) -> Result<Option<Seq<Option<Seq<char>>>>, Seq<char>>;

/// What `Regex::replace_all` gives for `text` with `pattern` and the
/// replacement `rep`; or the message of the error that `Regex::new` reports.
pub uninterp spec fn regex_replaced_all(pattern: Seq<char>, text: Seq<char>, rep: Seq<char>) -> Result<Seq<char>, Seq<char>>;

/// The characters that `regex::escape` escapes (`regex_syntax::is_meta_character`).
pub open spec fn is_regex_meta(c: char) -> bool {
    c == '\\' || c == '.' || c == '+' || c == '*' || c == '?' || c == '(' || c == ')' || c == '|'
        || c == '[' || c == ']' || c == '{' || c == '}' || c == '^' || c == '$' || c == '#'
        || c == '&' || c == '-' || c == '~'
}

/// `s` with a backslash before each of its regex meta characters.
pub open spec fn regex_escaped(s: Seq<char>) -> Seq<char>
    decreases s.len(),
{
    if s.len() == 0 {
        s
    } else {
        let pre = regex_escaped(s.drop_last());
        if is_regex_meta(s.last()) {
            pre.push('\\').push(s.last())
        } else {
            pre.push(s.last())
        }
    }
}

/// The abstract content of a list of selected elements' text pieces.
pub open spec fn nodes_view(v: Seq<Vec<String>>) -> Seq<Seq<Seq<char>>> {
    v.map_values(|n: Vec<String>| strings_view(n@))
}

/// The abstract content of a list of optional strings.
pub open spec fn opt_strings_seq_view(v: Seq<Option<String>>) -> Seq<Option<Seq<char>>> {
    v.map_values(|o: Option<String>| opt_view(o))
}

/// Parses `html` as a document with `scraper::Html::parse_document`, parses
/// `selector` with `scraper::Selector::parse`, and returns, for each element
/// that `Html::select` yields, the pieces of `ElementRef::text`.
/// Claimed: the result is `scraper_selected_text` of the two arguments.
#[verifier::external_body]
pub(crate) fn select_text_pieces(html: &str, selector: &str) -> (r: Result<Vec<Vec<String>>, String>)
    ensures
        match r {
            Ok(nodes) => scraper_selected_text(html@, selector@) == Ok::<_, Seq<char>>(nodes_view(nodes@)),
            Err(e) => scraper_selected_text(html@, selector@) == Err::<Seq<Seq<Seq<char>>>, _>(e@),
        },
{
    let document = scraper::Html::parse_document(html);
    let selector = scraper::Selector::parse(selector).map_err(|e| e.to_string())?;
    Ok(document.select(&selector).map(|node| node.text().map(|t| t.to_string()).collect()).collect())
}

/// Parses `html` and `selector` as [`select_text_pieces`] does and returns,
/// for each selected element, its attribute `attr` (`ElementRef::attr`).
/// Claimed: the result is `scraper_selected_attr` of the three arguments.
#[verifier::external_body]
pub(crate) fn select_attribute(html: &str, selector: &str, attr: &str) -> (r: Result<Vec<Option<String>>, String>)
    ensures
        match r {
            Ok(vals) => scraper_selected_attr(html@, selector@, attr@) == Ok::<_, Seq<char>>(opt_strings_seq_view(vals@)),
            Err(e) => scraper_selected_attr(html@, selector@, attr@) == Err::<Seq<Option<Seq<char>>>, _>(e@),
        },
{
    let document = scraper::Html::parse_document(html);
    let selector = scraper::Selector::parse(selector).map_err(|e| e.to_string())?;
    Ok(document.select(&selector).map(|node| node.value().attr(attr).map(|a| a.to_string())).collect())
}

/// Compiles `pattern` with `regex::Regex::new` and returns the capture groups
/// of `Regex::captures` on `text`.
/// Claimed: the result is `regex_captures` of the two arguments.
#[verifier::external_body]
pub(crate) fn captures(pattern: &str, text: &str) -> (r: Result<Option<Vec<Option<String>>>, String>)
    ensures
        match r {
            Ok(None) => regex_captures(pattern@, text@) == Ok::<_, Seq<char>>(None::<Seq<Option<Seq<char>>>>),
            Ok(Some(groups)) => regex_captures(pattern@, text@) == Ok::<_, Seq<char>>(Some(opt_strings_seq_view(groups@))),
            Err(e) => regex_captures(pattern@, text@) == Err::<Option<Seq<Option<Seq<char>>>>, _>(e@),
        },
{
    let re = regex::Regex::new(pattern).map_err(|e| e.to_string())?;
    Ok(re.captures(text).map(|c| c.iter().map(|m| m.map(|m| m.as_str().to_string())).collect()))
}

/// Compiles `pattern` with `regex::Regex::new` and replaces every match in
/// `text` with `rep` (`Regex::replace_all`).
/// Claimed: the result is `regex_replaced_all` of the three arguments.
#[verifier::external_body]
pub(crate) fn replace_all(pattern: &str, text: &str, rep: &str) -> (r: Result<String, String>)
    ensures
        match r {
            Ok(s) => regex_replaced_all(pattern@, text@, rep@) == Ok::<_, Seq<char>>(s@),
            Err(e) => regex_replaced_all(pattern@, text@, rep@) == Err::<Seq<char>, _>(e@),
        },
{
    let re = regex::Regex::new(pattern).map_err(|e| e.to_string())?;
    Ok(re.replace_all(text, rep).into_owned())
}

/// `regex::escape`, which (through `regex_syntax::escape_into`) copies `s`
/// character by character, putting a backslash before each meta character.
/// Claimed: the result is `regex_escaped(s)`.
#[verifier::external_body]
pub(crate) fn escape(s: &str) -> (r: String)
    ensures
        r@ == regex_escaped(s@),
{
    regex::escape(s)
}

} // verus!
