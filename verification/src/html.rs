//! Reading values out of HTML pages with the `scraper` crate.

use vstd::prelude::*;

use crate::model::opt_view;

verus! {

/// A CSS selector that `scraper::Selector::parse` rejected.
#[derive(Debug, Clone, Copy, PartialEq, Eq, Structural)]
pub struct SelectorInvalid;

/// Whether `scraper::Selector::parse` accepts `selector`.
pub uninterp spec fn selector_valid(selector: Seq<char>) -> bool;

/// The text content of the first element of the parsed document `html` that
/// `selector` matches, in document order (`Html::select(..).next()` and
/// `ElementRef::text`); `None` when nothing matches.
pub uninterp spec fn first_match_text(html: Seq<char>, selector: Seq<char>) -> Option<Seq<char>>;

/// Parses `selector` (`scraper::Selector::parse`) and the document `html`
/// (`scraper::Html::parse_document`), and collects the text of the first
/// matching element. Claims: the selector error comes exactly when
/// `selector_valid` fails, and otherwise the text is `first_match_text`.
/// The parser's own error value is not passed on.
#[verifier::external_body]
pub(crate) fn select_first_text(html: &str, selector: &str) -> (r: Result<Option<String>, SelectorInvalid>)
    ensures
        r is Ok <==> selector_valid(selector@),
        r matches Ok(t) ==> opt_view(t) == first_match_text(html@, selector@),
{
    let sel = match scraper::Selector::parse(selector) {
        Ok(sel) => sel,
        Err(_) => return Err(SelectorInvalid),
    };
    let doc = scraper::Html::parse_document(html);
    Ok(doc.select(&sel).next().map(|el| el.text().collect()))
}

/// What one matched row holds: the text of the first element matching the
/// title selector inside it, the value of its flag attribute, and the value
/// of the name attribute of the first element matching the form selector
/// inside it.
#[derive(Debug, Clone)]
pub struct RowFields {
    pub title_text: Option<String>,
    pub flag: Option<String>,
    pub form_name: Option<String>,
}

/// The content of a [`RowFields`].
pub struct RowFieldsView {
    pub title_text: Option<Seq<char>>,
    pub flag: Option<Seq<char>>,
    pub form_name: Option<Seq<char>>,
}

impl View for RowFields {
    type V = RowFieldsView;

    open spec fn view(&self) -> RowFieldsView {
        RowFieldsView { title_text: opt_view(self.title_text), flag: opt_view(self.flag), form_name: opt_view(self.form_name) }
    }
}

/// The rows of the parsed document `html` matching `row`, in document order,
/// each reduced to its [`RowFields`] for the given title selector, form
/// selector and attribute names.
pub uninterp spec fn selected_rows(
    html: Seq<char>,
    row: Seq<char>,
    title: Seq<char>,
    form: Seq<char>,
    flag_attr: Seq<char>,
    name_attr: Seq<char>,
) -> Seq<RowFieldsView>;

/// Parses the three selectors and the document with `scraper`, and reduces
/// every element matching `row` to its title text, flag attribute and form
/// name. Claims: the selector error comes exactly when one of the three
/// selectors is rejected, and otherwise the rows are `selected_rows`.
#[verifier::external_body]
pub(crate) fn select_rows(html: &str, row: &str, title: &str, form: &str, flag_attr: &str, name_attr: &str) -> (r: Result<Vec<RowFields>, SelectorInvalid>)
    ensures
        r is Ok <==> (selector_valid(row@) && selector_valid(title@) && selector_valid(form@)),
        r matches Ok(v) ==> v@.map_values(|f: RowFields| f@) == selected_rows(html@, row@, title@, form@, flag_attr@, name_attr@),
{
    let (Ok(row), Ok(title), Ok(form)) = (scraper::Selector::parse(row), scraper::Selector::parse(title), scraper::Selector::parse(form)) else {
        return Err(SelectorInvalid);
    };
    let doc = scraper::Html::parse_document(html);
    Ok(doc.select(&row).map(|r| RowFields {
        title_text: r.select(&title).next().map(|t| t.text().collect()),
        flag: r.value().attr(flag_attr).map(String::from),
        form_name: r.select(&form).next().and_then(|f| f.value().attr(name_attr)).map(String::from),
    }).collect())
}

} // verus!
