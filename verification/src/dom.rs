//! The outside boundary: one trusted scan that turns a page body and an
//! anchor into the raw rows of the matching table region, and one trusted
//! clock read. The scan's result is a pure function of the page text and the
//! anchor, so it carries a name that the pipeline's contracts can speak of;
//! neither wrapper is trusted with any of the pipeline's own rules.

use vstd::prelude::*;
use crate::cells::{RawCell, RawCellV};

verus! {

/// What the document scan yields for one page body and one anchor: the raw
/// rows of the first region matching the anchor — per row (`tr`) the cells
/// (`td`), and per cell its concatenated text and the `href` of its first
/// embedded hyperlink — or nothing when the page has no such region. The
/// scan is a function of the page text and the anchor alone.
pub uninterp spec fn page_region_rows(page: Seq<char>, anchor: Seq<char>) -> Option<
    Seq<Seq<RawCellV>>,
>;

/// Relies on scraper's Html::parse_document, Selector::parse, select, text
/// and attr: parses the page, selects the first region matching `anchor`,
/// and collects per row (`tr`) and cell (`td`) the cell's text and the
/// target of its first hyperlink (`a`), all in document order. Yields
/// nothing when no region matches (or the anchor is not valid selector
/// text); the result depends on the page text and the anchor alone.
#[verifier::external_body]
pub(crate) fn scan_region(page: &str, anchor: &str) -> (r: Option<Vec<Vec<RawCell>>>)
    ensures
        r.deep_view() == page_region_rows(page@, anchor@),
{
    let doc = scraper::Html::parse_document(page);
    let parse = scraper::Selector::parse;
    let sel = parse(anchor).ok()?;
    let (tr, td, a) = (parse("tr").ok()?, parse("td").ok()?, parse("a").ok()?);
    let region = doc.select(&sel).next()?;
    let mut rows = Vec::new();
    for row in region.select(&tr) {
        let mut cells = Vec::new();
        for c in row.select(&td) {
            cells.push(RawCell { text: c.text().collect(), link: c.select(&a).next().and_then(|l| l.attr("href")).map(str::to_owned) });
        }
        rows.push(cells);
    }
    Some(rows)
}

/// Relies on std's SystemTime::now and duration_since: the current time as
/// whole seconds since the Unix epoch, or nothing when the host clock reads
/// before the epoch. Nothing is assumed of the returned instant.
#[verifier::external_body]
pub(crate) fn now_unix_seconds() -> Option<u64> {
    match std::time::SystemTime::now().duration_since(std::time::UNIX_EPOCH) {
        Ok(d) => Some(d.as_secs()),
        Err(_) => None,
    }
}

} // verus!
