use vstd::prelude::*;
use crate::text::{lines_of, chars_of, split_lines};
use crate::total::{total_of_lines, amount_view, total_in_lines};
use crate::date::{date_of_lines, date_text, date_view, date_in_lines_text};
use crate::merchant::{merchant_of_lines, text_view, merchant_in_lines};
use crate::items::{ItemData, ItemView, item_views, items_of_lines, items_in_lines};

verus! {

/// Which engine read the text.
#[derive(PartialEq, Eq, Structural, Clone, Copy, Debug)]
pub enum OcrSource {
    Local,
    Cloud,
}

/// The highest confidence, in percent.
pub const CONFIDENCE_MAX: u32 = 100;

/// The fields found on a receipt: total in hundredths, date as `YYYY-MM-DD`, merchant,
/// items in order; the confidence in percent and the engine that read the text.
pub struct ExtractedData {
    pub total: Option<u64>,
    pub date: Option<String>,
    pub merchant: Option<String>,
    pub items: Vec<ItemData>,
    pub confidence: u32,
    pub source: OcrSource,
}

/// The fields of a receipt over plain values: total, date, merchant, items.
pub type FieldsView = (Option<nat>, Option<Seq<char>>, Option<Seq<char>>, Seq<ItemView>);

/// The fields that the extractor finds in a receipt's text.
pub open spec fn fields_of_lines(ls: Seq<Seq<char>>) -> FieldsView {
    (total_of_lines(ls), date_text(date_of_lines(ls)), merchant_of_lines(ls), items_of_lines(ls))
}

pub open spec fn fields_of(text: Seq<char>) -> FieldsView {
    fields_of_lines(lines_of(text))
}

/// A field read from a crop of the image wins over the same field read from the whole.
pub open spec fn prefer<T>(crop: Option<T>, full: Option<T>) -> Option<T> {
    match crop {
        Some(v) => Some(v),
        None => full,
    }
}

/// The fields when the bottom crop's text is searched first for the total, and the top
/// crop's text first for the date and the merchant.
pub open spec fn fields_with_crops(
    text: Seq<char>,
    bottom: Option<Seq<char>>,
    top: Option<Seq<char>>,
) -> FieldsView {
    let full = fields_of(text);
    (
        match bottom {
            Some(b) => prefer(fields_of(b).0, full.0),
            None => full.0,
        },
        match top {
            Some(t) => prefer(fields_of(t).1, full.1),
            None => full.1,
        },
        match top {
            Some(t) => prefer(fields_of(t).2, full.2),
            None => full.2,
        },
        full.3,
    )
}

impl ExtractedData {
    pub open spec fn fields(&self) -> FieldsView {
        (amount_view(self.total), date_view(self.date), text_view(self.merchant), item_views(self.items@))
    }

    /// The confidence lies in 0..=100 percent.
    pub open spec fn wf(&self) -> bool {
        self.confidence <= CONFIDENCE_MAX
    }
}

impl Default for ExtractedData {
    fn default() -> (r: Self)
        ensures
            r.fields() == (None::<nat>, None::<Seq<char>>, None::<Seq<char>>, Seq::<ItemView>::empty()),
            r.confidence == 0,
            r.source == OcrSource::Local,
    {
        let r = ExtractedData {
            total: None,
            date: None,
            merchant: None,
            items: Vec::new(),
            confidence: 0,
            source: OcrSource::Local,
        };
        assert(item_views(r.items@) =~= Seq::<ItemView>::empty());
        r
    }
}

pub open spec fn opt_text(o: Option<String>) -> Option<Seq<char>> {
    match o {
        Some(s) => Some(s@),
        None => None,
    }
}

/// Turns the text that OCR read from a receipt into its fields. The text read from the
/// bottom and top crops of the image, where present, is searched first for the total
/// and for the date and merchant respectively.
pub struct OcrProcessor {
    pub bottom_text: Option<String>,
    pub top_text: Option<String>,
}

impl OcrProcessor {
    /// A processor with no crop text.
    pub fn new() -> (r: Self)
        ensures
            r.bottom_text is None,
            r.top_text is None,
    {
        OcrProcessor { bottom_text: None, top_text: None }
    }

    /// A processor that searches the given crop texts first.
    pub fn with_crop_texts(bottom_text: Option<String>, top_text: Option<String>) -> (r: Self)
        ensures
            opt_text(r.bottom_text) == opt_text(bottom_text),
            opt_text(r.top_text) == opt_text(top_text),
    {
        OcrProcessor { bottom_text, top_text }
    }

    /// The total in `text`, in hundredths.
    pub fn find_total_in_text(&self, text: &str) -> (r: Option<u64>)
        ensures
            amount_view(r) == fields_of(text@).0,
    {
        let ls = split_lines(&chars_of(text));
        total_in_lines(&ls)
    }

    /// The date in `text`, as `YYYY-MM-DD`.
    pub fn find_date_in_text(&self, text: &str) -> (r: Option<String>)
        ensures
            date_view(r) == fields_of(text@).1,
    {
        let ls = split_lines(&chars_of(text));
        date_in_lines_text(&ls)
    }

    /// The merchant in `text`.
    pub fn find_merchant_in_text(&self, text: &str) -> (r: Option<String>)
        ensures
            text_view(r) == fields_of(text@).2,
    {
        let ls = split_lines(&chars_of(text));
        merchant_in_lines(&ls)
    }

    /// The items in `text`, in order.
    pub fn extract_items(&self, text: &str) -> (r: Vec<ItemData>)
        ensures
            item_views(r@) == fields_of(text@).3,
    {
        let ls = split_lines(&chars_of(text));
        items_in_lines(&ls)
    }

    /// The total, from the bottom crop's text if it holds one, else from `text`.
    pub fn extract_total(&self, text: &str) -> (r: Option<u64>)
        ensures
            amount_view(r) == fields_with_crops(text@, opt_text(self.bottom_text), opt_text(self.top_text)).0,
    {
        match &self.bottom_text {
            Some(b) => {
                let t = self.find_total_in_text(b.as_str());
                if t.is_some() {
                    t
                } else {
                    self.find_total_in_text(text)
                }
            },
            None => self.find_total_in_text(text),
        }
    }

    /// The date, from the top crop's text if it holds one, else from `text`.
    pub fn extract_date(&self, text: &str) -> (r: Option<String>)
        ensures
            date_view(r) == fields_with_crops(text@, opt_text(self.bottom_text), opt_text(self.top_text)).1,
    {
        match &self.top_text {
            Some(t) => {
                let d = self.find_date_in_text(t.as_str());
                if d.is_some() {
                    d
                } else {
                    self.find_date_in_text(text)
                }
            },
            None => self.find_date_in_text(text),
        }
    }

    /// The merchant, from the top crop's text if it holds one, else from `text`.
    pub fn extract_merchant(&self, text: &str) -> (r: Option<String>)
        ensures
            text_view(r) == fields_with_crops(text@, opt_text(self.bottom_text), opt_text(self.top_text)).2,
    {
        match &self.top_text {
            Some(t) => {
                let m = self.find_merchant_in_text(t.as_str());
                if m.is_some() {
                    m
                } else {
                    self.find_merchant_in_text(text)
                }
            },
            None => self.find_merchant_in_text(text),
        }
    }

    /// The fields of `text`, crops first, with no confidence yet, as read locally.
    pub fn extract_data(&self, text: &str) -> (r: ExtractedData)
        ensures
            r.fields() == fields_with_crops(text@, opt_text(self.bottom_text), opt_text(self.top_text)),
            r.confidence == 0,
            r.source == OcrSource::Local,
    {
        self.process_local_text(text, 0)
    }

    /// The fields of text read by the local engine, crops first, with its confidence.
    pub fn process_local_text(&self, text: &str, confidence: u32) -> (r: ExtractedData)
        requires
            confidence <= CONFIDENCE_MAX,
        ensures
            r.fields() == fields_with_crops(text@, opt_text(self.bottom_text), opt_text(self.top_text)),
            r.confidence == confidence,
            r.source == OcrSource::Local,
            r.wf(),
    {
        ExtractedData {
            total: self.extract_total(text),
            date: self.extract_date(text),
            merchant: self.extract_merchant(text),
            items: self.extract_items(text),
            confidence,
            source: OcrSource::Local,
        }
    }

    /// The fields of text read by the cloud engine, from the whole text alone.
    pub fn process_google_vision(&self, text: &str, confidence: u32) -> (r: ExtractedData)
        requires
            confidence <= CONFIDENCE_MAX,
        ensures
            r.fields() == fields_of(text@),
            r.confidence == confidence,
            r.source == OcrSource::Cloud,
            r.wf(),
    {
        ExtractedData {
            total: self.find_total_in_text(text),
            date: self.find_date_in_text(text),
            merchant: self.find_merchant_in_text(text),
            items: self.extract_items(text),
            confidence,
            source: OcrSource::Cloud,
        }
    }
}

/// The fields of a receipt's text: total, date, merchant and items.
pub fn extract_structured_data(text: &str) -> (r: ExtractedData)
    ensures
        r.fields() == fields_of(text@),
        r.confidence == 0,
        r.source == OcrSource::Local,
{
    let p = OcrProcessor::new();
    p.extract_data(text)
}

/// The total in `text`, in hundredths.
pub fn parse_total(text: &str) -> (r: Option<u64>)
    ensures
        amount_view(r) == fields_of(text@).0,
{
    OcrProcessor::new().find_total_in_text(text)
}

/// The date in `text`, as `YYYY-MM-DD`.
pub fn parse_date(text: &str) -> (r: Option<String>)
    ensures
        date_view(r) == fields_of(text@).1,
{
    OcrProcessor::new().find_date_in_text(text)
}

/// The merchant in `text`.
pub fn parse_merchant(text: &str) -> (r: Option<String>)
    ensures
        text_view(r) == fields_of(text@).2,
{
    OcrProcessor::new().find_merchant_in_text(text)
}

/// Extraction depends on the text alone: reading the same text twice gives the same fields.
pub proof fn lemma_extraction_idempotent(a: ExtractedData, b: ExtractedData, text: Seq<char>)
    requires
        a.fields() == fields_of(text),
        b.fields() == fields_of(text),
    ensures
        a.fields() == b.fields(),
        a.total == b.total,
{
}

} // verus!
