use receipt_ocr::extract::{
    extract_structured_data, parse_date, parse_merchant, parse_total, ExtractedData, OcrProcessor,
    OcrSource,
};

const GROCERY: &str = "Grocery Store\n01/02/2024\nMilk 2x1.50\nBread 2.00\nTOTAL: $5.00";

#[test]
fn total_from_indicator_line() {
    let p = OcrProcessor::new();
    assert_eq!(p.find_total_in_text("TOTAL: $42.99"), Some(4299));
}

#[test]
fn total_with_one_fractional_digit() {
    let p = OcrProcessor::new();
    assert_eq!(p.find_total_in_text("Amount due 7.5"), Some(750));
}

#[test]
fn total_strips_thousands_separators() {
    let p = OcrProcessor::new();
    assert_eq!(p.find_total_in_text("Total 1,234.56 THB"), Some(123456));
}

#[test]
fn total_thai_indicator() {
    let p = OcrProcessor::new();
    assert_eq!(p.find_total_in_text("ร้านกาแฟ\nรวมทั้งสิ้น 120.00 บาท"), Some(12000));
}

#[test]
fn total_indicator_line_wins_over_earlier_currency_amount() {
    let p = OcrProcessor::new();
    assert_eq!(p.find_total_in_text("Coffee ฿45.00\nTotal 90.00"), Some(9000));
}

#[test]
fn total_falls_back_to_first_currency_amount() {
    let p = OcrProcessor::new();
    assert_eq!(p.find_total_in_text("Coffee ฿45.00\nCake 60.00 บาท"), Some(4500));
}

#[test]
fn total_fallback_with_suffix_mark() {
    let p = OcrProcessor::new();
    assert_eq!(p.find_total_in_text("Cake 60.50 บาท"), Some(6050));
}

#[test]
fn total_absent_without_marks() {
    let p = OcrProcessor::new();
    assert_eq!(p.find_total_in_text("Cake 60.50"), None);
    assert_eq!(p.find_total_in_text(""), None);
}

#[test]
fn total_rejects_three_fractional_digits() {
    let p = OcrProcessor::new();
    assert_eq!(p.find_total_in_text("Total 1.234"), None);
}

#[test]
fn date_day_first() {
    let p = OcrProcessor::new();
    assert_eq!(p.find_date_in_text("Date 01/02/2024"), Some("2024-02-01".to_string()));
    assert_eq!(p.find_date_in_text("5-3-2023"), Some("2023-03-05".to_string()));
}

#[test]
fn date_year_first() {
    let p = OcrProcessor::new();
    assert_eq!(p.find_date_in_text("2023-7-4 10:00"), Some("2023-07-04".to_string()));
}

#[test]
fn date_era_adjustment() {
    let p = OcrProcessor::new();
    assert_eq!(p.find_date_in_text("15 มกราคม 2566"), Some("2023-01-15".to_string()));
}

#[test]
fn date_month_name_gregorian_year() {
    let p = OcrProcessor::new();
    assert_eq!(p.find_date_in_text("วันที่ 3 ธันวาคม 2024"), Some("2024-12-03".to_string()));
}

#[test]
fn date_out_of_range_rejected_not_clamped() {
    let p = OcrProcessor::new();
    assert_eq!(p.find_date_in_text("32/01/2024"), None);
    assert_eq!(p.find_date_in_text("10/13/2024"), None);
    assert_eq!(p.find_date_in_text("2024-00-10"), None);
    assert_eq!(p.find_date_in_text("32/01/2024\n11/01/2024"), Some("2024-01-11".to_string()));
}

#[test]
fn date_output_is_iso_shaped() {
    let p = OcrProcessor::new();
    for text in ["1/1/2020", "2021-12-31", "9 มีนาคม 2560", "31-12-1999"] {
        let d = p.find_date_in_text(text).unwrap();
        let b = d.as_bytes();
        assert_eq!(b.len(), 10);
        assert_eq!(b[4], b'-');
        assert_eq!(b[7], b'-');
        let month: u32 = d[5..7].parse().unwrap();
        let day: u32 = d[8..10].parse().unwrap();
        assert!((1..=12).contains(&month));
        assert!((1..=31).contains(&day));
    }
}

#[test]
fn merchant_by_indicator() {
    let p = OcrProcessor::new();
    assert_eq!(
        p.find_merchant_in_text("  \nReceipt no. 5\n  Sunny Cafe  \nTotal 9.00"),
        Some("Sunny Cafe".to_string())
    );
    assert_eq!(p.find_merchant_in_text("บริษัท ตัวอย่าง จำกัด\nx"), Some("บริษัท ตัวอย่าง จำกัด".to_string()));
}

#[test]
fn merchant_first_plain_line() {
    let p = OcrProcessor::new();
    assert_eq!(p.find_merchant_in_text("12/05/2024\n10:30\nJoe's Diner\nTotal 3.00"), Some("Joe's Diner".to_string()));
    assert_eq!(p.find_merchant_in_text("12/05/2024\n10:30\n1,234\nJoe's Diner"), None);
}

#[test]
fn items_with_and_without_quantity() {
    let p = OcrProcessor::new();
    let items = p.extract_items("Milk 2x1.50\nBread 2.00\nTea....95\nSubtotal 5.50\nTax 0.35\nX 1.00");
    assert_eq!(items.len(), 3);
    assert_eq!(items[0].name, "Milk");
    assert_eq!(items[0].price, Some(150));
    assert_eq!(items[0].quantity, Some(2));
    assert_eq!(items[1].name, "Bread");
    assert_eq!(items[1].price, Some(200));
    assert_eq!(items[1].quantity, Some(1));
    assert_eq!(items[2].name, "Tea");
    assert_eq!(items[2].price, Some(9500));
    assert_eq!(items[2].quantity, Some(1));
}

#[test]
fn items_star_quantity_and_zero_quantity() {
    let p = OcrProcessor::new();
    let items = p.extract_items("Eggs 3*2.25\nSoap 0x3.00");
    assert_eq!(items.len(), 1);
    assert_eq!(items[0].name, "Eggs");
    assert_eq!(items[0].price, Some(225));
    assert_eq!(items[0].quantity, Some(3));
}

#[test]
fn grocery_receipt_fields() {
    let d = extract_structured_data(GROCERY);
    assert_eq!(d.total, Some(500));
    assert_eq!(d.date, Some("2024-02-01".to_string()));
    assert_eq!(d.merchant, Some("Grocery Store".to_string()));
    assert_eq!(d.items.len(), 2);
    assert_eq!(d.items[0].name, "Milk");
    assert_eq!(d.items[0].price, Some(150));
    assert_eq!(d.items[0].quantity, Some(2));
    assert_eq!(d.items[1].name, "Bread");
    assert_eq!(d.items[1].price, Some(200));
    assert_eq!(d.items[1].quantity, Some(1));
    assert_eq!(d.source, OcrSource::Local);
}

#[test]
fn extraction_is_idempotent() {
    let a = extract_structured_data(GROCERY);
    let b = extract_structured_data(GROCERY);
    assert_eq!(a.total, b.total);
    assert_eq!(a.date, b.date);
    assert_eq!(a.merchant, b.merchant);
    assert_eq!(a.items.len(), b.items.len());
    for (x, y) in a.items.iter().zip(b.items.iter()) {
        assert_eq!(x.name, y.name);
        assert_eq!(x.price, y.price);
        assert_eq!(x.quantity, y.quantity);
    }
}

#[test]
fn crop_text_preferred_over_full_text() {
    let p = OcrProcessor::with_crop_texts(
        Some("TOTAL 8.00".to_string()),
        Some("Corner Shop\n2024-03-09".to_string()),
    );
    let d = p.process_local_text("Other Market\n01/01/2020\nTotal 1.00", 80);
    assert_eq!(d.total, Some(800));
    assert_eq!(d.merchant, Some("Corner Shop".to_string()));
    assert_eq!(d.date, Some("2024-03-09".to_string()));
    assert_eq!(d.confidence, 80);
}

#[test]
fn crop_without_match_falls_back_to_full_text() {
    let p = OcrProcessor::with_crop_texts(Some("nothing".to_string()), Some("10:30".to_string()));
    assert_eq!(p.extract_total("Total 1.00"), Some(100));
    assert_eq!(p.extract_merchant("Other Market"), Some("Other Market".to_string()));
    assert_eq!(p.extract_date("01/01/2020"), Some("2020-01-01".to_string()));
}

#[test]
fn cloud_extraction_ignores_crops() {
    let p = OcrProcessor::with_crop_texts(Some("TOTAL 8.00".to_string()), None);
    let d = p.process_google_vision("Total 1.00", 90);
    assert_eq!(d.total, Some(100));
    assert_eq!(d.source, OcrSource::Cloud);
    assert_eq!(d.confidence, 90);
}

#[test]
fn extracted_data_default_is_empty() {
    let d = ExtractedData::default();
    assert_eq!(d.total, None);
    assert!(d.items.is_empty());
    assert_eq!(d.confidence, 0);
}

#[test]
fn empty_text_has_no_fields() {
    let d = extract_structured_data("");
    assert_eq!(d.total, None);
    assert_eq!(d.date, None);
    assert_eq!(d.merchant, None);
    assert!(d.items.is_empty());
}

#[test]
fn parse_helpers_agree_with_processor() {
    assert_eq!(parse_total(GROCERY), Some(500));
    assert_eq!(parse_date(GROCERY), Some("2024-02-01".to_string()));
    assert_eq!(parse_merchant(GROCERY), Some("Grocery Store".to_string()));
}

#[test]
fn merchant_trims_unicode_white_space() {
    let p = OcrProcessor::new();
    assert_eq!(
        p.find_merchant_in_text("\u{a0}\u{3000}\n\u{a0}Sunny Cafe\u{3000}"),
        Some("Sunny Cafe".to_string())
    );
}

#[test]
fn items_accept_any_white_space_separator() {
    let p = OcrProcessor::new();
    let items = p.extract_items("Milk\t2.00\nBread\t 3.50");
    assert_eq!(items.len(), 2);
    assert_eq!(items[0].name, "Milk");
    assert_eq!(items[0].price, Some(200));
    assert_eq!(items[1].name, "Bread");
    assert_eq!(items[1].price, Some(350));
}

#[test]
fn date_english_month_names() {
    let p = OcrProcessor::new();
    assert_eq!(p.find_date_in_text("Jan 1, 2023"), Some("2023-01-01".to_string()));
    assert_eq!(p.find_date_in_text("Date: January 15th 2023"), Some("2023-01-15".to_string()));
    assert_eq!(p.find_date_in_text("Feb. 3 2024"), Some("2024-02-03".to_string()));
    assert_eq!(p.find_date_in_text("Jan 32, 2023"), None);
    assert_eq!(p.find_date_in_text("Mayday 3 2024"), Some("2024-05-03".to_string()));
    assert_eq!(p.find_date_in_text("XJan 3 2024"), None);
}

#[test]
fn date_thai_month_name_with_tabs() {
    let p = OcrProcessor::new();
    assert_eq!(p.find_date_in_text("15\tมกราคม\t2566"), Some("2023-01-15".to_string()));
}

#[test]
fn total_on_later_indicator_line() {
    let p = OcrProcessor::new();
    assert_eq!(p.find_total_in_text("Shop\nTotal: 12.50\nCash 20.00 บาท"), Some(1250));
    assert_eq!(p.find_total_in_text("Shop\nTotal due\nSum 7.25"), Some(725));
}
