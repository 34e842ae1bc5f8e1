use alfred_tailwindcss_docs::html::{decode_html_text, legacy_numeric_reference};

fn chars(text: &str) -> Vec<char> {
    text.chars().collect()
}

#[test]
fn decimal_reference_is_decoded() {
    assert_eq!(decode_html_text("Tom &#38; Jerry"), "Tom & Jerry");
}

#[test]
fn hex_reference_is_decoded() {
    assert_eq!(decode_html_text("a&#x3C;b"), "a<b");
}

#[test]
fn uppercase_hex_reference_is_kept() {
    assert_eq!(decode_html_text("a&#X3C;b"), "a&#X3C;b");
}

#[test]
fn unterminated_reference_is_kept() {
    assert_eq!(decode_html_text("a&#38 b"), "a&#38 b");
}

#[test]
fn reference_to_no_character_is_kept() {
    assert_eq!(decode_html_text("x&#xD800;y"), "x&#xD800;y");
    assert_eq!(decode_html_text("x&#99999999999;y"), "x&#99999999999;y");
}

#[test]
fn named_entities_are_decoded_by_htmlize() {
    assert_eq!(decode_html_text("Docs &amp; Guides &lt;3"), "Docs & Guides <3");
}

#[test]
fn text_without_ampersand_is_unchanged() {
    assert_eq!(decode_html_text("plain > text"), "plain > text");
}

#[test]
fn marker_without_digits_is_left_to_htmlize() {
    assert_eq!(decode_html_text("&#; &amp;"), "&#; &");
}

#[test]
fn legacy_numeric_reference_reads_references() {
    let text = chars("a&#65;b");
    assert_eq!(legacy_numeric_reference(&text, 1), Some((6, Some('A'))));

    let text = chars("&#x41");
    assert_eq!(legacy_numeric_reference(&text, 0), Some((5, None)));

    let text = chars("&#X41;");
    assert_eq!(legacy_numeric_reference(&text, 0), Some((6, None)));

    let text = chars("&#;");
    assert_eq!(legacy_numeric_reference(&text, 0), None);

    let text = chars("&#");
    assert_eq!(legacy_numeric_reference(&text, 0), None);

    let text = chars("&#xg;");
    assert_eq!(legacy_numeric_reference(&text, 0), None);

    let text = chars("&#4294967296;");
    assert_eq!(legacy_numeric_reference(&text, 0), Some((13, None)));
}

#[test]
fn decimal_reference_to_any_character_decodes_to_it() {
    for character in ['©', '€', '😀', 'A', '\u{FFFD}'] {
        let text = format!("&#{};", character as u32);
        assert_eq!(decode_html_text(&text), character.to_string());
    }
}
