use watchlistarr::models::ItemType;
use watchlistarr::plex::parse_watchlist;

const NOW: i64 = 1700000000;

#[test]
fn movie_record_is_normalised() {
    let xml = r#"<MediaContainer size="1"><Video ratingKey="123" title="Dune" year="2021" type="movie" guid="plex://movie/abc"/></MediaContainer>"#;
    let items = parse_watchlist(xml, NOW);
    assert_eq!(items.len(), 1);
    let it = &items[0].item;
    assert_eq!(it.id, "123");
    assert_eq!(it.title, "Dune");
    assert_eq!(it.year, Some(2021));
    assert!(matches!(it.item_type, ItemType::Movie));
    assert_eq!(it.guid.as_deref(), Some("plex://movie/abc"));
    assert_eq!(items[0].user_id, "self");
    assert_eq!(items[0].added_at, NOW);
    assert_eq!(it.imdb_id, None);
    assert_eq!(it.tmdb_id, None);
    assert_eq!(it.tvdb_id, None);
}

#[test]
fn show_record_is_normalised() {
    let xml = r#"<MediaContainer><Directory ratingKey="77" title="Severance" year="2022" type="show"/></MediaContainer>"#;
    let items = parse_watchlist(xml, NOW);
    assert_eq!(items.len(), 1);
    assert!(matches!(items[0].item.item_type, ItemType::Show));
    assert_eq!(items[0].item.id, "77");
    assert_eq!(items[0].item.title, "Severance");
}

#[test]
fn record_missing_identifier_is_dropped() {
    let xml = r#"<Video title="Dune" year="2021" type="movie"/>"#;
    assert_eq!(parse_watchlist(xml, NOW).len(), 0);
}

#[test]
fn record_missing_title_is_dropped() {
    let xml = r#"<Video ratingKey="123" year="2021" type="movie"/>"#;
    assert_eq!(parse_watchlist(xml, NOW).len(), 0);
}

#[test]
fn record_missing_kind_marker_is_dropped() {
    let xml = r#"<Video ratingKey="123" title="Dune" year="2021"/>"#;
    assert_eq!(parse_watchlist(xml, NOW).len(), 0);
}

#[test]
fn record_with_disagreeing_kind_marker_is_dropped() {
    let xml = r#"<Video ratingKey="123" title="Dune" type="show"/>"#;
    assert_eq!(parse_watchlist(xml, NOW).len(), 0);
}

#[test]
fn partial_records_do_not_hide_complete_ones() {
    let xml = r#"<Video title="NoKey" type="movie"/><Video ratingKey="9" title="Kept" type="movie"/><Directory ratingKey="10" type="show"/>"#;
    let items = parse_watchlist(xml, NOW);
    assert_eq!(items.len(), 1);
    assert_eq!(items[0].item.title, "Kept");
}

#[test]
fn attribute_order_does_not_matter() {
    let xml = r#"<Video type="movie" year="1999" title="The Matrix" ratingKey="42"/>"#;
    let items = parse_watchlist(xml, NOW);
    assert_eq!(items.len(), 1);
    assert_eq!(items[0].item.id, "42");
    assert_eq!(items[0].item.title, "The Matrix");
    assert_eq!(items[0].item.year, Some(1999));
}

#[test]
fn single_quoted_values_are_read() {
    let xml = "<Video ratingKey='5' title='It\u{0022}s Fine' type='movie'/>";
    let items = parse_watchlist(xml, NOW);
    assert_eq!(items.len(), 1);
    assert_eq!(items[0].item.id, "5");
    assert_eq!(items[0].item.title, "It\"s Fine");
}

#[test]
fn character_references_are_decoded() {
    let xml = r#"<Video ratingKey="6" title="Dune &amp; Dust &lt;Part 2&gt; &quot;Final&quot; &apos;Cut&apos;" type="movie"/>"#;
    let items = parse_watchlist(xml, NOW);
    assert_eq!(items.len(), 1);
    assert_eq!(items[0].item.title, "Dune & Dust <Part 2> \"Final\" 'Cut'");
}

#[test]
fn unknown_reference_keeps_literal_ampersand() {
    let xml = r#"<Video ratingKey="7" title="Tom &copy; Jerry" type="movie"/>"#;
    let items = parse_watchlist(xml, NOW);
    assert_eq!(items.len(), 1);
    assert_eq!(items[0].item.title, "Tom &copy; Jerry");
}

#[test]
fn unparsable_year_becomes_unknown() {
    let xml = r#"<Video ratingKey="8" title="Old" year="20x1" type="movie"/>"#;
    let items = parse_watchlist(xml, NOW);
    assert_eq!(items.len(), 1);
    assert_eq!(items[0].item.year, None);
}

#[test]
fn missing_year_and_guid_stay_absent() {
    let xml = r#"<Video ratingKey="9" title="Bare" type="movie"/>"#;
    let items = parse_watchlist(xml, NOW);
    assert_eq!(items.len(), 1);
    assert_eq!(items[0].item.year, None);
    assert_eq!(items[0].item.guid, None);
}

#[test]
fn malformed_tag_does_not_derail_the_scan() {
    let xml = r#"<Video ratingKey= oops> <Video ratingKey="11" title="After" type="movie"/>"#;
    let items = parse_watchlist(xml, NOW);
    assert_eq!(items.len(), 1);
    assert_eq!(items[0].item.id, "11");
}

#[test]
fn angle_bracket_inside_quoted_value_does_not_end_the_tag() {
    let xml = r#"<Video ratingKey="12" title="a > b" type="movie"/>"#;
    let items = parse_watchlist(xml, NOW);
    assert_eq!(items.len(), 1);
    assert_eq!(items[0].item.title, "a > b");
    assert_eq!(items[0].item.id, "12");
}

#[test]
fn closing_tags_and_text_content_are_ignored() {
    let xml = r#"<MediaContainer><Video ratingKey="13" title="Wrapped" type="movie">some text</Video></MediaContainer>"#;
    let items = parse_watchlist(xml, NOW);
    assert_eq!(items.len(), 1);
    assert_eq!(items[0].item.title, "Wrapped");
}

#[test]
fn output_order_is_document_order() {
    let xml = r#"<Video ratingKey="1" title="A" type="movie"/><Directory ratingKey="2" title="B" type="show"/><Video ratingKey="3" title="C" type="movie"/>"#;
    let items = parse_watchlist(xml, NOW);
    let ids: Vec<&str> = items.iter().map(|w| w.item.id.as_str()).collect();
    assert_eq!(ids, vec!["1", "2", "3"]);
}

#[test]
fn empty_document_yields_no_entries() {
    assert_eq!(parse_watchlist("", NOW).len(), 0);
    assert_eq!(parse_watchlist("no markup at all", NOW).len(), 0);
}

#[test]
fn negative_and_signed_years_parse() {
    let xml = r#"<Video ratingKey="1" title="A" year="+2021" type="movie"/><Video ratingKey="2" title="B" year="-44" type="movie"/>"#;
    let items = parse_watchlist(xml, NOW);
    assert_eq!(items[0].item.year, Some(2021));
    assert_eq!(items[1].item.year, Some(-44));
}

#[test]
fn overflowing_year_becomes_unknown() {
    let xml = r#"<Video ratingKey="1" title="A" year="99999999999999" type="movie"/>"#;
    let items = parse_watchlist(xml, NOW);
    assert_eq!(items[0].item.year, None);
}
