use indoor_map_lib::attributes::Attributes;
use indoor_map_lib::bounding_box::{BoundingBox, Vector2};
use indoor_map_lib::svg_parser::{ParseErrorKind, SvgElement, SvgEvent, TagType};
use indoor_map_lib::transform::TransformErrorKind;

fn boxed(x: i64, y: i64, width: i64, height: i64) -> BoundingBox<i64> {
    BoundingBox::new(Vector2::new(x, y), Vector2::new(width, height))
}

fn corners(element: &SvgElement<i64>) -> (i64, i64, i64, i64) {
    let bounds = element.get_bounding_box();
    (bounds.top_left.x, bounds.top_left.y, bounds.size.x, bounds.size.y)
}

#[test]
fn rectangle_without_transform() {
    let root = SvgElement::<i64>::from_svg_data(r#"<rect x="0" y="0" width="10" height="5"/>"#).unwrap();
    assert_eq!(corners(&root), (0, 0, 10, 5));
    assert_eq!(root.tag_name, "rect");
    assert!(root.children.is_empty());
}

#[test]
fn container_grows_to_hold_its_child() {
    let root = SvgElement::<i64>::from_svg_data(
        r#"<g x="0" y="0" width="2" height="2"><rect x="20" y="20" width="5" height="5"/></g>"#,
    )
    .unwrap();
    assert_eq!(corners(&root), (0, 0, 25, 25));
    assert_eq!(root.children.len(), 1);
    assert_eq!(corners(&root.children[0]), (20, 20, 5, 5));
}

#[test]
fn container_without_children_keeps_its_own_box() {
    let root = SvgElement::<i64>::from_svg_data(r#"<g x="1" y="2" width="3" height="4"></g>"#).unwrap();
    assert_eq!(corners(&root), (1, 2, 3, 4));
}

#[test]
fn child_smaller_than_container_does_not_shrink_it() {
    let root = SvgElement::<i64>::from_svg_data(
        r#"<g width="100" height="50"><rect x="1" y="1" width="5" height="5"/></g>"#,
    )
    .unwrap();
    assert_eq!(corners(&root), (0, 0, 100, 50));
}

#[test]
fn transform_is_handed_down() {
    let root = SvgElement::<i64>::from_svg_data(
        r#"<g transform="translate(10 20)"><g transform="scale(2)"><rect x="1" y="2" width="3" height="4"/></g></g>"#,
    )
    .unwrap();
    let inner = &root.children[0].children[0];
    assert_eq!(corners(inner), (12, 24, 3, 4));
    assert_eq!(corners(&root.children[0]), (10, 20, 5, 8));
    assert_eq!(corners(&root), (10, 20, 5, 8));
}

#[test]
fn unit_suffix_is_stripped() {
    let root = SvgElement::<i64>::from_svg_data(r#"<svg width="210mm" height="297mm"></svg>"#).unwrap();
    assert_eq!(corners(&root), (0, 0, 210, 297));
}

#[test]
fn absent_numbers_are_zero() {
    let root = SvgElement::<i64>::from_svg_data(r#"<circle r="4"/>"#).unwrap();
    assert_eq!(corners(&root), (0, 0, 0, 0));
}

#[test]
fn path_element_takes_the_box_of_its_outline() {
    let root = SvgElement::<i64>::from_svg_data(r#"<path d="M 1 2 L 11 2 l 0 10 z"/>"#).unwrap();
    assert_eq!(corners(&root), (1, 2, 10, 10));
}

#[test]
fn leading_declaration_is_skipped() {
    let root = SvgElement::<i64>::from_svg_data(
        r#"<?xml version="1.0" encoding="UTF-8" standalone="no"?><svg width="3" height="4"></svg>"#,
    )
    .unwrap();
    assert_eq!(corners(&root), (0, 0, 3, 4));
}

#[test]
fn comments_between_children_are_skipped() {
    let root = SvgElement::<i64>::from_svg_data(
        r#"<svg><!-- one --><rect width="1" height="1"/><!-- two --><rect width="2" height="2"/></svg>"#,
    )
    .unwrap();
    assert_eq!(root.children.len(), 2);
    assert_eq!(corners(&root), (0, 0, 2, 2));
}

fn error_kind(svg_data: &str) -> ParseErrorKind {
    SvgElement::<i64>::from_svg_data(svg_data).unwrap_err().kind
}

#[test]
fn empty_input_is_refused() {
    assert_eq!(error_kind(""), ParseErrorKind::UnexpectedEnd);
}

#[test]
fn two_leading_ignorable_events_are_refused() {
    assert_eq!(error_kind("<!-- a --><!-- b --><svg/>"), ParseErrorKind::NoSvgData);
}

#[test]
fn end_tag_in_place_of_an_element_is_refused() {
    let error = SvgElement::<i64>::from_svg_data("</svg>").unwrap_err();
    assert_eq!(error.kind, ParseErrorKind::UnexpectedEndTag);
    assert_eq!(error.detail, "svg");
}

#[test]
fn path_without_data_is_refused() {
    assert_eq!(error_kind("<path/>"), ParseErrorKind::MissingPathData);
}

#[test]
fn path_with_wrong_arity_is_refused() {
    assert_eq!(error_kind(r#"<path d="M 1 2 3"/>"#), ParseErrorKind::InvalidPathData);
}

#[test]
fn path_with_bad_data_is_refused() {
    assert_eq!(error_kind(r#"<path d="M 1 2 ! 3"/>"#), ParseErrorKind::InvalidPathData);
}

#[test]
fn unparsable_number_is_refused() {
    let error = SvgElement::<i64>::from_svg_data(r#"<rect width="wide"/>"#).unwrap_err();
    assert_eq!(error.kind, ParseErrorKind::InvalidNumber);
    assert_eq!(error.detail, "wide");
}

#[test]
fn unsupported_transform_is_refused() {
    let error = SvgElement::<i64>::from_svg_data(r#"<g transform="skewX(3)"></g>"#).unwrap_err();
    assert_eq!(error.kind, ParseErrorKind::Transform(TransformErrorKind::Unsupported));
    assert_eq!(error.detail, "skewX(3)");
}

#[test]
fn malformed_markup_is_refused() {
    assert_eq!(error_kind("<svg"), ParseErrorKind::Markup);
}

#[test]
fn selecting_a_disjoint_box_returns_nothing() {
    let root = SvgElement::<i64>::from_svg_data(r#"<rect x="0" y="0" width="10" height="5"/>"#).unwrap();
    assert!(root.select_with(&boxed(20, 20, 5, 5)).is_none());
}

#[test]
fn touching_boxes_intersect() {
    assert!(boxed(0, 0, 10, 10).intersects(&boxed(10, 10, 5, 5)));
    assert!(boxed(10, 10, 5, 5).intersects(&boxed(0, 0, 10, 10)));
    assert!(!boxed(0, 0, 10, 10).intersects(&boxed(11, 0, 5, 5)));
    assert!(!boxed(0, 0, 10, 10).intersects(&boxed(0, 11, 5, 5)));
}

#[test]
fn selection_keeps_overlapping_children_in_order() {
    let root = SvgElement::<i64>::from_svg_data(
        r#"<svg width="100" height="100"><rect id="a" x="0" y="0" width="5" height="5"/><rect id="b" x="50" y="50" width="5" height="5"/><rect id="c" x="3" y="3" width="5" height="5"/></svg>"#,
    )
    .unwrap();
    let selected = root.select_with(&boxed(0, 0, 10, 10)).unwrap();
    assert_eq!(corners(&selected), (0, 0, 100, 100));
    let ids: Vec<String> =
        selected.children.iter().map(|child| child.attributes.get("id").unwrap().clone()).collect();
    assert_eq!(ids, vec!["a".to_string(), "c".to_string()]);
}

#[test]
fn node_is_kept_though_no_child_is() {
    let root = SvgElement::<i64>::from_svg_data(
        r#"<svg width="100" height="100"><rect x="50" y="50" width="5" height="5"/></svg>"#,
    )
    .unwrap();
    let selected = root.select_with(&boxed(0, 0, 10, 10)).unwrap();
    assert!(selected.children.is_empty());
    assert_eq!(selected.tag_name, "svg");
    assert_eq!(selected.attributes.get("width").unwrap(), "100");
}

#[test]
fn selection_is_idempotent() {
    let root = SvgElement::<i64>::from_svg_data(
        r#"<svg width="100" height="100"><g width="8" height="8"><rect x="50" y="50" width="5" height="5"/><rect x="1" y="1" width="2" height="2"/></g></svg>"#,
    )
    .unwrap();
    let query = boxed(0, 0, 10, 10);
    let once = root.select_with(&query).unwrap();
    let twice = once.select_with(&query).unwrap();
    assert_eq!(format!("{:?}", once), format!("{:?}", twice));
}

#[test]
fn attributes_can_be_set_and_deleted() {
    let mut root = SvgElement::<i64>::empty_root(boxed(0, 0, 1, 1));
    assert_eq!(root.tag_name, "svg");
    root.set_attr("viewBox", "0 0 1 1".to_string());
    root.set_attr("viewBox", "0 0 2 2".to_string());
    assert_eq!(root.attributes.get("viewBox").unwrap(), "0 0 2 2");
    root.delete_attr("viewBox");
    assert!(root.attributes.get("viewBox").is_none());
    assert_eq!(root.get_bottom_right().x, 1);
}

#[test]
fn markup_that_ends_early_closes_its_elements() {
    let root =
        SvgElement::<i64>::from_svg_data(r#"<svg><g width="7" height="8"><rect width="1" height="1"/>"#)
            .unwrap();
    assert_eq!(root.children.len(), 1);
    assert_eq!(root.children[0].children.len(), 1);
    assert_eq!(corners(&root), (0, 0, 7, 8));
}

#[test]
fn any_end_tag_closes_the_element() {
    let root = SvgElement::<i64>::from_svg_data(
        r#"<svg><g><rect width="1" height="1"/></x><rect width="2" height="2"/></svg>"#,
    )
    .unwrap();
    assert_eq!(root.children.len(), 2);
    assert_eq!(root.children[0].tag_name, "g");
    assert_eq!(root.children[1].tag_name, "rect");
}

#[test]
fn error_inside_an_element_is_reported() {
    let error = SvgElement::<i64>::from_svg_data(r#"<svg><g><rect width="x"/></g></svg>"#).unwrap_err();
    assert_eq!(error.kind, ParseErrorKind::InvalidNumber);
    let error =
        SvgElement::<i64>::from_svg_data(r#"<svg><g transform="scale(1 2 3)"/></svg>"#).unwrap_err();
    assert_eq!(error.kind, ParseErrorKind::Transform(TransformErrorKind::WrongArgumentCount));
    assert_eq!(error.detail, "scale(1 2 3)");
    let error = SvgElement::<i64>::from_svg_data(r#"<svg><g transform="scale(x)"/></svg>"#).unwrap_err();
    assert_eq!(error.kind, ParseErrorKind::Transform(TransformErrorKind::InvalidNumber));
}

#[test]
fn end_tag_of_a_path_without_data_is_missing_data() {
    assert_eq!(error_kind("</path>"), ParseErrorKind::MissingPathData);
}

#[test]
fn tree_from_events_made_by_hand() {
    let mut size = Attributes::new();
    size.insert("width".to_string(), "3".to_string());
    size.insert("height".to_string(), "4".to_string());
    let events = vec![
        SvgEvent::Ignorable,
        SvgEvent::Tag("svg".to_string(), TagType::Start, Attributes::new()),
        SvgEvent::Tag("rect".to_string(), TagType::Empty, size),
        SvgEvent::Tag("svg".to_string(), TagType::End, Attributes::new()),
    ];
    let root = SvgElement::<i64>::from_events(&events).unwrap();
    assert_eq!(corners(&root), (0, 0, 3, 4));
    let failed = vec![SvgEvent::Error("broken".to_string())];
    let error = SvgElement::<i64>::from_events(&failed).unwrap_err();
    assert_eq!(error.kind, ParseErrorKind::Markup);
    assert_eq!(error.detail, "broken");
}

#[test]
fn errors_in_words() {
    let message = |svg_data: &str| SvgElement::<i64>::from_svg_data(svg_data).unwrap_err().message();
    assert_eq!(message(""), "Unexpected end of SVG");
    assert_eq!(message("<!-- a --><!-- b -->"), "Expected SVG data but did not find any");
    assert_eq!(message("</svg>"), "Unexpected end tag: svg");
    assert_eq!(message("<path/>"), "Missing path data");
    assert_eq!(message(r#"<path d="M 1"/>"#), "Invalid path data: M 1");
    assert_eq!(message(r#"<rect x="left"/>"#), "Invalid number: left");
    assert_eq!(message(r#"<g transform="skewX(3)"/>"#), "Unimplemented transformation skewX(3)");
    assert_eq!(
        message(r#"<g transform="matrix(1 2)"/>"#),
        "Wrong number of arguments to transform: matrix(1 2)"
    );
    assert_eq!(message(r#"<g transform="scale(big)"/>"#), "Invalid number in transform: scale(big)");
    assert!(message("<svg").starts_with("found a malformed tag"));
}
