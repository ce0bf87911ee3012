use indoor_map_lib::util::{centroid, max_f64, shoelace_area, undefined, unique, DegeneratePolygon};

fn strings(items: &[&str]) -> Vec<String> {
    items.iter().map(|s| s.to_string()).collect()
}

#[test]
fn unique_items() {
    let expected = strings(&["hello", "world", "testing", "643tbu346y", "u34i6"]);
    let actual = unique(&expected).unwrap();
    assert_eq!(actual, expected);
}

#[test]
fn repeated_items() {
    let items = strings(&["hello", "world", "testing", "643tbu346y", "world", "hello"]);
    let actual = unique(&items).unwrap_err();
    assert_eq!("world", actual);
}

#[test]
fn no_undefined_items() {
    let defined = strings(&["ab", "bc", "cd"]);
    let items = strings(&["bc", "cd"]);
    undefined(&items, &defined).unwrap();
}

#[test]
fn undefined_items() {
    let defined = strings(&["ab", "bc", "cd"]);
    let items = strings(&["cd", "xy", "ab", "zz"]);
    let actual = undefined(&items, &defined).unwrap_err();
    assert_eq!("xy", actual);
}

#[test]
fn greatest_of_a_list() {
    assert_eq!(max_f64(&vec![3i64, 9, -4, 9, 2]), Some(9));
    assert_eq!(max_f64::<i64>(&vec![]), None);
}

#[test]
fn whole_polygon_areas() {
    let counter_clockwise: Vec<(i64, i64)> = vec![(0, 0), (4, 0), (5, 3), (2, 6), (-1, 3)];
    assert_eq!(shoelace_area(&counter_clockwise), 24);
    let mut clockwise = counter_clockwise.clone();
    clockwise.reverse();
    assert_eq!(shoelace_area(&clockwise), -24);
    for k in 0..counter_clockwise.len() {
        let mut rotated = counter_clockwise.clone();
        rotated.rotate_left(k);
        assert_eq!(shoelace_area(&rotated), 24);
    }
    assert_eq!(centroid(&vec![(0i64, 0i64), (0, 2), (2, 2), (2, 0)]), Ok((1, 1)));
    assert_eq!(shoelace_area(&vec![(0i64, 0i64), (0, 2), (2, 2), (2, 0)]), -4);
    assert_eq!(shoelace_area(&vec![(0i64, 0i64), (1, 0), (0, 1)]), 0);
    assert_eq!(centroid(&vec![(0i64, 0i64), (1, 0), (0, 1)]), Err(DegeneratePolygon));
}
