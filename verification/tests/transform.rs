use indoor_map_lib::bounding_box::Vector2;
use indoor_map_lib::transform::{
    parse_matrix_transform, parse_rotate_transform, parse_scale_transform, parse_transform,
    parse_translate_transform, rotate_deg, rotate_deg_about, scale, translate, Matrix3,
    TransformErrorKind,
};

fn moved(matrix: &Matrix3<i64>, x: i64, y: i64) -> (i64, i64) {
    let point = matrix.apply(Vector2::new(x, y));
    (point.x, point.y)
}

#[test]
fn translate_then_scale() {
    let composed =
        parse_transform::<i64>("translate(1,1)").unwrap().times(&parse_transform("scale(2)").unwrap());
    assert_eq!(moved(&composed, 0, 0), (1, 1));
    assert_eq!(moved(&composed, 1, 0), (3, 1));
}

#[test]
fn composition_is_associative_on_whole_numbers() {
    let a = translate(Vector2::new(3i64, -4));
    let b = scale(Vector2::new(2i64, 5));
    let c = rotate_deg(90i64);
    let left = a.times(&b).times(&c);
    let right = a.times(&b.times(&c));
    assert_eq!(format!("{:?}", left), format!("{:?}", right));
}

#[test]
fn matrix_fills_columns_first() {
    let matrix = parse_matrix_transform::<i64>("matrix(1 2 3 4 5 6)").unwrap();
    assert_eq!((matrix.m11, matrix.m12, matrix.m13), (1, 3, 5));
    assert_eq!((matrix.m21, matrix.m22, matrix.m23), (2, 4, 6));
    assert_eq!((matrix.m31, matrix.m32, matrix.m33), (0, 0, 1));
    let spaced = parse_matrix_transform::<i64>("matrix( 1\t2  3 4 5 6 )").unwrap();
    assert_eq!(format!("{:?}", spaced), format!("{:?}", matrix));
}

#[test]
fn matrix_needs_six_numbers() {
    let error = parse_matrix_transform::<i64>("matrix(1 2 3 4 5)").unwrap_err();
    assert_eq!(error.kind, TransformErrorKind::WrongArgumentCount);
    assert_eq!(error.text, "matrix(1 2 3 4 5)");
    assert_eq!(
        parse_matrix_transform::<i64>("matrix(1,2,3,4,5,6)").unwrap_err().kind,
        TransformErrorKind::InvalidNumber
    );
}

#[test]
fn translate_takes_one_or_two_numbers() {
    assert_eq!(moved(&parse_translate_transform("translate(5)").unwrap(), 1, 1), (6, 1));
    assert_eq!(moved(&parse_translate_transform("translate(5 7)").unwrap(), 1, 1), (6, 8));
    assert_eq!(
        parse_translate_transform::<i64>("translate(1 2 3)").unwrap_err().kind,
        TransformErrorKind::WrongArgumentCount
    );
    assert_eq!(
        parse_translate_transform::<i64>("translate()").unwrap_err().kind,
        TransformErrorKind::InvalidNumber
    );
    assert_eq!(
        parse_translate_transform::<i64>("translate(1, 2)").unwrap_err().kind,
        TransformErrorKind::InvalidNumber
    );
}

#[test]
fn rotate_takes_one_or_three_numbers() {
    assert_eq!(moved(&parse_rotate_transform("rotate(90)").unwrap(), 1, 0), (0, 1));
    assert_eq!(moved(&parse_rotate_transform("rotate(90,1,1)").unwrap(), 2, 1), (1, 2));
    assert_eq!(
        parse_rotate_transform::<i64>("rotate(90,1)").unwrap_err().kind,
        TransformErrorKind::WrongArgumentCount
    );
    assert_eq!(
        parse_rotate_transform::<i64>("rotate(1 2 3 4)").unwrap_err().kind,
        TransformErrorKind::WrongArgumentCount
    );
}

#[test]
fn scale_takes_one_or_two_numbers() {
    assert_eq!(moved(&parse_scale_transform("scale(3)").unwrap(), 1, 2), (3, 6));
    assert_eq!(moved(&parse_scale_transform("scale(3 4)").unwrap(), 1, 2), (3, 8));
    assert_eq!(
        parse_scale_transform::<i64>("scale(1 2 3)").unwrap_err().kind,
        TransformErrorKind::WrongArgumentCount
    );
}

#[test]
fn other_functions_are_unsupported() {
    let error = parse_transform::<i64>("skewX(10)").unwrap_err();
    assert_eq!(error.kind, TransformErrorKind::Unsupported);
    assert_eq!(error.text, "skewX(10)");
    assert_eq!(parse_transform::<i64>("").unwrap_err().kind, TransformErrorKind::Unsupported);
}

#[test]
fn rotation_about_a_point_leaves_the_point_fixed() {
    let turn = rotate_deg_about(180i64, Vector2::new(5, 5));
    assert_eq!(moved(&turn, 5, 5), (5, 5));
    assert_eq!(moved(&turn, 6, 5), (4, 5));
    assert_eq!(moved(&Matrix3::<i64>::identity(), 7, 9), (7, 9));
}
