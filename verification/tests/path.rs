use indoor_map_lib::bounding_box::BoundingBox;
use indoor_map_lib::svg_path_parser::{
    decode_command, parse_commands, Command, CommandKind, Path, PathError, Position, RawCommand,
};

fn points(path: &Path<i64>) -> Vec<(i64, i64)> {
    path.commands().iter().map(|command| (command.0, command.1)).collect()
}

fn raw(kind: CommandKind, position: Position, parameters: Vec<i64>) -> RawCommand<i64> {
    RawCommand::new(kind, position, parameters)
}

#[test]
fn move_line_relative_line_close() {
    let commands = vec![
        raw(CommandKind::Move, Position::Absolute, vec![0, 0]),
        raw(CommandKind::Line, Position::Absolute, vec![10, 0]),
        raw(CommandKind::Line, Position::Relative, vec![0, 10]),
        raw(CommandKind::Close, Position::Absolute, vec![]),
    ];
    let path = Path::from_commands(&commands).unwrap();
    assert_eq!(points(&path), vec![(0, 0), (10, 0), (10, 10)]);
}

#[test]
fn horizontal_and_vertical_lines_copy_the_other_axis() {
    let commands = vec![
        raw(CommandKind::Move, Position::Absolute, vec![3, 7]),
        raw(CommandKind::HorizontalLine, Position::Absolute, vec![10, 12]),
        raw(CommandKind::VerticalLine, Position::Absolute, vec![20]),
        raw(CommandKind::HorizontalLine, Position::Relative, vec![1, 1]),
        raw(CommandKind::VerticalLine, Position::Relative, vec![-5]),
    ];
    let path = Path::from_commands(&commands).unwrap();
    assert_eq!(points(&path), vec![(3, 7), (10, 7), (12, 7), (12, 20), (13, 20), (14, 20), (14, 15)]);
}

#[test]
fn curves_keep_only_their_end_points() {
    let commands = vec![
        raw(CommandKind::Move, Position::Absolute, vec![1, 1]),
        raw(CommandKind::QuadraticCurve, Position::Absolute, vec![9, 9, 2, 3]),
        raw(CommandKind::SmoothCubicCurve, Position::Relative, vec![9, 9, 1, 1]),
        raw(CommandKind::CubicCurve, Position::Absolute, vec![9, 9, 9, 9, 4, 5, 8, 8, 8, 8, 6, 7]),
        raw(CommandKind::SmoothQuadraticCurve, Position::Relative, vec![1, 2]),
        raw(CommandKind::EllipticalArc, Position::Absolute, vec![9, 9, 0, 1, 0, 20, 30]),
    ];
    let path = Path::from_commands(&commands).unwrap();
    assert_eq!(points(&path), vec![(1, 1), (2, 3), (3, 4), (4, 5), (6, 7), (7, 9), (20, 30)]);
}

#[test]
fn relative_steps_run_on_across_commands() {
    let commands = vec![
        raw(CommandKind::Move, Position::Relative, vec![1, 1, 2, 2]),
        raw(CommandKind::Close, Position::Absolute, vec![]),
        raw(CommandKind::Line, Position::Relative, vec![10, 10]),
    ];
    let path = Path::from_commands(&commands).unwrap();
    assert_eq!(points(&path), vec![(1, 1), (3, 3), (13, 13)]);
}

#[test]
fn malformed_arity_is_refused() {
    let commands = vec![
        raw(CommandKind::Move, Position::Absolute, vec![0, 0]),
        raw(CommandKind::CubicCurve, Position::Absolute, vec![1, 2, 3, 4, 5]),
    ];
    assert_eq!(Path::from_commands(&commands).unwrap_err(), PathError::Arity(1));
    assert!(!commands[1].is_well_formed());
    assert!(commands[0].is_well_formed());
}

#[test]
fn single_command_from_a_given_point() {
    let command = raw(CommandKind::Line, Position::Relative, vec![1, 2, 3, 4]);
    let visited = Command::from_raw_command(&command, Command(10, 20));
    let visited: Vec<(i64, i64)> = visited.iter().map(|c| (c.0, c.1)).collect();
    assert_eq!(visited, vec![(11, 22), (14, 26)]);
}

#[test]
fn path_data_is_read_through_the_svg_crate() {
    let commands = parse_commands::<i64>("M0,0 L10,0 l0,10 z").unwrap();
    assert_eq!(commands.len(), 4);
    assert_eq!(commands[0].kind, CommandKind::Move);
    assert_eq!(commands[0].position, Position::Absolute);
    assert_eq!(commands[0].parameters, vec![0, 0]);
    assert_eq!(commands[2].kind, CommandKind::Line);
    assert_eq!(commands[2].position, Position::Relative);
    assert_eq!(commands[2].parameters, vec![0, 10]);
    assert_eq!(commands[3].kind, CommandKind::Close);
    assert!(parse_commands::<i64>("M0,0 ?").is_none());
    assert!(parse_commands::<i64>("M0.5,0").is_none());
}

#[test]
fn written_commands_are_decoded() {
    let command = decode_command::<i64>("c1,2,3,4,5,6").unwrap();
    assert_eq!(command.kind, CommandKind::CubicCurve);
    assert_eq!(command.position, Position::Relative);
    assert_eq!(command.parameters, vec![1, 2, 3, 4, 5, 6]);
    let close = decode_command::<i64>("z").unwrap();
    assert_eq!(close.kind, CommandKind::Close);
    assert!(close.parameters.is_empty());
    assert!(decode_command::<i64>("").is_none());
    assert!(decode_command::<i64>("x1").is_none());
    assert!(decode_command::<i64>("M1,,2").is_none());
}

#[test]
fn box_around_a_path() {
    let commands = vec![
        raw(CommandKind::Move, Position::Absolute, vec![5, -3]),
        raw(CommandKind::Line, Position::Absolute, vec![-2, 8, 4, 4]),
    ];
    let path = Path::from_commands(&commands).unwrap();
    let bounds = BoundingBox::from_path(&path);
    assert_eq!((bounds.top_left.x, bounds.top_left.y), (-2, -3));
    assert_eq!((bounds.size.x, bounds.size.y), (7, 11));
}

#[test]
fn long_path_is_read_quickly() {
    let mut data = String::from("M0,0");
    for i in 1..20000 {
        data.push_str(&format!(" L{},{}", i, i % 7));
    }
    let commands = parse_commands::<i64>(&data).unwrap();
    assert_eq!(commands.len(), 20000);
    let path = Path::from_commands(&commands).unwrap();
    assert_eq!(path.commands().len(), 20000);
    let mut single = String::from("M0,0 l");
    for _ in 0..20000 {
        single.push_str(" 1,1");
    }
    let commands = parse_commands::<i64>(&single).unwrap();
    let path = Path::from_commands(&commands).unwrap();
    assert_eq!(points(&path).last(), Some(&(20000, 20000)));
}
