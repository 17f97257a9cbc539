use minic::common::Position;

#[test]
fn test_position_creation() {
    let pos = Position::new(10, 20);
    assert_eq!(pos.line, 10);
    assert_eq!(pos.column, 20);
}

#[test]
fn test_position_start() {
    let pos = Position::start();
    assert_eq!(pos.line, 1);
    assert_eq!(pos.column, 1);
}

#[test]
fn test_advance_column() {
    let mut pos = Position::new(5, 10);
    pos.advance_column(3);
    assert_eq!(pos.column, 13);
    assert_eq!(pos.line, 5);
}

#[test]
fn test_new_line() {
    let mut pos = Position::new(3, 15);
    pos.new_line();
    assert_eq!(pos.line, 4);
    assert_eq!(pos.column, 1);
}

#[test]
fn test_with_column_offset() {
    let pos = Position::new(2, 5);
    let new_pos = pos.with_column_offset(10);
    assert_eq!(new_pos.line, 2);
    assert_eq!(new_pos.column, 15);
}

#[test]
fn test_display() {
    let pos = Position::new(7, 12);
    assert_eq!(pos.to_string(), "7:12");
}

#[test]
fn test_addition() {
    let pos = Position::new(1, 5);
    let new_pos = pos + 10;
    assert_eq!(new_pos.column, 15);
}

#[test]
fn test_subtraction() {
    let pos = Position::new(1, 15);
    let new_pos = pos - 10;
    assert_eq!(new_pos.column, 5);

    let pos2 = Position::new(1, 3);
    let new_pos2 = pos2 - 5;
    assert_eq!(new_pos2.column, 1);
}

#[test]
fn test_is_valid() {
    let valid_pos = Position::new(1, 1);
    assert!(valid_pos.is_valid());

    let invalid_pos = Position { line: 0, column: 1 };
    assert!(!invalid_pos.is_valid());
}

#[test]
fn position_debug_and_default() {
    assert_eq!(Position::new(3, 45).debug(), "(3:45)");
    assert_eq!(Position::default(), Position::start());
    assert_eq!(Position::new(120, 7).to_string(), "120:7");
}
