use runes_core::board::{fields_to_string, Board, Field, Position};

#[test]
fn board() {
    let mut b = Board::new(5);
    b.change(Position(2, 2), Field::Birth);
    b.change(Position(1, 3), Field::Gift);
    b.change(Position(3, 1), Field::Gift);
    b.change(Position(3, 2), Field::Knowledge);
    b.change(Position(2, 3), Field::Wealth);

    assert_eq!(
        fields_to_string(&b.fields_around(&Position(1, 2))).trim_end(),
        "[ ,  ,  ,  , X,  , B, W]"
    );
    assert_eq!(
        fields_to_string(&b.fields_around(&Position(4, 0))).trim_end(),
        "[ , X,  ]"
    );
    assert_eq!(
        fields_to_string(&b.fields_around(&Position(1, 4))).trim_end(),
        "[ ,  , X, W,  ]"
    );
}

#[test]
fn count_around_aggregates_the_neighborhood() {
    let mut b = Board::new(5);
    b.change(Position(2, 2), Field::Birth);
    b.change(Position(1, 3), Field::Gift);
    b.change(Position(3, 1), Field::Gift);
    b.change(Position(3, 2), Field::Knowledge);
    b.change(Position(2, 3), Field::Wealth);

    // Neighborhood of (1, 2): five Empty, one Gift, one Birth, one Wealth.
    assert_eq!(b.count_around(&Position(1, 2)), (5, 1, 1, 1, 0));
    // A corner cell has three neighbors.
    assert_eq!(b.count_around(&Position(4, 0)), (2, 0, 1, 0, 0));
    // The Gift and Knowledge cells are counted from (4, 2).
    assert_eq!(b.count_around(&Position(4, 2)), (3, 0, 1, 0, 1));
}

#[test]
fn board_starts_empty_and_resets() {
    let mut b = Board::new(3);
    assert!(b.is_empty(&Position(0, 0)));
    assert!(!b.is_full());
    b.change(Position(0, 0), Field::Joy);
    assert_eq!(b.field_at(&Position(0, 0)), Field::Joy);
    assert!(!b.is_empty(&Position(0, 0)));
    b.reset();
    assert!(b.is_empty(&Position(0, 0)));
}

#[test]
fn near_is_chebyshev_distance_at_most_one() {
    let p = Position(3, 3);
    assert!(p.near(&Position(3, 3)));
    assert!(p.near(&Position(2, 4)));
    assert!(p.near(&Position(4, 2)));
    assert!(!p.near(&Position(1, 3)));
    assert!(!p.near(&Position(3, 5)));
}

#[test]
fn empty_list_renders_as_brackets() {
    let v: Vec<Field> = Vec::new();
    assert_eq!(fields_to_string(&v), "[]");
    assert_eq!(fields_to_string(&vec![Field::Joy]), "[J]");
}
