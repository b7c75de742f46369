use tui_snake::{diff, out_of_bounds, same_cell, Direction, Snake};

fn snake_of(segments: Vec<(u8, u8)>) -> Snake {
    Snake::from_segments(segments).unwrap()
}

fn bent_snake() -> Vec<(u8, u8)> {
    vec![
        (0, 0),
        (0, 1),
        (0, 2),
        (1, 2),
        (2, 2),
        (3, 2),
        (3, 3),
        (3, 4),
    ]
}

fn bent_snake_moved_right() -> Vec<(u8, u8)> {
    vec![
        (1, 0),
        (0, 0),
        (0, 1),
        (0, 2),
        (1, 2),
        (2, 2),
        (3, 2),
        (3, 3),
    ]
}

#[test]
fn lib_test_add_segment() {
    let snake = Snake::default();
    let apple_pos = (0, 1);
    let wanted = vec![(0, 1), (0, 0)];
    assert_eq!(snake.add_segment(apple_pos).segments(), wanted)
}

#[test]
fn snake_test_add_segment() {
    let snake = Snake::default();
    let apple_pos = (0, 1);
    let wanted = vec![(0, 1), (0, 0)];
    assert_eq!(snake.add_segment(apple_pos).segments(), wanted)
}

#[test]
fn lib_test_shift() {
    let snake = snake_of(bent_snake());
    assert_eq!(snake.shift(Direction::Right).segments(), bent_snake_moved_right());
}

#[test]
fn snake_test_shift() {
    let snake = snake_of(bent_snake());
    assert_eq!(snake.shift(Direction::Right).segments(), bent_snake_moved_right());
}

#[test]
fn lib_test_diff() {
    let old_snake = snake_of(bent_snake());
    let new_snake = snake_of(bent_snake_moved_right());
    let (old, new) = diff(&old_snake, &new_snake);
    assert_eq!(old, vec![(3, 4)]);
    assert_eq!(new, vec![(1, 0)]);
}

#[test]
fn snake_test_diff() {
    let old_snake = snake_of(bent_snake());
    let new_snake = snake_of(bent_snake_moved_right());
    let (old, new) = diff(&old_snake, &new_snake);
    assert_eq!(old, vec![(3, 4)]);
    assert_eq!(new, vec![(1, 0)]);
}

#[test]
fn grow_then_shift_right() {
    let grown = Snake::default().add_segment((0, 1));
    assert_eq!(grown.segments(), vec![(0, 1), (0, 0)]);
    assert_eq!(grown.shift(Direction::Right).segments(), vec![(1, 1), (0, 1)]);
}

#[test]
fn shift_in_each_direction() {
    let snake = snake_of(vec![(5, 5), (5, 6), (5, 7)]);
    assert_eq!(snake.shift(Direction::Up).segments(), vec![(5, 4), (5, 5), (5, 6)]);
    assert_eq!(snake.shift(Direction::Down).segments(), vec![(5, 6), (5, 5), (5, 6)]);
    assert_eq!(snake.shift(Direction::Left).segments(), vec![(4, 5), (5, 5), (5, 6)]);
    assert_eq!(snake.shift(Direction::Right).segments(), vec![(6, 5), (5, 5), (5, 6)]);
}

#[test]
fn shift_keeps_length_and_moves_body() {
    let snake = snake_of(bent_snake());
    for dir in [Direction::Up, Direction::Down, Direction::Left, Direction::Right] {
        let moved = snake.shift(dir).segments();
        let before = snake.segments();
        assert_eq!(moved.len(), before.len());
        for i in 1..moved.len() {
            assert_eq!(moved[i], before[i - 1]);
        }
    }
}

#[test]
fn shift_saturates_at_zero() {
    let snake = Snake::default();
    assert_eq!(snake.shift(Direction::Up).head(), (0, 0));
    assert_eq!(snake.shift(Direction::Left).head(), (0, 0));
}

#[test]
fn shift_saturates_at_max() {
    let snake = snake_of(vec![(255, 255)]);
    assert_eq!(snake.shift(Direction::Down).head(), (255, 255));
    assert_eq!(snake.shift(Direction::Right).head(), (255, 255));
}

#[test]
fn shift_single_segment() {
    let snake = snake_of(vec![(2, 3)]);
    assert_eq!(snake.shift(Direction::Down).segments(), vec![(2, 4)]);
}

#[test]
fn add_segment_grows_by_one() {
    let snake = snake_of(bent_snake());
    let grown = snake.add_segment((1, 0));
    assert_eq!(grown.score(), snake.score() + 1);
    assert_eq!(grown.head(), (1, 0));
    assert_eq!(grown.segments()[1..].to_vec(), bent_snake());
}

#[test]
fn default_snake_is_one_segment_at_origin() {
    let snake = Snake::default();
    assert_eq!(snake.segments(), vec![(0, 0)]);
    assert_eq!(snake.score(), 1);
    assert_eq!(Snake::new(), snake);
}

#[test]
fn from_segments_rejects_empty() {
    assert!(Snake::from_segments(Vec::new()).is_none());
    assert_eq!(snake_of(vec![(4, 4)]).head(), (4, 4));
}

#[test]
fn score_counts_segments() {
    assert_eq!(snake_of(bent_snake()).score(), 8);
}

#[test]
fn occupies_finds_segments() {
    let snake = snake_of(bent_snake());
    assert!(snake.occupies(&(0, 0)));
    assert!(snake.occupies(&(3, 4)));
    assert!(snake.occupies(&(2, 2)));
    assert!(!snake.occupies(&(1, 1)));
    assert!(!snake.occupies(&(4, 4)));
}

#[test]
fn distinct_snake_does_not_collide() {
    assert!(!snake_of(bent_snake()).colliding_with_self());
    assert!(!Snake::default().colliding_with_self());
}

#[test]
fn repeated_head_collides() {
    let snake = snake_of(vec![(1, 1), (1, 2), (2, 2), (2, 1), (1, 1)]);
    assert!(snake.colliding_with_self());
    let short = snake_of(vec![(1, 1), (1, 1)]);
    assert!(short.colliding_with_self());
}

#[test]
fn repeated_non_head_does_not_collide() {
    let snake = snake_of(vec![(1, 1), (2, 2), (2, 2)]);
    assert!(!snake.colliding_with_self());
}

#[test]
fn diff_swapped_swaps_results() {
    let a = snake_of(bent_snake());
    let b = snake_of(vec![(7, 7), (0, 0), (3, 4), (9, 9)]);
    let (r, g) = diff(&a, &b);
    let (r2, g2) = diff(&b, &a);
    assert_eq!(r, g2);
    assert_eq!(g, r2);
    assert_eq!(g, vec![(7, 7), (9, 9)]);
    assert_eq!(r, vec![(0, 1), (0, 2), (1, 2), (2, 2), (3, 2), (3, 3)]);
}

#[test]
fn diff_of_equal_snakes_is_empty() {
    let a = snake_of(bent_snake());
    let (r, g) = diff(&a, &a);
    assert!(r.is_empty());
    assert!(g.is_empty());
}

#[test]
fn diff_goes_by_position_not_index() {
    let a = snake_of(vec![(1, 1), (2, 2)]);
    let b = snake_of(vec![(2, 2), (1, 1)]);
    let (r, g) = diff(&a, &b);
    assert!(r.is_empty());
    assert!(g.is_empty());
}

#[test]
fn out_of_bounds_cases() {
    let old = snake_of(vec![(5, 5)]);
    assert!(!out_of_bounds(&snake_of(vec![(6, 5)]), &old, 30, 30));
    assert!(out_of_bounds(&snake_of(vec![(5, 5)]), &old, 30, 30));
    assert!(out_of_bounds(&snake_of(vec![(30, 5)]), &old, 30, 30));
    assert!(out_of_bounds(&snake_of(vec![(5, 30)]), &old, 30, 30));
    assert!(out_of_bounds(&snake_of(vec![(5, 31)]), &old, 30, 30));
    assert!(!out_of_bounds(&snake_of(vec![(29, 29)]), &old, 30, 30));
}

#[test]
fn same_cell_compares_both_coordinates() {
    assert!(same_cell((1, 2), (1, 2)));
    assert!(!same_cell((1, 2), (2, 1)));
    assert!(!same_cell((1, 2), (1, 3)));
}
