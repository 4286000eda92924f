use gomoku::Game;

#[test]
fn fresh_board_all_empty() {
    for size in [16usize, 40, 62] {
        let g = Game::new(size);
        assert_eq!(g.size(), size);
        for x in 0..size {
            for y in 0..size {
                assert_eq!(g.get_dot(x, y), 0);
            }
        }
    }
}

#[test]
fn place_and_read_back() {
    let size = 16usize;
    let mut g = Game::new(size);
    g.set_dot(3, 4, 1);
    assert_eq!(g.get_dot(3, 4), 1);
    for x in 0..size {
        for y in 0..size {
            if (x, y) != (3, 4) {
                assert_eq!(g.get_dot(x, y), 0);
            }
        }
    }
    g.set_dot(10, 11, 2);
    assert_eq!(g.get_dot(10, 11), 2);
    assert_eq!(g.get_dot(3, 4), 1);
}

#[test]
fn overwrite_is_permitted() {
    let mut g = Game::new(16);
    g.set_dot(5, 5, 1);
    g.set_dot(5, 5, 2);
    assert_eq!(g.get_dot(5, 5), 2);
}

#[test]
fn check_on_untouched_board_is_none() {
    let g = Game::new(16);
    assert_eq!(g.check(), None);
}

#[test]
fn horizontal_win() {
    let mut g = Game::new(16);
    for y in 0..5 {
        g.set_dot(0, y, 1);
    }
    assert_eq!(g.check(), Some(1));
}

#[test]
fn vertical_win() {
    let mut g = Game::new(16);
    for x in 0..5 {
        g.set_dot(x, 0, 2);
    }
    assert_eq!(g.check(), Some(2));
}

#[test]
fn diagonal_win() {
    let mut g = Game::new(16);
    for i in 0..5 {
        g.set_dot(i, i, 1);
    }
    assert_eq!(g.check(), Some(1));
}

#[test]
fn anti_diagonal_win() {
    let mut g = Game::new(16);
    g.set_dot(0, 4, 2);
    g.set_dot(1, 3, 2);
    g.set_dot(3, 1, 2);
    g.set_dot(4, 0, 2);
    // Place the middle stone last: the run must be found in both directions
    // from the anchor.
    g.set_dot(2, 2, 2);
    assert_eq!(g.check(), Some(2));
}

#[test]
fn anti_diagonal_win_from_the_end() {
    let mut g = Game::new(16);
    g.set_dot(0, 4, 1);
    g.set_dot(1, 3, 1);
    g.set_dot(2, 2, 1);
    g.set_dot(3, 1, 1);
    g.set_dot(4, 0, 1);
    assert_eq!(g.check(), Some(1));
}

#[test]
fn four_in_a_row_is_no_win() {
    let mut g = Game::new(16);
    for y in 0..4 {
        g.set_dot(7, y, 1);
    }
    assert_eq!(g.check(), None);

    let mut g = Game::new(16);
    for i in 0..4 {
        g.set_dot(i, i, 2);
    }
    assert_eq!(g.check(), None);
}

#[test]
fn isolated_anchor_sees_no_foreign_run() {
    let mut g = Game::new(16);
    // A full run of five for the first player...
    for y in 0..5 {
        g.set_dot(0, y, 1);
    }
    // ...but the last placement is an opposing stone walled in by the first
    // player's markers on every neighbouring cell.
    for x in 9..12 {
        for y in 9..12 {
            g.set_dot(x, y, 1);
        }
    }
    g.set_dot(10, 10, 2);
    assert_eq!(g.check(), None);
}

#[test]
fn six_in_a_row_still_wins() {
    let mut g = Game::new(16);
    for y in 2..8 {
        g.set_dot(9, y, 2);
    }
    assert_eq!(g.check(), Some(2));
}

#[test]
fn win_touching_the_far_edge() {
    let size = 62usize;
    let mut g = Game::new(size);
    for x in (size - 5)..size {
        g.set_dot(x, size - 1, 1);
    }
    assert_eq!(g.check(), Some(1));
}

#[test]
fn broken_run_is_no_win() {
    let mut g = Game::new(16);
    g.set_dot(5, 0, 1);
    g.set_dot(5, 1, 1);
    g.set_dot(5, 2, 2);
    g.set_dot(5, 3, 1);
    g.set_dot(5, 4, 1);
    g.set_dot(5, 5, 1);
    g.set_dot(5, 1, 1);
    assert_eq!(g.check(), None);
}
