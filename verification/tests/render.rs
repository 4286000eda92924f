use gomoku::Game;

const ALPHABET: &str = "0123456789abcdefghijklmnopqrstuvwxyzABCDEFGHIJKLMNOPQRSTUVWXYZ";

fn label(i: usize) -> char {
    ALPHABET.chars().nth(i).unwrap()
}

fn expected_border(size: usize) -> String {
    let mut line = String::from("  ");
    for i in 0..size {
        line.push(label(i));
        line.push(' ');
    }
    line.push_str("  ");
    line
}

#[test]
fn empty_board_renders_as_labelled_blank_grid() {
    let size = 16usize;
    let g = Game::new(size);
    let text = g.render();
    let lines: Vec<&str> = text.lines().collect();
    assert_eq!(lines.len(), size + 2);
    for line in &lines {
        assert_eq!(line.chars().count(), 2 * size + 4);
    }
    let border = expected_border(size);
    assert_eq!(lines[0], border);
    assert_eq!(lines[size + 1], border);
    for r in 0..size {
        let expected = format!("{}{}{}", label(r), " ".repeat(2 * size + 2), label(r));
        assert_eq!(lines[r + 1], expected);
    }
}

#[test]
fn largest_board_renders_with_full_alphabet() {
    let size = 62usize;
    let g = Game::new(size);
    let text = g.render();
    let lines: Vec<&str> = text.lines().collect();
    assert_eq!(lines.len(), 64);
    assert_eq!(lines[0], expected_border(size));
    assert!(lines[0].contains('Z'));
    assert_eq!(lines[63].chars().count(), 2 * size + 4);
    assert_eq!(lines[33].chars().next(), Some(label(32)));
}

#[test]
fn stones_render_as_their_glyphs() {
    let size = 16usize;
    let mut g = Game::new(size);
    g.set_dot(2, 3, 1);
    g.set_dot(7, 0, 2);
    g.set_dot(15, 15, 1);
    let text = g.render();
    let lines: Vec<&str> = text.lines().collect();
    let glyph_at = |r: usize, c: usize| lines[r + 1].chars().nth(2 + 2 * c).unwrap();
    assert_eq!(glyph_at(2, 3), '*');
    assert_eq!(glyph_at(7, 0), 'x');
    assert_eq!(glyph_at(15, 15), '*');
    assert_eq!(glyph_at(0, 0), ' ');
    assert_eq!(glyph_at(2, 4), ' ');
}

#[test]
fn rendering_round_trips_to_the_same_board() {
    let size = 20usize;
    let mut g = Game::new(size);
    g.set_dot(0, 0, 1);
    g.set_dot(0, 19, 2);
    g.set_dot(19, 0, 2);
    g.set_dot(19, 19, 1);
    g.set_dot(9, 4, 1);
    g.set_dot(4, 9, 2);
    let text = g.render();
    let lines: Vec<&str> = text.lines().collect();
    for r in 0..size {
        let row: Vec<char> = lines[r + 1].chars().collect();
        for c in 0..size {
            let marker = match row[2 + 2 * c] {
                '*' => 1,
                'x' => 2,
                _ => 0,
            };
            assert_eq!(marker, g.get_dot(r, c));
        }
    }
}
