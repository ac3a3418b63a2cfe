use toroidal_life::canvas::Canvas;
use toroidal_life::canvas::Cell;

fn cell_at(c: &Canvas, x: usize, y: usize) -> Cell {
    c.canvas[x + y * c.dx]
}

fn set_alive(c: &mut Canvas, x: usize, y: usize) {
    let dx = c.dx;
    c.canvas[x + y * dx] = Cell::Life;
}

#[test]
fn new_makes_all_dead() {
    let c = Canvas::new(5, 4);
    assert_eq!(c.dx, 5);
    assert_eq!(c.dy, 4);
    assert_eq!(c.canvas.len(), 20);
    for i in 0..20 {
        assert!(c.canvas[i] == Cell::Death);
    }
}

#[test]
fn gosper_gun_has_exact_pattern() {
    let expected: [(usize, usize); 36] = [
        (0, 4),
        (0, 5),
        (1, 4),
        (1, 5),
        (10, 4),
        (10, 5),
        (10, 6),
        (11, 3),
        (11, 7),
        (12, 2),
        (12, 8),
        (13, 2),
        (13, 8),
        (14, 5),
        (15, 3),
        (15, 7),
        (16, 4),
        (16, 5),
        (16, 6),
        (17, 5),
        (20, 2),
        (20, 3),
        (20, 4),
        (21, 2),
        (21, 3),
        (21, 4),
        (22, 1),
        (22, 5),
        (24, 0),
        (24, 1),
        (24, 5),
        (24, 6),
        (34, 2),
        (34, 3),
        (35, 2),
        (35, 3),
    ];
    let g = Canvas::gosper_gun();
    assert_eq!(g.dx, 36);
    assert_eq!(g.dy, 9);
    let mut live = 0;
    for x in 0..36 {
        for y in 0..9 {
            let should_live = expected.iter().any(|&(ex, ey)| ex == x && ey == y);
            assert!((cell_at(&g, x, y) == Cell::Life) == should_live, "cell ({}, {})", x, y);
            if should_live {
                live += 1;
            }
        }
    }
    assert_eq!(live, 36);
}

#[test]
fn rand_canvas_follows_draws() {
    let draws: Vec<u32> = vec![0, 1, 2, 3, 4, 6];
    let c = Canvas::rand_canvas(3, 2, 3, &draws);
    assert_eq!(c.dx, 3);
    assert_eq!(c.dy, 2);
    for i in 0..3 {
        for j in 0..2 {
            let expected_alive = draws[i + j * 3] % 3 == 0;
            assert!((cell_at(&c, i, j) == Cell::Life) == expected_alive, "cell ({}, {})", i, j);
        }
    }
}

#[test]
fn rand_canvas_modulus_one_fills_grid() {
    let draws: Vec<u32> = vec![7, 0, 12, 5];
    let c = Canvas::rand_canvas(2, 2, 1, &draws);
    for i in 0..4 {
        assert!(c.canvas[i] == Cell::Life);
    }
}

#[test]
fn stamp_roundtrip_and_outside_unchanged() {
    let mut base = Canvas::new(6, 5);
    set_alive(&mut base, 0, 0);
    set_alive(&mut base, 5, 4);
    set_alive(&mut base, 2, 1);
    let before = base.clone();

    let mut overlay = Canvas::new(2, 3);
    set_alive(&mut overlay, 0, 0);
    set_alive(&mut overlay, 1, 2);

    let stamped = base.canvas_to_canvas(overlay.clone(), 2, 1);

    for i in 0..2 {
        for j in 0..3 {
            assert!(
                cell_at(&stamped, 2 + i, 1 + j) == cell_at(&overlay, i, j),
                "stamped cell ({}, {})",
                i,
                j
            );
        }
    }
    for u in 0..6 {
        for v in 0..5 {
            let inside = (2..4).contains(&u) && (1..4).contains(&v);
            if !inside {
                assert!(
                    cell_at(&stamped, u, v) == cell_at(&before, u, v),
                    "outside cell ({}, {})",
                    u,
                    v
                );
            }
        }
    }
}

#[test]
fn stamp_same_size_replaces_grid() {
    let mut base = Canvas::new(3, 3);
    set_alive(&mut base, 1, 1);
    let mut overlay = Canvas::new(3, 3);
    set_alive(&mut overlay, 0, 2);
    let stamped = base.canvas_to_canvas(overlay.clone(), 0, 0);
    for x in 0..3 {
        for y in 0..3 {
            assert!(cell_at(&stamped, x, y) == cell_at(&overlay, x, y));
        }
    }
}

#[test]
fn render_small_grid() {
    let mut c = Canvas::new(3, 2);
    set_alive(&mut c, 0, 0);
    set_alive(&mut c, 2, 1);
    let text = c.render();
    assert_eq!(text, "\x1b[H\n#  \n  #");
}

#[test]
fn render_all_dead_is_blank() {
    let c = Canvas::new(2, 2);
    assert_eq!(c.render(), "\x1b[H\n  \n  ");
}

#[test]
fn dead_grid_stays_dead() {
    let c = Canvas::new(4, 4);
    let next = c.next_generation();
    for i in 0..16 {
        assert!(next.canvas[i] == Cell::Death);
    }
}

#[test]
fn isolated_cell_dies() {
    let mut c = Canvas::new(4, 4);
    set_alive(&mut c, 1, 1);
    let next = c.next_generation();
    for i in 0..16 {
        assert!(next.canvas[i] == Cell::Death);
    }
}

#[test]
fn block_is_still_life() {
    let mut c = Canvas::new(5, 5);
    set_alive(&mut c, 1, 1);
    set_alive(&mut c, 2, 1);
    set_alive(&mut c, 1, 2);
    set_alive(&mut c, 2, 2);
    let next = c.next_generation();
    for x in 0..5 {
        for y in 0..5 {
            assert!(cell_at(&next, x, y) == cell_at(&c, x, y), "cell ({}, {})", x, y);
        }
    }
}

#[test]
fn blinker_oscillates_with_period_two() {
    let mut c = Canvas::new(5, 5);
    set_alive(&mut c, 2, 1);
    set_alive(&mut c, 2, 2);
    set_alive(&mut c, 2, 3);
    let one = c.next_generation();
    for x in 0..5 {
        for y in 0..5 {
            let expected_alive = y == 2 && (1..4).contains(&x);
            assert!((cell_at(&one, x, y) == Cell::Life) == expected_alive, "cell ({}, {})", x, y);
        }
    }
    let two = one.next_generation();
    for x in 0..5 {
        for y in 0..5 {
            assert!(cell_at(&two, x, y) == cell_at(&c, x, y), "cell ({}, {})", x, y);
        }
    }
}

#[test]
fn rules_depend_only_on_neighborhood() {
    let mut a = Canvas::new(6, 6);
    set_alive(&mut a, 1, 1);
    set_alive(&mut a, 2, 2);
    set_alive(&mut a, 3, 1);
    let mut b = a.clone();
    set_alive(&mut b, 5, 5);
    for x in 1..4 {
        for y in 1..4 {
            assert!(a.rules(x, y) == b.rules(x, y), "cell ({}, {})", x, y);
        }
    }
}

#[test]
fn corner_cell_counts_across_both_edges() {
    let mut c = Canvas::new(4, 3);
    set_alive(&mut c, 0, 0);
    set_alive(&mut c, 2, 1);
    set_alive(&mut c, 3, 1);
    // (3, 2) touches (0, 0) only across both edges; with it the dead cell
    // has 3 live neighbors and is born.
    assert!(c.rules(3, 2) == Cell::Life);

    let mut without = c.clone();
    without.canvas[0] = Cell::Death;
    assert!(without.rules(3, 2) == Cell::Death);
}

#[test]
fn wraparound_counts_for_right_edge_corner() {
    // (3, 0) touches (0, 0) across the right edge: with (0, 0) alive it
    // has 3 live neighbors and is born; without it only 2.
    let mut c = Canvas::new(4, 3);
    set_alive(&mut c, 0, 0);
    set_alive(&mut c, 2, 0);
    set_alive(&mut c, 2, 1);
    assert!(c.rules(3, 0) == Cell::Life);
    let mut without = c.clone();
    without.canvas[0] = Cell::Death;
    assert!(without.rules(3, 0) == Cell::Death);
}

#[test]
fn wraparound_counts_for_bottom_edge_corner() {
    // (0, 2) touches (0, 0) across the bottom edge: with (0, 0) alive it
    // has 3 live neighbors and is born; without it only 2.
    let mut c = Canvas::new(4, 3);
    set_alive(&mut c, 0, 0);
    set_alive(&mut c, 1, 1);
    set_alive(&mut c, 1, 2);
    assert!(c.rules(0, 2) == Cell::Life);
    let mut without = c.clone();
    without.canvas[0] = Cell::Death;
    assert!(without.rules(0, 2) == Cell::Death);
}
