use exercises::maze::{draw_directions, pillar_count, Always, Cell, Direction, Grid};

fn uniform(size: usize, dir: Direction) -> Grid {
    let picks = vec![dir; pillar_count(size)];
    Grid::from_picks(size, &picks)
}

fn is_pillar(size: usize, row: usize, col: usize) -> bool {
    row % 2 == 0 && col % 2 == 0 && 1 < row && row + 2 < size && 1 < col && col + 2 < size
}

fn on_perimeter(size: usize, row: usize, col: usize) -> bool {
    row == 0 || col == 0 || row == size - 1 || col == size - 1
}

#[test]
fn direction_numbers() {
    assert_eq!(Direction::from_index(0), Some(Direction::Up));
    assert_eq!(Direction::from_index(1), Some(Direction::Down));
    assert_eq!(Direction::from_index(2), Some(Direction::Left));
    assert_eq!(Direction::from_index(3), Some(Direction::Right));
    assert_eq!(Direction::from_index(4), None);
    assert_eq!(Direction::from_index(-1), None);
    for i in 0..4 {
        assert_eq!(Direction::from_index(i).unwrap().index(), i);
    }
}

#[test]
fn new_grid_is_open() {
    let g = Grid::new(7);
    assert_eq!(g.size(), 7);
    for row in 0..7 {
        for col in 0..7 {
            assert_eq!(g.get(row, col), Cell::Open);
            assert!(!g.is_wall(row, col));
        }
    }
}

#[test]
fn set_changes_one_cell() {
    let mut g = Grid::new(4);
    g.set(1, 2, Cell::Wall);
    for row in 0..4 {
        for col in 0..4 {
            assert_eq!(g.is_wall(row, col), row == 1 && col == 2);
        }
    }
    g.set(1, 2, Cell::Open);
    assert_eq!(g, Grid::new(4));
}

#[test]
fn wall_perimeter_walls_the_ring_only() {
    for size in 0..8 {
        let mut g = Grid::new(size);
        g.wall_perimeter();
        for row in 0..size {
            for col in 0..size {
                assert_eq!(g.is_wall(row, col), on_perimeter(size, row, col));
            }
        }
    }
}

#[test]
fn place_pillar_joins_the_chosen_side() {
    let cases = [
        (Direction::Up, (3, 4)),
        (Direction::Down, (5, 4)),
        (Direction::Left, (4, 3)),
        (Direction::Right, (4, 5)),
    ];
    for (dir, joined) in cases {
        let mut g = Grid::new(9);
        g.place_pillar(4, 4, dir);
        for row in 0..9 {
            for col in 0..9 {
                let expected = (row, col) == (4, 4) || (row, col) == joined;
                assert_eq!(g.is_wall(row, col), expected);
            }
        }
    }
}

#[test]
fn place_pillar_next_to_the_edge() {
    let mut g = Grid::new(3);
    g.place_pillar(2, 0, Direction::Up);
    g.place_pillar(0, 2, Direction::Left);
    let walls = [(2, 0), (1, 0), (0, 2), (0, 1)];
    for row in 0..3 {
        for col in 0..3 {
            assert_eq!(g.is_wall(row, col), walls.contains(&(row, col)));
        }
    }
}

#[test]
fn pillar_counts() {
    assert_eq!(pillar_count(0), 0);
    assert_eq!(pillar_count(1), 0);
    assert_eq!(pillar_count(4), 0);
    assert_eq!(pillar_count(5), 1);
    assert_eq!(pillar_count(6), 1);
    assert_eq!(pillar_count(7), 4);
    assert_eq!(pillar_count(25), 121);
}

#[test]
fn picks_are_taken_row_by_row() {
    let picks = [Direction::Up, Direction::Right, Direction::Left, Direction::Down];
    let g = Grid::from_picks(7, &picks);
    let expected = "\
ZZZZZZZZZZZZZZ
ZZ  ZZ      ZZ
ZZ  ZZ  ZZZZZZ
ZZ          ZZ
ZZZZZZ  ZZ  ZZ
ZZ      ZZ  ZZ
ZZZZZZZZZZZZZZ
";
    assert_eq!(g.render(), expected);
}

#[test]
fn smallest_grids() {
    assert_eq!(Grid::from_picks(0, &[]).render(), "");
    assert_eq!(Grid::from_picks(1, &[]).render(), "ZZ\n");
    assert_eq!(Grid::from_picks(2, &[]).render(), "ZZZZ\nZZZZ\n");
    assert_eq!(Grid::from_picks(3, &[]).render(), "ZZZZZZ\nZZ  ZZ\nZZZZZZ\n");
    assert_eq!(
        Grid::from_picks(5, &[Direction::Left]).render(),
        "ZZZZZZZZZZ\nZZ      ZZ\nZZZZZZ  ZZ\nZZ      ZZ\nZZZZZZZZZZ\n"
    );
}

#[test]
fn even_side_has_no_pillar_next_to_the_ring() {
    let g = uniform(6, Direction::Down);
    for row in 0..6 {
        for col in 0..6 {
            let expected = on_perimeter(6, row, col) || (row, col) == (2, 2) || (row, col) == (3, 2);
            assert_eq!(g.is_wall(row, col), expected);
        }
    }
}

#[test]
fn rendered_grid_has_n_rows_of_n_glyphs() {
    let mut rng = rand::thread_rng();
    for size in [0usize, 1, 2, 3, 4, 5, 6, 7, 8, 9, 25] {
        let g = Grid::generate(size, &mut rng);
        let text = g.render();
        assert_eq!(text.len(), size * (2 * size + 1));
        let lines: Vec<&str> = text.lines().collect();
        assert_eq!(lines.len(), size);
        for (row, line) in lines.iter().enumerate() {
            assert_eq!(line.len(), 2 * size);
            assert_eq!(*line, g.render_row(row));
            for col in 0..size {
                let glyph = &line[2 * col..2 * col + 2];
                match g.get(row, col) {
                    Cell::Wall => assert_eq!(glyph, "ZZ"),
                    Cell::Open => assert_eq!(glyph, "  "),
                }
            }
        }
    }
}

#[test]
fn every_run_walls_the_ring() {
    let mut rng = rand::thread_rng();
    for _ in 0..20 {
        let g = Grid::generate(25, &mut rng);
        for k in 0..25 {
            assert!(g.is_wall(0, k));
            assert!(g.is_wall(24, k));
            assert!(g.is_wall(k, 0));
            assert!(g.is_wall(k, 24));
        }
    }
}

#[test]
fn every_run_walls_the_inner_even_cells() {
    let mut rng = rand::thread_rng();
    for _ in 0..20 {
        let g = Grid::generate(25, &mut rng);
        for row in (2..24).step_by(2) {
            for col in (2..24).step_by(2) {
                assert!(g.is_wall(row, col));
            }
        }
    }
}

#[test]
fn every_even_wall_has_a_wall_beside_it() {
    let mut rng = rand::thread_rng();
    for size in [2usize, 3, 4, 5, 6, 7, 12, 25] {
        for _ in 0..10 {
            let g = Grid::generate(size, &mut rng);
            for row in (0..size).step_by(2) {
                for col in (0..size).step_by(2) {
                    if !g.is_wall(row, col) {
                        continue;
                    }
                    let beside = (row > 0 && g.is_wall(row - 1, col))
                        || (row + 1 < size && g.is_wall(row + 1, col))
                        || (col > 0 && g.is_wall(row, col - 1))
                        || (col + 1 < size && g.is_wall(row, col + 1));
                    assert!(beside);
                }
            }
        }
    }
}

#[test]
fn every_pillar_is_joined_exactly_once() {
    let mut rng = rand::thread_rng();
    let size = 25;
    let g = Grid::generate(size, &mut rng);
    let mut walls = 0;
    for row in 0..size {
        for col in 0..size {
            if g.is_wall(row, col) && !on_perimeter(size, row, col) && !is_pillar(size, row, col) {
                walls += 1;
            }
        }
    }
    assert!(walls <= pillar_count(size));
    assert!(walls * 2 >= pillar_count(size));
}

#[test]
fn always_up_gives_one_known_maze() {
    let up = Direction::from_index(0).unwrap();
    let mut source = Always { dir: up };
    let first = Grid::generate(25, &mut source);
    let second = Grid::generate(25, &mut source);
    assert_eq!(source, Always { dir: up });
    assert_eq!(first, second);
    assert_eq!(first, uniform(25, up));
    assert_eq!(first.render(), second.render());
    let mut walls = 0;
    for row in 0..25 {
        for col in 0..25 {
            let expected =
                on_perimeter(25, row, col) || is_pillar(25, row, col) || is_pillar(25, row + 1, col);
            assert_eq!(first.is_wall(row, col), expected);
            if expected {
                walls += 1;
            }
        }
    }
    assert_eq!(walls, 96 + 121 + 121);
}

#[test]
fn always_up_lists_the_same_walls_every_time() {
    let up = Direction::from_index(0).unwrap();
    let mut expected = Vec::new();
    for row in 0..25 {
        for col in 0..25 {
            if on_perimeter(25, row, col) || is_pillar(25, row, col) || is_pillar(25, row + 1, col) {
                expected.push((row, col));
            }
        }
    }
    assert_eq!(expected.len(), 338);
    for _ in 0..3 {
        assert_eq!(uniform(25, up).walls(), expected);
    }
}

#[test]
fn walls_are_listed_row_by_row() {
    assert!(Grid::new(0).walls().is_empty());
    assert!(Grid::new(6).walls().is_empty());
    let g = Grid::from_picks(5, &[Direction::Right]);
    let mut expected = vec![(0, 0), (0, 1), (0, 2), (0, 3), (0, 4)];
    expected.extend([(1, 0), (1, 4)]);
    expected.extend([(2, 0), (2, 2), (2, 3), (2, 4)]);
    expected.extend([(3, 0), (3, 4)]);
    expected.extend([(4, 0), (4, 1), (4, 2), (4, 3), (4, 4)]);
    assert_eq!(g.walls(), expected);
    let mut g = Grid::new(3);
    g.set(2, 1, Cell::Wall);
    g.set(0, 2, Cell::Wall);
    g.set(2, 0, Cell::Wall);
    assert_eq!(g.walls(), vec![(0, 2), (2, 0), (2, 1)]);
}

#[test]
fn always_left_joins_the_cell_left_of_each_pillar() {
    let left = Direction::from_index(2).unwrap();
    let g = Grid::generate(25, &mut Always { dir: left });
    assert_eq!(g, uniform(25, left));
    assert_eq!(g.get(2, 4), Cell::Wall);
    assert_eq!(g.get(2, 3), Cell::Wall);
    assert_eq!(g.get(2, 5), Cell::Wall);
    assert_eq!(g.get(2, 23), Cell::Open);
    assert_eq!(g.get(1, 4), Cell::Open);
    assert_eq!(g.get(3, 4), Cell::Open);
}

#[test]
fn pillar_2_4_joined_left_walls_2_3() {
    let mut g = Grid::new(25);
    g.wall_perimeter();
    g.place_pillar(2, 2, Direction::Left);
    assert_eq!(g.get(2, 3), Cell::Open);
    g.place_pillar(2, 4, Direction::Left);
    assert_eq!(g.get(2, 3), Cell::Wall);
    assert_eq!(g.get(2, 4), Cell::Wall);
}

#[test]
fn a_fixed_source_gives_its_direction_only() {
    for dir in [Direction::Up, Direction::Down, Direction::Left, Direction::Right] {
        let picks = draw_directions(&mut Always { dir }, 50);
        assert_eq!(picks, vec![dir; 50]);
        for size in 0..12 {
            assert_eq!(Grid::generate(size, &mut Always { dir }), uniform(size, dir));
        }
    }
}

#[test]
fn draws_cover_all_four_directions() {
    let mut rng = rand::thread_rng();
    let picks = draw_directions(&mut rng, 2000);
    assert_eq!(picks.len(), 2000);
    for dir in [Direction::Up, Direction::Down, Direction::Left, Direction::Right] {
        assert!(picks.contains(&dir));
    }
    assert!(draw_directions(&mut rng, 0).is_empty());
}

#[test]
fn random_mazes_differ() {
    let mut rng = rand::thread_rng();
    let first = Grid::generate(25, &mut rng);
    let mut differs = false;
    for _ in 0..20 {
        if Grid::generate(25, &mut rng) != first {
            differs = true;
        }
    }
    assert!(differs);
}
