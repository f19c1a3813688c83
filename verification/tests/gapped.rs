use robot_maze::execution::Tile;
use robot_maze::generation::actual_prim_generator::{GappedPrimGenerator, GridCell};
use robot_maze::generation::{Generator, Maze};
use robot_maze::{GeneratorOptions, Point};

fn rows_of(maze: &Maze<Tile>) -> Vec<String> {
    maze.get_grid()
        .iter()
        .map(|row| {
            row.iter()
                .map(|tile| match tile {
                    Tile::Wall => '#',
                    Tile::Passage => ' ',
                    Tile::BeenBefore => '*',
                })
                .collect()
        })
        .collect()
}

fn reachable(maze: &Maze<Tile>, from: Point) -> Vec<Point> {
    let mut seen = vec![from];
    let mut queue = vec![from];
    while let Some(Point(x, y)) = queue.pop() {
        let mut around = vec![Point(x + 1, y), Point(x, y + 1)];
        if x > 0 {
            around.push(Point(x - 1, y));
        }
        if y > 0 {
            around.push(Point(x, y - 1));
        }
        for next in around {
            if maze.can_move(next) && !seen.contains(&next) {
                seen.push(next);
                queue.push(next);
            }
        }
    }
    seen
}

fn generator_for(width: i32, height: i32) -> GappedPrimGenerator {
    let mut generator = GappedPrimGenerator::new();
    generator.set_options(GeneratorOptions { width, height });
    generator
}

fn run_with_first_picks(width: i32, height: i32) -> Maze<Tile> {
    let mut generator = generator_for(width, height);
    generator.begin();
    while !generator.get_frontier().is_empty() {
        generator.expand(0, 0);
    }
    generator.to_maze()
}

#[test]
fn test() {
    let mut generator = GappedPrimGenerator::new();

    let maze = generator.generate_maze();

    for i in maze.get_grid().iter() {
        let mut line = String::new();
        for j in i.iter() {
            line.push_str(match j {
                Tile::Wall => "#",
                Tile::Passage => " ",
                Tile::BeenBefore => "*",
            });
        }
        println!("{}", line);
    }
    println!();

    assert_eq!(1, 1);
}

#[test]
fn gapped_generator_names_itself() {
    let generator = GappedPrimGenerator::new();
    assert_eq!(generator.get_name(), "Prim Generator");
    assert_eq!(generator.get_description(), "A maze generator");
    assert_eq!(generator.get_options().width, 30);
    assert_eq!(generator.get_options().height, 30);
    assert!(generator.get_frontier().is_empty());
}

#[test]
fn gapped_generator_takes_any_options() {
    let mut generator = GappedPrimGenerator::new();
    generator.set_options(GeneratorOptions { width: 1, height: 2 });
    assert_eq!(generator.get_options().width, 1);
    assert_eq!(generator.get_options().height, 2);
    assert_eq!(generator.get_real_width(), 3);
    assert_eq!(generator.get_real_height(), 5);
}

#[test]
fn gapped_maze_has_the_documented_size() {
    for (width, height) in [(1, 1), (2, 5), (7, 3), (30, 30)] {
        let mut generator = generator_for(width, height);
        assert_eq!(generator.get_real_width(), 2 * width as usize + 1);
        assert_eq!(generator.get_real_height(), 2 * height as usize + 1);
        let maze = generator.generate_maze();
        assert_eq!(maze.get_width(), 2 * width as usize + 1);
        assert_eq!(maze.get_height(), 2 * height as usize + 1);
        assert_eq!(maze.get_grid().len(), 2 * height as usize + 1);
        for row in maze.get_grid() {
            assert_eq!(row.len(), 2 * width as usize + 1);
        }
        assert_eq!(maze.get_start(), Point(0, 0));
        assert_eq!(maze.get_finish(), Point(0, 0));
    }
}

#[test]
fn gapped_maze_has_walls_round_it_and_rooms_in_it() {
    for _ in 0..10 {
        let mut generator = generator_for(6, 4);
        let maze = generator.generate_maze();
        for y in 0..9 {
            for x in 0..13 {
                let tile = *maze.get_cell(Point(x, y)).unwrap();
                assert!(tile == Tile::Wall || tile == Tile::Passage);
                if x == 0 || y == 0 || x == 12 || y == 8 {
                    assert_eq!(tile, Tile::Wall);
                }
                if x % 2 == 0 && y % 2 == 0 {
                    assert_eq!(tile, Tile::Wall);
                }
                if x % 2 == 1 && y % 2 == 1 {
                    assert_eq!(tile, Tile::Passage);
                }
            }
        }
    }
}

#[test]
fn gapped_rooms_are_all_joined() {
    for _ in 0..10 {
        let mut generator = generator_for(5, 6);
        let mut maze = generator.generate_maze();
        maze.set_start(Point(1, 1));
        maze.set_finish(Point(9, 11));
        assert_eq!(maze.get_cell(maze.get_finish()), Some(&Tile::Passage));
        let from_start = reachable(&maze, maze.get_start());
        assert!(from_start.contains(&maze.get_finish()));
        for y in 0..13 {
            for x in 0..11 {
                if maze.can_move(Point(x, y)) {
                    assert!(from_start.contains(&Point(x, y)));
                }
            }
        }
    }
}

#[test]
fn gapped_generator_keeps_the_grid_of_its_last_run() {
    let mut generator = generator_for(3, 2);
    let maze = generator.generate_maze();
    assert!(generator.get_frontier().is_empty());
    for y in 0..5 {
        for x in 0..7 {
            let expected = match generator.get_grid(Point(x, y)) {
                GridCell::Passage => Tile::Passage,
                GridCell::Wall => Tile::Wall,
            };
            assert_eq!(maze.get_cell(Point(x, y)), Some(&expected));
        }
    }
    let again = generator.generate_maze();
    assert_eq!(again.get_width(), 7);
    assert_eq!(again.get_cell(Point(1, 1)), Some(&Tile::Passage));
}

#[test]
fn gapped_run_begins_at_the_first_room() {
    let mut generator = generator_for(2, 2);
    generator.begin();
    assert_eq!(generator.get_frontier(), &vec![Point(1, 1)]);
    assert_eq!(rows_of(&generator.to_maze()), vec!["#####", "# ###", "#####", "#####", "#####"]);
}

#[test]
fn legal_points_lie_inside_the_border() {
    let generator = generator_for(2, 3);
    assert!(generator.is_point_legal(Point(1, 1)));
    assert!(generator.is_point_legal(Point(3, 5)));
    assert!(generator.is_point_legal(Point(2, 2)));
    assert!(!generator.is_point_legal(Point(0, 1)));
    assert!(!generator.is_point_legal(Point(1, 0)));
    assert!(!generator.is_point_legal(Point(4, 1)));
    assert!(!generator.is_point_legal(Point(1, 6)));
    assert!(!generator.is_point_legal(Point(usize::MAX, 1)));
}

#[test]
fn two_gapped_cells_are_west_east_north_south() {
    let generator = generator_for(4, 4);
    assert_eq!(
        generator.get_two_gapped_cells(Point(5, 3)),
        vec![Point(3, 3), Point(7, 3), Point(5, 1), Point(5, 5)]
    );
}

#[test]
fn two_gapped_cells_wrap_round_below_two() {
    let generator = generator_for(4, 4);
    assert_eq!(
        generator.get_two_gapped_cells(Point(1, 0)),
        vec![Point(usize::MAX, 0), Point(3, 0), Point(1, usize::MAX - 1), Point(1, 2)]
    );
}

#[test]
fn frontier_and_neighbours_split_the_legal_cells_two_away() {
    let mut generator = generator_for(2, 2);
    generator.begin();
    assert_eq!(generator.get_frontier_around_point(Point(1, 1)), vec![Point(3, 1), Point(1, 3)]);
    assert_eq!(generator.get_neighbours_around_point(Point(1, 1)), vec![]);
    assert_eq!(generator.get_frontier_around_point(Point(3, 1)), vec![Point(3, 3)]);
    assert_eq!(generator.get_neighbours_around_point(Point(3, 1)), vec![Point(1, 1)]);
    assert_eq!(generator.get_frontier_around_point(Point(3, 3)), vec![Point(1, 3), Point(3, 1)]);
}

#[test]
fn point_between_is_the_midpoint() {
    let generator = generator_for(4, 4);
    assert_eq!(generator.point_between(Point(3, 5), Point(5, 5)), Point(4, 5));
    assert_eq!(generator.point_between(Point(5, 5), Point(3, 5)), Point(4, 5));
    assert_eq!(generator.point_between(Point(3, 5), Point(3, 7)), Point(3, 6));
    assert_eq!(generator.point_between(Point(3, 5), Point(3, 3)), Point(3, 4));
}

#[test]
fn connect_chosen_neighbour_opens_the_gap() {
    let mut generator = generator_for(2, 2);
    generator.begin();
    generator.connect_chosen_neighbour(Point(1, 3), 0);
    assert_eq!(generator.get_grid(Point(1, 2)), GridCell::Passage);
    assert_eq!(generator.get_grid(Point(1, 3)), GridCell::Wall);
    assert_eq!(generator.get_grid(Point(2, 1)), GridCell::Wall);
}

#[test]
fn connect_random_neighbour_opens_a_gap_to_a_passage() {
    let mut generator = generator_for(2, 2);
    generator.begin();
    generator.connect_random_neighbour(Point(3, 1));
    assert_eq!(generator.get_grid(Point(2, 1)), GridCell::Passage);
    generator.connect_random_neighbour(Point(3, 3));
    assert_eq!(rows_of(&generator.to_maze()), vec!["#####", "#  ##", "#####", "#####", "#####"]);
}

#[test]
fn gapped_step_opens_a_room_and_links_it() {
    let mut generator = generator_for(2, 1);
    generator.begin();
    generator.expand(0, 0);
    assert_eq!(generator.get_frontier(), &vec![Point(3, 1)]);
    assert_eq!(rows_of(&generator.to_maze()), vec!["#####", "# ###", "#####"]);
    generator.expand(0, 0);
    assert!(generator.get_frontier().is_empty());
    assert_eq!(rows_of(&generator.to_maze()), vec!["#####", "#   #", "#####"]);
}

#[test]
fn gapped_step_links_to_the_chosen_passage() {
    let mut generator = generator_for(2, 2);
    generator.begin();
    generator.expand(0, 0);
    assert_eq!(generator.get_frontier(), &vec![Point(3, 1), Point(1, 3)]);
    generator.expand(0, 0);
    assert_eq!(generator.get_frontier(), &vec![Point(1, 3), Point(3, 3)]);
    generator.expand(0, 0);
    assert_eq!(generator.get_frontier(), &vec![Point(3, 3), Point(3, 3)]);
    // (3, 3) has the passages (1, 3) and (3, 1) two away, in that order.
    assert_eq!(generator.get_neighbours_around_point(Point(3, 3)), vec![Point(1, 3), Point(3, 1)]);
    generator.expand(0, 1);
    assert_eq!(rows_of(&generator.to_maze()), vec!["#####", "#   #", "# # #", "# # #", "#####"]);
    assert_eq!(generator.get_frontier(), &vec![Point(3, 3)]);
    // The second entry for (3, 3) links it once more, here to (1, 3), which
    // closes a ring.
    generator.expand(0, 0);
    assert!(generator.get_frontier().is_empty());
    assert_eq!(rows_of(&generator.to_maze()), vec!["#####", "#   #", "# # #", "#   #", "#####"]);
}

#[test]
fn gapped_run_of_one_room_is_a_single_passage() {
    let maze = run_with_first_picks(1, 1);
    assert_eq!(rows_of(&maze), vec!["###", "# #", "###"]);
}

#[test]
fn gapped_run_is_fixed_by_its_picks() {
    let first = run_with_first_picks(4, 3);
    let second = run_with_first_picks(4, 3);
    assert_eq!(rows_of(&first), rows_of(&second));
    assert_eq!(first.get_width(), 9);
    assert_eq!(first.get_height(), 7);
}
