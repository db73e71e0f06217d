use snake::{direction_left, direction_up, DrawCommand, Pos, SnakeGame};

#[test]
fn background_clears_then_dots_every_cell() {
    let g = SnakeGame::from_parts(2, 3, 10, 1, vec![Pos(0, 0)], direction_left(), Pos(1, 1))
        .unwrap();
    assert_eq!(
        g.draw_bg(),
        vec![
            DrawCommand::Clear,
            DrawCommand::Dot { left: 0, top: 0 },
            DrawCommand::Dot { left: 0, top: 10 },
            DrawCommand::Dot { left: 0, top: 20 },
            DrawCommand::Dot { left: 10, top: 0 },
            DrawCommand::Dot { left: 10, top: 10 },
            DrawCommand::Dot { left: 10, top: 20 },
        ]
    );
}

#[test]
fn frame_without_a_look_for_the_food() {
    let g = SnakeGame::from_parts(
        2,
        2,
        10,
        4,
        vec![Pos(1, 0), Pos(1, 1)],
        direction_up(),
        Pos(0, 1),
    )
    .unwrap();
    assert_eq!(
        g.draw(),
        vec![
            DrawCommand::Clear,
            DrawCommand::Dot { left: 0, top: 0 },
            DrawCommand::Dot { left: 0, top: 10 },
            DrawCommand::Dot { left: 10, top: 0 },
            DrawCommand::Dot { left: 10, top: 10 },
            DrawCommand::Head { x: 10, y: 0 },
            DrawCommand::Segment { x: 10, y: 10 },
            DrawCommand::FoodBlock { x: 0, y: 10 },
        ]
    );
}

#[test]
fn frame_with_a_look_for_the_food() {
    let mut g = SnakeGame::from_parts(
        2,
        2,
        10,
        4,
        vec![Pos(1, 0), Pos(1, 1)],
        direction_up(),
        Pos(0, 1),
    )
    .unwrap();
    g.place_food(1, 3);
    let frame = g.draw();
    assert_eq!(frame.len(), 8);
    assert_eq!(frame[..5], g.draw_bg()[..]);
    assert_eq!(frame[5], DrawCommand::Head { x: 10, y: 0 });
    assert_eq!(frame[6], DrawCommand::Segment { x: 10, y: 10 });
    assert_eq!(frame[7], DrawCommand::Food { variant: 3, x: 0, y: 10 });
}

#[test]
fn frame_of_a_new_game() {
    let g = SnakeGame::new(20, 20, 25, 2);
    let frame = g.draw();
    assert_eq!(frame.len(), 1 + 400 + 1 + 1);
    assert_eq!(frame[0], DrawCommand::Clear);
    assert_eq!(frame[1], DrawCommand::Dot { left: 0, top: 0 });
    assert_eq!(frame[2], DrawCommand::Dot { left: 0, top: 25 });
    assert_eq!(frame[21], DrawCommand::Dot { left: 25, top: 0 });
    assert_eq!(frame[400], DrawCommand::Dot { left: 475, top: 475 });
    assert_eq!(frame[401], DrawCommand::Head { x: 450, y: 250 });
    let food = g.food();
    let variant = g.food_variant().unwrap();
    assert_eq!(
        frame[402],
        DrawCommand::Food { variant, x: food.0 * 25, y: food.1 * 25 }
    );
}

#[test]
fn frame_with_cells_of_no_size() {
    let g = SnakeGame::from_parts(2, 1, 0, 1, vec![Pos(1, 0)], direction_left(), Pos(0, 0))
        .unwrap();
    assert_eq!(
        g.draw(),
        vec![
            DrawCommand::Clear,
            DrawCommand::Dot { left: 0, top: 0 },
            DrawCommand::Dot { left: 0, top: 0 },
            DrawCommand::Head { x: 0, y: 0 },
            DrawCommand::FoodBlock { x: 0, y: 0 },
        ]
    );
}
