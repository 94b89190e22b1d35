use mandelbrot::calculate_mandelbrot;
use mandelbrot::color_for;
use mandelbrot::color_name;
use mandelbrot::render_mandelbrot;
use mandelbrot::Color;
use mandelbrot::FillCmd;
use mandelbrot::SCALE;

#[test]
fn bucket_boundaries_first_match_wins() {
    // 2, 5, 10 and 30 each close one range and open the next; the earlier
    // range wins.
    assert_eq!(color_for(2), Color::Red);
    assert_eq!(color_for(5), Color::Green);
    assert_eq!(color_for(10), Color::Blue);
    assert_eq!(color_for(30), Color::Orange);
    assert_eq!(color_for(700), Color::Silver);
    assert_eq!(color_for(701), Color::Black);
}

#[test]
fn bucket_sweep() {
    for v in 0..=2 {
        assert_eq!(color_for(v), Color::Red);
    }
    for v in 3..=5 {
        assert_eq!(color_for(v), Color::Green);
    }
    for v in 6..=10 {
        assert_eq!(color_for(v), Color::Blue);
    }
    for v in 11..=30 {
        assert_eq!(color_for(v), Color::Orange);
    }
    for v in 31..=100 {
        assert_eq!(color_for(v), Color::Pink);
    }
    for v in 101..=200 {
        assert_eq!(color_for(v), Color::Purple);
    }
    for v in 201..=400 {
        assert_eq!(color_for(v), Color::White);
    }
    for v in 401..=700 {
        assert_eq!(color_for(v), Color::Silver);
    }
    for v in [701, 702, 1000, 100000] {
        assert_eq!(color_for(v), Color::Black);
    }
}

#[test]
fn color_names() {
    assert_eq!(color_name(Color::Red), "red");
    assert_eq!(color_name(Color::Green), "green");
    assert_eq!(color_name(Color::Blue), "blue");
    assert_eq!(color_name(Color::Orange), "orange");
    assert_eq!(color_name(Color::Pink), "pink");
    assert_eq!(color_name(Color::Purple), "purple");
    assert_eq!(color_name(Color::White), "white");
    assert_eq!(color_name(Color::Silver), "silver");
    assert_eq!(color_name(Color::Black), "black");
}

#[test]
fn render_emits_row_major_transposed_commands() {
    let field = vec![vec![0usize, 3], vec![11, 701]];
    let cmds = render_mandelbrot(&field);
    assert_eq!(cmds.len(), 4);
    // Row index becomes the horizontal draw coordinate.
    assert_eq!(cmds[0], FillCmd { x: 0, y: 0, color: Color::Red });
    assert_eq!(cmds[1], FillCmd { x: 0, y: 1, color: Color::Green });
    assert_eq!(cmds[2], FillCmd { x: 1, y: 0, color: Color::Orange });
    assert_eq!(cmds[3], FillCmd { x: 1, y: 1, color: Color::Black });
}

#[test]
fn render_empty_field() {
    let field: Vec<Vec<usize>> = Vec::new();
    let cmds = render_mandelbrot(&field);
    assert_eq!(cmds.len(), 0);
}

#[test]
fn render_single_row() {
    let field = vec![vec![2usize, 400, 500]];
    let cmds = render_mandelbrot(&field);
    assert_eq!(cmds.len(), 3);
    assert_eq!(cmds[0], FillCmd { x: 0, y: 0, color: Color::Red });
    assert_eq!(cmds[1], FillCmd { x: 0, y: 1, color: Color::White });
    assert_eq!(cmds[2], FillCmd { x: 0, y: 2, color: Color::Silver });
}

#[test]
fn render_computed_field() {
    let field = calculate_mandelbrot(100, -2 * SCALE, SCALE, -SCALE, SCALE, 3, 2);
    let cmds = render_mandelbrot(&field);
    assert_eq!(cmds.len(), 6);
    for (k, cmd) in cmds.iter().enumerate() {
        let iy = k / 3;
        let ix = k % 3;
        assert_eq!(cmd.x, iy);
        assert_eq!(cmd.y, ix);
        assert_eq!(cmd.color, color_for(field[iy][ix]));
    }
}
