use stegs::glyph::encode_message;
use stegs::spiral::{spiral_plan, SpiralStep};

#[test]
fn spiral_plan_of_two_symbols() {
    // 'a' stays at section 0, 'z' (25) goes back clockwise-less round.
    let steps = spiral_plan(&[0, 25]);
    assert_eq!(
        steps,
        vec![
            SpiralStep::Nose { layer: 1, section: 0, sweep: false },
            SpiralStep::Arc { layer: 1, section: 25, large_arc: false, sweep: false },
            SpiralStep::Nose { layer: 2, section: 25, sweep: true },
        ]
    );
}

#[test]
fn spiral_large_arc_beyond_half_round() {
    let steps = spiral_plan(&[15]);
    assert_eq!(
        steps,
        vec![
            SpiralStep::Arc { layer: 0, section: 15, large_arc: true, sweep: true },
            SpiralStep::Nose { layer: 1, section: 15, sweep: false },
        ]
    );
    let steps = spiral_plan(&[14]);
    assert_eq!(steps[0], SpiralStep::Arc { layer: 0, section: 14, large_arc: false, sweep: true });
}

#[test]
fn spiral_sections_wrap_at_twenty_eight() {
    let steps = spiral_plan(&[30, -3]);
    assert_eq!(steps[0], SpiralStep::Arc { layer: 0, section: 2, large_arc: false, sweep: true });
    assert_eq!(steps[2], SpiralStep::Arc { layer: 1, section: -3, large_arc: false, sweep: false });
}

#[test]
fn spiral_winds_outwards_one_layer_per_symbol() {
    let (_, encoded) = encode_message("hello world");
    let steps = spiral_plan(&encoded);
    let layer = |s: &SpiralStep| match *s {
        SpiralStep::Arc { layer, .. } => layer,
        SpiralStep::Nose { layer, .. } => layer,
    };
    assert!(steps.windows(2).all(|w| layer(&w[0]) <= layer(&w[1])));
    let noses: Vec<usize> = steps
        .iter()
        .filter_map(|s| match *s {
            SpiralStep::Nose { layer, .. } => Some(layer),
            _ => None,
        })
        .collect();
    assert_eq!(noses, (1..=11).collect::<Vec<usize>>());
    assert_eq!(steps.len(), 21);
}
