#[test]
fn source_over_ui_preserves_opaque_output() {
    let source = [0.5_f32, 0.0, 0.0, 0.5];
    let destination = [0.0_f32, 0.5, 0.0, 1.0];
    let output = [
        source[0] * source[3] + destination[0] * destination[3] * (1.0 - source[3]),
        source[1] * source[3] + destination[1] * destination[3] * (1.0 - source[3]),
        source[2] * source[3] + destination[2] * destination[3] * (1.0 - source[3]),
        source[3] + destination[3] * (1.0 - source[3]),
    ];
    assert_eq!(output, [0.25, 0.25, 0.0, 1.0]);
}
