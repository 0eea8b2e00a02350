use bench_hashes::input::make_input;

#[test]
fn one_byte_input() {
    assert_eq!(make_input(1), vec![167]);
}

#[test]
fn eight_byte_input() {
    assert_eq!(make_input(8), vec![171, 90, 226, 179, 227, 231, 94, 245]);
}

#[test]
fn sixty_four_byte_input() {
    let input = make_input(64);
    assert_eq!(input.len(), 64);
    assert_eq!(
        &input[..16],
        &[207, 90, 176, 183, 179, 177, 15, 69, 24, 91, 78, 28, 152, 16, 76, 235]
    );
    assert_eq!(input.iter().map(|byte| *byte as u32).sum::<u32>(), 7903);
}

#[test]
fn input_of_one_kibibyte() {
    let input = make_input(1024);
    assert_eq!(input.len(), 1024);
    assert_eq!(input.iter().map(|byte| *byte as u32).sum::<u32>(), 133_174);
}

#[test]
fn inputs_are_deterministic() {
    assert_eq!(make_input(3072), make_input(3072));
}
