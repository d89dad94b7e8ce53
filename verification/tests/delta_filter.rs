use boop::BoopImage;

fn forward(bytes: &[u8]) -> Vec<u8> {
    BoopImage::new(0, 0, bytes.to_vec()).delta_encode().to_vec()
}

fn assert_inverts(bytes: &[u8]) {
    let filtered = forward(bytes);
    assert_eq!(filtered.len(), bytes.len());
    assert_eq!(BoopImage::delta_decode(&filtered), bytes);
}

#[test]
fn forward_keeps_first_byte_and_stores_differences() {
    assert_eq!(
        forward(&[10, 20, 30, 12, 22, 32, 14, 24, 34, 16, 26, 36]),
        vec![10, 10, 10, 238, 10, 10, 238, 10, 10, 238, 10, 10]
    );
}

#[test]
fn forward_wraps_below_zero() {
    assert_eq!(forward(&[0, 255, 0, 1, 0]), vec![0, 255, 1, 1, 255]);
    assert_eq!(forward(&[200, 100]), vec![200, 156]);
}

#[test]
fn inverse_replays_running_sum() {
    assert_eq!(BoopImage::delta_decode(&[10, 10, 10, 238]), vec![10, 20, 30, 12]);
    assert_eq!(BoopImage::delta_decode(&[0, 255, 1, 1, 255]), vec![0, 255, 0, 1, 0]);
    assert_eq!(BoopImage::delta_decode(&[200, 100]), vec![200, 44]);
}

#[test]
fn empty_sequence_stays_empty() {
    assert!(forward(&[]).is_empty());
    assert!(BoopImage::delta_decode(&[]).is_empty());
    assert_inverts(&[]);
}

#[test]
fn single_byte_is_its_own_filtered_form() {
    for b in [0u8, 1, 127, 128, 255] {
        assert_eq!(forward(&[b]), vec![b]);
        assert_eq!(BoopImage::delta_decode(&[b]), vec![b]);
    }
}

#[test]
fn inverse_undoes_forward_at_the_boundaries() {
    assert_inverts(&[0x00, 0xff]);
    assert_inverts(&[0xff, 0x00]);
    assert_inverts(&[0x00, 0xff, 0x00, 0xff, 0xff, 0x00, 0x00]);
    assert_inverts(&[0xff; 9]);
    assert_inverts(&[0x00; 9]);
}

#[test]
fn inverse_undoes_forward_on_monotone_sequences() {
    let up: Vec<u8> = (0..=255).collect();
    let down: Vec<u8> = (0..=255).rev().collect();
    assert_inverts(&up);
    assert_inverts(&down);
    assert_eq!(forward(&up)[1..], [1u8; 255]);
    assert_eq!(forward(&down)[1..], [255u8; 255]);
}

#[test]
fn inverse_undoes_forward_on_every_length_up_to_a_bound() {
    let mut state: u32 = 7;
    for len in 0..200usize {
        let mut bytes = Vec::with_capacity(len);
        for _ in 0..len {
            state = state.wrapping_mul(1103515245).wrapping_add(12345);
            bytes.push((state >> 16) as u8);
        }
        assert_inverts(&bytes);
    }
}

#[test]
fn inverse_undoes_forward_on_every_pair_of_bytes() {
    for a in 0..=255u8 {
        for b in 0..=255u8 {
            assert_eq!(BoopImage::delta_decode(&forward(&[a, b])), vec![a, b]);
        }
    }
}
