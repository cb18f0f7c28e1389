use binaural::convolution::{convolve, quantize, virtualize};
use binaural::error::RenderError;

const U: i32 = 65536;

#[test]
fn single_sample_through_unit_response_is_unchanged() {
    let output = convolve(&vec![5], &vec![U]).unwrap();
    assert_eq!(output, vec![5]);
    assert_eq!(output.len(), 1);
}

#[test]
fn two_tap_response_adds_neighbours() {
    let output = convolve(&vec![1, 2, 3], &vec![U, U]).unwrap();
    assert_eq!(output, vec![1, 3, 5, 3]);
    assert_eq!(output.len(), 4);
}

#[test]
fn output_is_one_shorter_than_both_lengths_together() {
    for input_length in 1..6usize {
        for response_length in 1..6usize {
            let input: Vec<i16> = vec![1; input_length];
            let response: Vec<i32> = vec![U; response_length];
            let output = convolve(&input, &response).unwrap();
            assert_eq!(output.len(), input_length + response_length - 1);
        }
    }
}

#[test]
fn unit_impulse_gives_the_input_back() {
    let input: Vec<i16> = vec![0, 1, -1, 32767, -32768, 12345, -4321];
    assert_eq!(convolve(&input, &vec![U]).unwrap(), input);
}

#[test]
fn delayed_impulse_shifts_the_input() {
    assert_eq!(convolve(&vec![4, 5], &vec![0, 0, U]).unwrap(), vec![0, 0, 4, 5]);
}

#[test]
fn negative_weights_subtract() {
    assert_eq!(convolve(&vec![1, 2, 3], &vec![U, -U]).unwrap(), vec![1, 1, 1, -3]);
}

#[test]
fn general_case_matches_the_sum_formula() {
    // weights 0.5, -0.25, 2
    let output = convolve(&vec![8, -4, 12], &vec![U / 2, -U / 4, 2 * U]).unwrap();
    // n=0: 4; n=1: -2 - 2; n=2: 6 + 1 + 16; n=3: -3 - 8; n=4: 24
    assert_eq!(output, vec![4, -4, 23, -11, 24]);
}

#[test]
fn fraction_of_a_sample_is_dropped_toward_zero() {
    assert_eq!(convolve(&vec![3], &vec![U / 2]).unwrap(), vec![1]);
    assert_eq!(convolve(&vec![-3], &vec![U / 2]).unwrap(), vec![-1]);
    assert_eq!(convolve(&vec![1], &vec![U - 1]).unwrap(), vec![0]);
    assert_eq!(convolve(&vec![-1], &vec![U - 1]).unwrap(), vec![0]);
    assert_eq!(convolve(&vec![1], &vec![1 - U]).unwrap(), vec![0]);
}

#[test]
fn sums_are_exact_before_the_fraction_is_dropped() {
    // Two halves make a whole at the middle place.
    assert_eq!(convolve(&vec![1, 1], &vec![U / 2, U / 2]).unwrap(), vec![0, 1, 0]);
    assert_eq!(convolve(&vec![-1, -1], &vec![U / 2, U / 2]).unwrap(), vec![0, -1, 0]);
}

#[test]
fn loud_samples_are_held_to_the_sixteen_bit_range() {
    assert_eq!(convolve(&vec![32767], &vec![2 * U]).unwrap(), vec![32767]);
    assert_eq!(convolve(&vec![-32768], &vec![2 * U]).unwrap(), vec![-32768]);
    assert_eq!(convolve(&vec![-32768], &vec![-U]).unwrap(), vec![32767]);
    assert_eq!(
        convolve(&vec![32767, 32767], &vec![U, U]).unwrap(),
        vec![32767, 32767, 32767]
    );
    assert_eq!(
        convolve(&vec![-20000, -20000], &vec![U, U]).unwrap(),
        vec![-20000, -32768, -20000]
    );
    assert_eq!(convolve(&vec![i16::MIN], &vec![i32::MIN]).unwrap(), vec![32767]);
    assert_eq!(convolve(&vec![i16::MIN], &vec![i32::MAX]).unwrap(), vec![-32768]);
}

#[test]
fn quantize_divides_drops_and_holds() {
    assert_eq!(quantize(0), 0);
    assert_eq!(quantize(65535), 0);
    assert_eq!(quantize(65536), 1);
    assert_eq!(quantize(-65535), 0);
    assert_eq!(quantize(-65536), -1);
    assert_eq!(quantize(-65537), -1);
    assert_eq!(quantize(32767 * 65536), 32767);
    assert_eq!(quantize(32768 * 65536 - 1), 32767);
    assert_eq!(quantize(32768 * 65536), 32767);
    assert_eq!(quantize(-32768 * 65536), -32768);
    assert_eq!(quantize(-32769 * 65536), -32768);
    assert_eq!(quantize(i128::MAX), 32767);
    assert_eq!(quantize(i128::MIN), -32768);
}

#[test]
fn convolution_of_nothing_is_refused() {
    let nothing: Vec<i16> = Vec::new();
    let no_response: Vec<i32> = Vec::new();
    assert_eq!(convolve(&nothing, &vec![U]), Err(RenderError::EmptyInput));
    assert_eq!(convolve(&vec![1], &no_response), Err(RenderError::EmptyInput));
    assert_eq!(convolve(&nothing, &no_response), Err(RenderError::EmptyInput));
}

#[test]
fn both_channels_share_one_length() {
    let (left, right) = virtualize(&vec![1, 2, 3], &vec![U], &vec![0, 0, U]).unwrap();
    assert_eq!(left, vec![1, 2, 3, 0, 0, 0]);
    assert_eq!(right, vec![0, 0, 1, 2, 3, 0]);
    let (left, right) = virtualize(&vec![1, 2, 3], &vec![0, 0, 0, U], &vec![U, U]).unwrap();
    assert_eq!(left, vec![0, 0, 0, 1, 2, 3, 0]);
    assert_eq!(right, vec![1, 3, 5, 3, 0, 0, 0]);
}

#[test]
fn each_channel_begins_with_its_own_convolution() {
    let input: Vec<i16> = vec![100, -200, 300, 50];
    let left: Vec<i32> = vec![U / 2, U, -U / 4];
    let right: Vec<i32> = vec![0, U, U / 8, 3 * U, -U];
    let (left_channel, right_channel) = virtualize(&input, &left, &right).unwrap();
    let left_alone = convolve(&input, &left).unwrap();
    let right_alone = convolve(&input, &right).unwrap();
    assert_eq!(left_channel.len(), 9);
    assert_eq!(right_channel.len(), 9);
    assert_eq!(&left_channel[..left_alone.len()], &left_alone[..]);
    assert_eq!(&right_channel[..right_alone.len()], &right_alone[..]);
    assert!(left_channel[left_alone.len()..].iter().all(|&sample| sample == 0));
    assert!(right_channel[right_alone.len()..].iter().all(|&sample| sample == 0));
}

#[test]
fn silence_in_gives_silence_out() {
    for length in 1..5usize {
        let input: Vec<i16> = vec![0; length];
        let left: Vec<i32> = vec![0, 0, 0, U, U / 2];
        let right: Vec<i32> = vec![i32::MAX, i32::MIN];
        let (left_channel, right_channel) = virtualize(&input, &left, &right).unwrap();
        assert_eq!(left_channel, vec![0i16; length + 5]);
        assert_eq!(right_channel, vec![0i16; length + 5]);
    }
}

#[test]
fn render_of_nothing_is_refused() {
    let nothing: Vec<i16> = Vec::new();
    let no_response: Vec<i32> = Vec::new();
    assert_eq!(virtualize(&nothing, &vec![U], &vec![U]), Err(RenderError::EmptyInput));
    assert_eq!(virtualize(&vec![1], &no_response, &vec![U]), Err(RenderError::EmptyInput));
    assert_eq!(virtualize(&vec![1], &vec![U], &no_response), Err(RenderError::EmptyInput));
}

#[test]
fn long_input_accumulates_without_loss() {
    let input: Vec<i16> = vec![1; 1000];
    let response: Vec<i32> = vec![U / 4; 8];
    let output = convolve(&input, &response).unwrap();
    assert_eq!(output.len(), 1007);
    assert_eq!(output[0], 0);
    assert_eq!(output[3], 1);
    assert_eq!(output[7], 2);
    assert_eq!(output[500], 2);
    assert_eq!(output[1003], 1);
    assert_eq!(output[1006], 0);
}
