//! The health-checked entropy source: acceptance of a healthy stream,
//! and detection of frozen sources, repeated substrings, byte runs and
//! over-frequent bytes.

use smallrand::entropy::{EntropyError, EntropySource};
use smallrand::secure_entropy::{CheckedDevice, SecureEntropy};

#[test]
fn secure_device_generates_non_zero_data() {
    let mut output = vec![0_u8; 8];
    SecureEntropy::new().unwrap().fill(&mut output).unwrap();
    assert_ne!(vec![0_u8; 8], output);
}

struct TestDevice {
    data: Vec<Vec<u8>>,
}

impl TestDevice {
    fn new(data: Vec<Vec<u8>>) -> Self {
        Self { data }
    }
}

impl EntropySource for TestDevice {
    type Model = ();

    fn fill(&mut self, destination: &mut Vec<u8>) -> Result<(), EntropyError> {
        if self.data.is_empty() {
            return Err(EntropyError::Unavailable);
        }
        let block = self.data.remove(0);
        assert_eq!(block.len(), destination.len());
        destination.clear();
        destination.extend_from_slice(&block);
        Ok(())
    }
}

#[test]
fn none_repeating_device_is_accepted() {
    let mut output = vec![0_u8; 16];
    SecureEntropy::new().unwrap().fill(&mut output).unwrap();
    let mut device = CheckedDevice::new(TestDevice::new(vec![
        vec![0, 1, 2, 3, 4, 5, 6, 7],
        vec![8, 9, 10, 11, 12, 13, 14, 15],
        vec![16, 17, 18, 19, 20, 21, 22, 23, 24, 25, 26, 27, 28, 29, 30, 31],
    ]))
    .unwrap();
    device.fill(&mut output).unwrap();
}

#[test]
fn repeating_device_is_detected() {
    let mut output = vec![0_u8; 8];
    SecureEntropy::new().unwrap().fill(&mut output).unwrap();
    let mut device = CheckedDevice::new(TestDevice::new(vec![
        vec![0, 1, 2, 3, 4, 5, 6, 7],
        vec![0, 1, 2, 3, 4, 5, 6, 7],
    ]))
    .unwrap();
    let result = device.fill(&mut output);
    assert!(result.is_err());
}

#[test]
fn repeated_substring_is_detected() {
    let mut device = CheckedDevice::new(TestDevice::new(vec![
        vec![0, 1, 2, 3, 4, 5, 6, 7],
        vec![8, 9, 10, 11, 12, 13, 14, 15],
        vec![16, 17, 18, 19, 8, 9, 10, 11, 12, 13, 14, 15, 28, 29, 30, 31],
    ]))
    .unwrap();
    let mut output = vec![0_u8; 16];
    let result = device.fill(&mut output);
    assert!(result.is_err());
}

#[test]
fn repetitions_are_detected1() {
    let mut device = CheckedDevice::new(TestDevice::new(vec![
        vec![0, 1, 2, 3, 4, 5, 6, 7],
        vec![8, 9, 10, 11, 12, 13, 14, 15],
        vec![16, 17, 18, 19, 20, 20, 20, 20, 24, 25, 26, 27, 28, 29, 30, 31],
    ]))
    .unwrap();
    let mut output = vec![0_u8; 16];
    let result = device.fill(&mut output);
    assert!(result.is_err());
}

#[test]
fn repetitions_are_detected2() {
    let mut device = CheckedDevice::new(TestDevice::new(vec![
        vec![0, 1, 2, 3, 4, 5, 6, 7],
        vec![8, 9, 10, 11, 12, 13, 14, 15],
        // The previous block ends with a 15, so that makes 4 in total.
        vec![15, 15, 15, 19, 20, 21, 22, 23, 24, 25, 26, 27, 28, 29, 30, 31],
    ]))
    .unwrap();
    let mut output = vec![0_u8; 16];
    let result = device.fill(&mut output);
    assert!(result.is_err());
}

#[test]
fn repetitions_are_detected3() {
    let mut device = CheckedDevice::new(TestDevice::new(vec![
        vec![0, 1, 2, 3, 4, 5, 6, 7],
        // The previous block ends with a 7, so that makes 4 in total.
        vec![7, 7, 7, 11, 12, 13, 14, 15],
    ]))
    .unwrap();
    let mut output = vec![0_u8; 16];
    let result = device.fill(&mut output);
    assert!(result.is_err());
}

fn counting_block(len: usize, offset: usize) -> Vec<u8> {
    let mut out = Vec::new();
    let mut i: usize = 0;
    while i < len {
        out.push((i + offset) as u8);
        i += 1;
    }
    out
}

#[test]
fn adaptive_proportion_test_accepts_12_repeats() {
    let vec1 = vec![0, 1, 2, 0, 4, 5, 6, 7]; // Two 0s here
    let vec2 = vec![8, 9, 0, 11, 12, 13, 14, 15]; // One 0 here
    let mut vec3 = counting_block(512, 16);
    // There is a zero already at 240.
    for inx in [53, 93, 123, 135, 147, 254, 275, 328] {
        vec3[inx] = 0;
    }
    let mut device = CheckedDevice::new(TestDevice::new(vec![vec1, vec2, vec3])).unwrap();
    let mut output = vec![0_u8; 512];
    device.fill(&mut output).unwrap();
}

#[test]
fn adaptive_proportion_test_detects_13_repeats_inside_512_window() {
    let vec1 = vec![0, 1, 2, 0, 4, 5, 6, 7]; // Two 0s here
    let vec2 = vec![8, 9, 0, 11, 12, 13, 14, 15]; // One 0 here
    let mut vec3 = counting_block(512, 16);
    // There is a zero already at 240; the zero at 495 is just inside
    // the window.
    for inx in [53, 93, 123, 135, 147, 254, 275, 328, 495] {
        vec3[inx] = 0;
    }
    let mut device = CheckedDevice::new(TestDevice::new(vec![vec1, vec2, vec3])).unwrap();
    let mut output = vec![0_u8; 512];
    let result = device.fill(&mut output);
    assert!(result.is_err());
}

#[test]
fn adaptive_proportion_test_window_ends_after_512() {
    let vec1 = vec![0, 1, 2, 0, 4, 5, 6, 7]; // Two 0s here
    let vec2 = vec![8, 9, 0, 11, 12, 13, 14, 15]; // One 0 here
    let mut vec3 = counting_block(512, 16);
    // There is a zero already at 240; the last zero is outside the
    // window.
    for inx in [53, 93, 123, 135, 147, 254, 275, 328, 496] {
        vec3[inx] = 0;
    }
    let mut device = CheckedDevice::new(TestDevice::new(vec![vec1, vec2, vec3])).unwrap();
    let mut output = vec![0_u8; 512];
    device.fill(&mut output).unwrap();
}

#[test]
fn adaptive_proportion_test_second_window_starts_at_513() {
    let vec1 = vec![0, 1, 2, 0, 4, 5, 6, 7]; // 0 is the counted value. Two 0s here.
    let vec2 = vec![8, 9, 0, 11, 12, 13, 14, 15]; // One 0 here.
    let vec3 = counting_block(512 - 16, 16);
    let vec4 = vec![16, 42, 18, 19, 20, 21, 22, 23]; // 16 is skipped, 42 is counted in window two.
    let mut vec5 = counting_block(512, 0);

    // There is a 42 already at 42 and at 42 + 256 = 298; the last 42 is
    // just inside the window.
    for inx in [53, 93, 123, 135, 147, 254, 275, 328, 420, 512 - 9] {
        vec5[inx] = 42;
    }
    let mut device =
        CheckedDevice::new(TestDevice::new(vec![vec1, vec2, vec3, vec4, vec5])).unwrap();
    let mut output1 = vec![0_u8; 496];
    device.fill(&mut output1).unwrap();
    let mut output2 = vec![0_u8; 512];
    let result = device.fill(&mut output2);
    assert!(result.is_err());
}
