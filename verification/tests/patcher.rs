use undetected_chromedriver::alphabet::{letter, ALPHABET_LEN};
use undetected_chromedriver::error::DriverError;
use undetected_chromedriver::marker::find_markers;
use undetected_chromedriver::patch::{patch_image, randomize_region, write_region};

fn is_letter(byte: u8) -> bool {
    byte.is_ascii_lowercase() || byte.is_ascii_uppercase()
}

fn image_with_one_marker() -> Vec<u8> {
    let mut image = vec![0x00u8; 30];
    image.extend_from_slice(b"cdc_");
    image.extend_from_slice(b"0123456789!@#$%^&*");
    image.extend_from_slice(&[0xffu8; 10]);
    image
}

#[test]
fn alphabet_is_lower_case_then_upper_case() {
    assert_eq!(ALPHABET_LEN, 52);
    let text = b"abcdefghijklmnopqrstuvwxyzABCDEFGHIJKLMNOPQRSTUVWXYZ";
    for index in 0..ALPHABET_LEN {
        assert_eq!(letter(index), text[index]);
    }
    assert_eq!(letter(0), b'a');
    assert_eq!(letter(25), b'z');
    assert_eq!(letter(26), b'A');
    assert_eq!(letter(51), b'Z');
}

#[test]
fn write_region_overwrites_exactly_the_region() {
    let mut image: Vec<u8> = (0u8..40).collect();
    let letters = *b"ABCDEFGHIJKLMNOPQRSTUV";
    assert_eq!(write_region(&mut image, 5, &letters), Ok(()));
    let mut expected: Vec<u8> = (0u8..40).collect();
    expected[5..27].copy_from_slice(b"ABCDEFGHIJKLMNOPQRSTUV");
    assert_eq!(image, expected);
}

#[test]
fn write_region_may_end_with_the_image() {
    let mut image = vec![0u8; 22];
    let letters = [b'q'; 22];
    assert_eq!(write_region(&mut image, 0, &letters), Ok(()));
    assert_eq!(image, vec![b'q'; 22]);
}

#[test]
fn write_region_refuses_a_region_past_the_end() {
    let mut image: Vec<u8> = (0u8..40).collect();
    let letters = [b'x'; 22];
    assert_eq!(
        write_region(&mut image, 19, &letters),
        Err(DriverError::CorruptRegion { offset: 19 })
    );
    assert_eq!(image, (0u8..40).collect::<Vec<u8>>());
    assert_eq!(
        write_region(&mut image, usize::MAX, &letters),
        Err(DriverError::CorruptRegion { offset: usize::MAX })
    );
    let mut short = vec![1u8, 2, 3];
    assert_eq!(
        write_region(&mut short, 0, &letters),
        Err(DriverError::CorruptRegion { offset: 0 })
    );
    assert_eq!(short, vec![1u8, 2, 3]);
}

#[test]
fn randomize_region_writes_letters_inside_and_nothing_outside() {
    let original: Vec<u8> = (100u8..160).map(|b| b.wrapping_mul(7) | 0x80).collect();
    let mut image = original.clone();
    assert_eq!(randomize_region(&mut image, 10), Ok(()));
    assert_eq!(image.len(), original.len());
    for j in 0..image.len() {
        if (10..32).contains(&j) {
            assert!(is_letter(image[j]), "byte {} is no letter: {}", j, image[j]);
        } else {
            assert_eq!(image[j], original[j]);
        }
    }
}

#[test]
fn randomize_region_refuses_a_region_past_the_end() {
    let original = vec![7u8; 30];
    let mut image = original.clone();
    assert_eq!(
        randomize_region(&mut image, 9),
        Err(DriverError::CorruptRegion { offset: 9 })
    );
    assert_eq!(image, original);
    assert_eq!(randomize_region(&mut image, 8), Ok(()));
}

#[test]
fn randomize_region_draws_more_than_one_letter() {
    let mut seen = std::collections::BTreeSet::new();
    for _ in 0..200 {
        let mut image = vec![0u8; 22];
        assert_eq!(randomize_region(&mut image, 0), Ok(()));
        for &byte in &image {
            assert!(is_letter(byte));
            seen.insert(byte);
        }
    }
    assert!(seen.len() > 1);
}

#[test]
fn patch_of_one_marker() {
    let original = image_with_one_marker();
    assert_eq!(find_markers(&original), vec![30]);
    let mut image = original.clone();
    assert_eq!(patch_image(&mut image), Ok(1));
    assert_eq!(image.len(), original.len());
    assert_ne!(&image[30..52], &original[30..52]);
    for j in 30..52 {
        assert!(is_letter(image[j]));
    }
    assert_eq!(&image[..30], &original[..30]);
    assert_eq!(&image[52..], &original[52..]);
    assert_eq!(find_markers(&image), Vec::<usize>::new());
}

#[test]
fn patch_of_fifty_eight_bytes() {
    let mut original = vec![0x11u8; 30];
    original.extend_from_slice(b"cdc_");
    original.extend_from_slice(&[0x22u8; 18]);
    original.extend_from_slice(&[0x33u8; 6]);
    assert_eq!(original.len(), 58);
    let mut image = original.clone();
    assert_eq!(patch_image(&mut image), Ok(1));
    assert_eq!(image.len(), 58);
    assert_eq!(&image[..30], &original[..30]);
    assert_eq!(&image[52..], &original[52..]);
    assert!(image[30..52].iter().all(|&b| is_letter(b)));
    assert_ne!(&image[30..52], &original[30..52]);
}

#[test]
fn patch_without_marker_is_the_identity() {
    let original: Vec<u8> = (0..300u32).map(|n| (n % 251) as u8).collect();
    let mut image = original.clone();
    assert_eq!(patch_image(&mut image), Ok(0));
    assert_eq!(image, original);
    let mut empty: Vec<u8> = Vec::new();
    assert_eq!(patch_image(&mut empty), Ok(0));
    assert!(empty.is_empty());
}

#[test]
fn patch_counts_every_marker_and_keeps_the_length() {
    let mut original = Vec::new();
    for k in 0..5usize {
        original.extend_from_slice(&vec![0xa0u8 + k as u8; 7 + k]);
        original.extend_from_slice(b"cdc_");
        original.extend_from_slice(&[0x5fu8; 18]);
    }
    original.extend_from_slice(&[0u8; 3]);
    let offsets = find_markers(&original);
    assert_eq!(offsets.len(), 5);
    let mut image = original.clone();
    assert_eq!(patch_image(&mut image), Ok(5));
    assert_eq!(image.len(), original.len());
    for j in 0..original.len() {
        let inside = offsets.iter().any(|&o| o <= j && j < o + 22);
        if inside {
            assert!(is_letter(image[j]));
        } else {
            assert_eq!(image[j], original[j]);
        }
    }
    for &offset in &offsets {
        assert_ne!(&image[offset..offset + 4], b"cdc_");
        assert_ne!(image[offset + 3], b'_');
    }
}

#[test]
fn patch_of_overlapping_regions_covers_their_union() {
    let mut original = b"cdc_cdc_".to_vec();
    original.extend_from_slice(&[0x01u8; 30]);
    let mut image = original.clone();
    assert_eq!(patch_image(&mut image), Ok(2));
    for j in 0..26 {
        assert!(is_letter(image[j]));
    }
    assert_eq!(&image[26..], &original[26..]);
}

#[test]
fn patch_refuses_a_region_past_the_end_and_names_the_first() {
    let mut original = vec![0u8; 10];
    original.extend_from_slice(b"cdc_");
    original.extend_from_slice(&[1u8; 18]);
    original.extend_from_slice(b"cdc_");
    original.extend_from_slice(&[2u8; 10]);
    original.extend_from_slice(b"cdc_");
    original.extend_from_slice(&[3u8; 5]);
    assert_eq!(find_markers(&original), vec![10, 32, 46]);
    assert_eq!(original.len(), 55);
    let mut image = original.clone();
    assert_eq!(
        patch_image(&mut image),
        Err(DriverError::CorruptRegion { offset: 46 })
    );
    assert_eq!(image, original);

    let mut tail = b"cdc_cdc_".to_vec();
    tail.extend_from_slice(&[0u8; 10]);
    let before = tail.clone();
    assert_eq!(
        patch_image(&mut tail),
        Err(DriverError::CorruptRegion { offset: 0 })
    );
    assert_eq!(tail, before);
}

#[test]
fn patch_accepts_a_region_that_ends_with_the_image() {
    let mut image = b"cdc_".to_vec();
    image.extend_from_slice(&[9u8; 18]);
    assert_eq!(patch_image(&mut image), Ok(1));
    assert_eq!(image.len(), 22);
    assert!(image.iter().all(|&b| is_letter(b)));
}

#[test]
fn patch_draws_more_than_one_letter() {
    let mut image = Vec::new();
    for _ in 0..50 {
        image.extend_from_slice(b"cdc_");
        image.extend_from_slice(&[0u8; 18]);
    }
    assert_eq!(patch_image(&mut image), Ok(50));
    let first = image[0];
    assert!(image.iter().any(|&b| b != first));
}
