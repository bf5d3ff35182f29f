use mnist_nn::utils::data_loading::{
    load_images, load_labels, LoadError, EXPECTED_IMAGE_SIZE, IMAGE_FILE_MAGIC_NUMBER,
    IMAGE_HEADER_LENGTH, IMAGE_LENGTH, LABEL_FILE_MAGIC_NUMBER, LABEL_HEADER_LENGTH,
};

fn push_be(buffer: &mut Vec<u8>, value: i32) {
    buffer.extend_from_slice(&value.to_be_bytes());
}

fn image_file(magic: i32, count: i32, width: i32, height: i32, body: &[u8]) -> Vec<u8> {
    let mut file: Vec<u8> = Vec::new();
    push_be(&mut file, magic);
    push_be(&mut file, count);
    push_be(&mut file, width);
    push_be(&mut file, height);
    file.extend_from_slice(body);
    file
}

fn label_file(magic: i32, count: i32, body: &[u8]) -> Vec<u8> {
    let mut file: Vec<u8> = Vec::new();
    push_be(&mut file, magic);
    push_be(&mut file, count);
    file.extend_from_slice(body);
    file
}

/// A body of `count` images in which pixel `p` of image `i` is `(i * 31 + p) % 256`.
fn patterned_body(count: usize) -> Vec<u8> {
    let mut body: Vec<u8> = Vec::new();
    for i in 0..count {
        for p in 0..IMAGE_LENGTH {
            body.push(((i * 31 + p) % 256) as u8);
        }
    }
    body
}

fn valid_image_file(count: usize) -> Vec<u8> {
    image_file(IMAGE_FILE_MAGIC_NUMBER, count as i32, 28, 28, &patterned_body(count))
}

fn valid_label_file(count: usize) -> Vec<u8> {
    let body: Vec<u8> = (0..count).map(|i| (i % 10) as u8).collect();
    label_file(LABEL_FILE_MAGIC_NUMBER, count as i32, &body)
}

#[test]
fn load_training_images() {
    let file = image_file(IMAGE_FILE_MAGIC_NUMBER, 60000, 28, 28, &vec![0u8; 60000 * 784]);
    let images = load_images(&file).unwrap();
    assert_eq!(images.len(), 60000);
}

#[test]
fn load_test_images() {
    let file = image_file(IMAGE_FILE_MAGIC_NUMBER, 10000, 28, 28, &vec![0u8; 10000 * 784]);
    let images = load_images(&file).unwrap();
    assert_eq!(images.len(), 10000);
}

#[test]
fn load_training_labels() {
    let file = valid_label_file(60000);
    let labels = load_labels(&file).unwrap();
    assert_eq!(labels.len(), 60000);
}

#[test]
fn load_test_labels() {
    let file = valid_label_file(10000);
    let labels = load_labels(&file).unwrap();
    assert_eq!(labels.len(), 10000);
}

#[test]
#[should_panic]
fn load_labels_from_images_file_panic() {
    let file = valid_image_file(4);
    let _labels = load_labels(&file).unwrap();
}

#[test]
#[should_panic]
fn load_images_from_labels_file_panic() {
    let file = valid_label_file(4);
    let _images = load_images(&file).unwrap();
}

#[test]
fn constants_describe_the_format() {
    assert_eq!(IMAGE_FILE_MAGIC_NUMBER, 2051);
    assert_eq!(LABEL_FILE_MAGIC_NUMBER, 2049);
    assert_eq!(EXPECTED_IMAGE_SIZE, 28);
    assert_eq!(IMAGE_HEADER_LENGTH, 16);
    assert_eq!(LABEL_HEADER_LENGTH, 8);
    assert_eq!(IMAGE_LENGTH, 784);
}

#[test]
fn images_come_out_in_file_order() {
    let file = valid_image_file(3);
    let images = load_images(&file).unwrap();
    assert_eq!(images.len(), 3);
    for (i, image) in images.iter().enumerate() {
        assert_eq!(image.height(), 28);
        assert_eq!(image.width(), 28);
        assert_eq!(image.pixel_count(), 784);
        assert_eq!(image.pixel_count(), image.height() * image.width());
        assert_eq!(image.as_bytes(), &file[16 + i * 784..16 + (i + 1) * 784]);
        assert_eq!(image.as_bytes()[0], (i * 31 % 256) as u8);
        assert_eq!(image.as_bytes()[783], ((i * 31 + 783) % 256) as u8);
    }
}

#[test]
fn image_file_without_images_is_empty() {
    let file = valid_image_file(0);
    let images = load_images(&file).unwrap();
    assert!(images.is_empty());
}

#[test]
fn labels_come_out_in_file_order() {
    let file = label_file(LABEL_FILE_MAGIC_NUMBER, 5, &[7, 0, 255, 3, 9]);
    let labels = load_labels(&file).unwrap();
    let classes: Vec<u8> = labels.iter().map(|label| label.value()).collect();
    assert_eq!(classes, vec![7, 0, 255, 3, 9]);
}

#[test]
fn label_file_without_labels_is_empty() {
    let file = label_file(LABEL_FILE_MAGIC_NUMBER, 0, &[]);
    assert!(load_labels(&file).unwrap().is_empty());
}

#[test]
fn header_fields_are_big_endian() {
    // 300 = 0x0000012c: read little-endian it would be 738263040.
    let mut file: Vec<u8> = vec![0, 0, 8, 1, 0, 0, 1, 44];
    file.extend_from_slice(&vec![4u8; 300]);
    let labels = load_labels(&file).unwrap();
    assert_eq!(labels.len(), 300);
    assert_eq!(labels[299].value(), 4);

    let mut images: Vec<u8> = vec![0, 0, 8, 3, 0, 0, 0, 1, 0, 0, 0, 28, 0, 0, 0, 28];
    images.extend_from_slice(&vec![9u8; 784]);
    assert_eq!(load_images(&images).unwrap().len(), 1);
}

#[test]
fn label_file_is_rejected_by_the_image_decoder() {
    assert_eq!(load_images(&valid_label_file(4)).unwrap_err(), LoadError::Format);
    assert_eq!(load_images(&valid_label_file(0)).unwrap_err(), LoadError::Format);
    // Long enough to hold an image header and one image.
    assert_eq!(load_images(&valid_label_file(16 - 8 + 784)).unwrap_err(), LoadError::Format);
}

#[test]
fn image_file_is_rejected_by_the_label_decoder() {
    assert_eq!(load_labels(&valid_image_file(4)).unwrap_err(), LoadError::Format);
    assert_eq!(load_labels(&valid_image_file(0)).unwrap_err(), LoadError::Format);
}

#[test]
fn unknown_magic_number_is_a_format_error() {
    let images = image_file(2050, 1, 28, 28, &patterned_body(1));
    assert_eq!(load_images(&images).unwrap_err(), LoadError::Format);
    let labels = label_file(-1, 2, &[1, 2]);
    assert_eq!(load_labels(&labels).unwrap_err(), LoadError::Format);
    // The right number in the wrong byte order.
    let swapped: Vec<u8> = vec![1, 8, 0, 0, 0, 0, 0, 0];
    assert_eq!(load_labels(&swapped).unwrap_err(), LoadError::Format);
}

#[test]
fn image_count_is_enforced() {
    let body = patterned_body(3);
    let too_few_declared = image_file(IMAGE_FILE_MAGIC_NUMBER, 2, 28, 28, &body);
    assert_eq!(load_images(&too_few_declared).unwrap_err(), LoadError::StructuralMismatch);
    let too_many_declared = image_file(IMAGE_FILE_MAGIC_NUMBER, 4, 28, 28, &body);
    assert_eq!(load_images(&too_many_declared).unwrap_err(), LoadError::StructuralMismatch);
    let negative = image_file(IMAGE_FILE_MAGIC_NUMBER, -3, 28, 28, &body);
    assert_eq!(load_images(&negative).unwrap_err(), LoadError::StructuralMismatch);
    let none_declared = image_file(IMAGE_FILE_MAGIC_NUMBER, 0, 28, 28, &body);
    assert_eq!(load_images(&none_declared).unwrap_err(), LoadError::StructuralMismatch);
}

#[test]
fn incomplete_last_image_is_a_structural_mismatch() {
    let body = patterned_body(3);
    let cut = image_file(IMAGE_FILE_MAGIC_NUMBER, 3, 28, 28, &body[..3 * 784 - 1]);
    assert_eq!(load_images(&cut).unwrap_err(), LoadError::StructuralMismatch);
    let cut_counted_down = image_file(IMAGE_FILE_MAGIC_NUMBER, 2, 28, 28, &body[..2 * 784 + 1]);
    assert_eq!(load_images(&cut_counted_down).unwrap_err(), LoadError::StructuralMismatch);
    let one_byte = image_file(IMAGE_FILE_MAGIC_NUMBER, 1, 28, 28, &[5]);
    assert_eq!(load_images(&one_byte).unwrap_err(), LoadError::StructuralMismatch);
}

#[test]
fn label_count_is_enforced() {
    let too_few_declared = label_file(LABEL_FILE_MAGIC_NUMBER, 2, &[1, 2, 3]);
    assert_eq!(load_labels(&too_few_declared).unwrap_err(), LoadError::StructuralMismatch);
    let too_many_declared = label_file(LABEL_FILE_MAGIC_NUMBER, 4, &[1, 2, 3]);
    assert_eq!(load_labels(&too_many_declared).unwrap_err(), LoadError::StructuralMismatch);
    let negative = label_file(LABEL_FILE_MAGIC_NUMBER, -1, &[]);
    assert_eq!(load_labels(&negative).unwrap_err(), LoadError::StructuralMismatch);
}

#[test]
fn other_geometry_is_a_structural_mismatch() {
    let body = patterned_body(1);
    let wide = image_file(IMAGE_FILE_MAGIC_NUMBER, 1, 56, 14, &body);
    assert_eq!(load_images(&wide).unwrap_err(), LoadError::StructuralMismatch);
    let tall = image_file(IMAGE_FILE_MAGIC_NUMBER, 1, 28, 29, &body);
    assert_eq!(load_images(&tall).unwrap_err(), LoadError::StructuralMismatch);
    let narrow = image_file(IMAGE_FILE_MAGIC_NUMBER, 1, 27, 28, &body);
    assert_eq!(load_images(&narrow).unwrap_err(), LoadError::StructuralMismatch);
    let empty = image_file(IMAGE_FILE_MAGIC_NUMBER, 0, 0, 0, &[]);
    assert_eq!(load_images(&empty).unwrap_err(), LoadError::StructuralMismatch);
}

#[test]
fn short_buffer_is_a_truncated_header() {
    assert_eq!(load_images(&[]).unwrap_err(), LoadError::TruncatedHeader);
    assert_eq!(load_labels(&[]).unwrap_err(), LoadError::TruncatedHeader);
    assert_eq!(load_images(&[0, 0, 8]).unwrap_err(), LoadError::TruncatedHeader);
    assert_eq!(load_labels(&[0, 0, 8]).unwrap_err(), LoadError::TruncatedHeader);
    let images: Vec<u8> = vec![0, 0, 8, 3, 0, 0, 0, 0, 0, 0, 0, 28, 0, 0, 0];
    assert_eq!(load_images(&images).unwrap_err(), LoadError::TruncatedHeader);
    assert_eq!(load_images(&images[..4]).unwrap_err(), LoadError::TruncatedHeader);
    let labels: Vec<u8> = vec![0, 0, 8, 1, 0, 0, 0];
    assert_eq!(load_labels(&labels).unwrap_err(), LoadError::TruncatedHeader);
    assert_eq!(load_labels(&labels[..4]).unwrap_err(), LoadError::TruncatedHeader);
}

#[test]
fn wrong_magic_number_is_reported_before_a_short_header() {
    let labels_magic: Vec<u8> = vec![0, 0, 8, 1];
    assert_eq!(load_images(&labels_magic).unwrap_err(), LoadError::Format);
    let images_magic: Vec<u8> = vec![0, 0, 8, 3, 0];
    assert_eq!(load_labels(&images_magic).unwrap_err(), LoadError::Format);
}

#[test]
fn labels_align_with_images() {
    let count: usize = 6;
    let images = load_images(&valid_image_file(count)).unwrap();
    let label_bytes = valid_label_file(count);
    let labels = load_labels(&label_bytes).unwrap();
    assert_eq!(labels.len(), images.len());
    for i in 0..count {
        assert_eq!(labels[i].value(), label_bytes[8 + i]);
        assert_eq!(images[i].as_bytes()[1], ((i * 31 + 1) % 256) as u8);
    }
}
