use vstd::prelude::*;

use crate::models::{FlatImage, FlatImageView, Label};

verus! {

/// The first header field of an image file.
pub const IMAGE_FILE_MAGIC_NUMBER: i32 = 2051;

/// The first header field of a label file.
pub const LABEL_FILE_MAGIC_NUMBER: i32 = 2049;

/// The height and the width that every image of the dataset has.
pub const EXPECTED_IMAGE_SIZE: i32 = 28;

/// The number of bytes before the first pixel of an image file.
pub const IMAGE_HEADER_LENGTH: usize = 16;

/// The number of bytes before the first label of a label file.
pub const LABEL_HEADER_LENGTH: usize = 8;

/// The number of bytes that one image takes in the body of an image file.
pub const IMAGE_LENGTH: usize = 784;

/// Why a buffer is not a file of the kind that was asked for.
#[derive(Clone, Copy, Debug, PartialEq, Eq)]
pub enum LoadError {
    /// The buffer ends before the header does.
    TruncatedHeader,
    /// The magic number is not the one of the expected kind of file.
    Format,
    /// The header disagrees with the body, or with the dataset's geometry.
    StructuralMismatch,
}

/// The signed 32-bit integer that the four bytes from `at` on spell out,
/// most significant byte first, in two's complement.
pub open spec fn be_i32(bytes: Seq<u8>, at: int) -> int {
    let unsigned = bytes[at] * 0x100_0000 + bytes[at + 1] * 0x1_0000 + bytes[at + 2] * 0x100
        + bytes[at + 3];
    if unsigned >= 0x8000_0000 {
        unsigned - 0x1_0000_0000
    } else {
        unsigned
    }
}

/// The magic number of a buffer of at least four bytes.
pub open spec fn magic_number(bytes: Seq<u8>) -> int {
    be_i32(bytes, 0)
}

/// The number of samples that the header of a buffer of at least eight
/// bytes declares.
pub open spec fn declared_count(bytes: Seq<u8>) -> int {
    be_i32(bytes, 4)
}

/// The width that the header of an image file declares.
pub open spec fn declared_width(bytes: Seq<u8>) -> int {
    be_i32(bytes, 8)
}

/// The height that the header of an image file declares.
pub open spec fn declared_height(bytes: Seq<u8>) -> int {
    be_i32(bytes, 12)
}

/// The first reason, in the order in which the fields lie in the file, for
/// which `bytes` is not an image file; `None` if it is one.
pub open spec fn image_file_error(bytes: Seq<u8>) -> Option<LoadError> {
    if bytes.len() < 4 {
        Some(LoadError::TruncatedHeader)
    } else if magic_number(bytes) != IMAGE_FILE_MAGIC_NUMBER {
        Some(LoadError::Format)
    } else if bytes.len() < IMAGE_HEADER_LENGTH {
        Some(LoadError::TruncatedHeader)
    } else if declared_width(bytes) != EXPECTED_IMAGE_SIZE || declared_height(bytes)
        != EXPECTED_IMAGE_SIZE {
        Some(LoadError::StructuralMismatch)
    } else if bytes.len() - IMAGE_HEADER_LENGTH != declared_count(bytes) * IMAGE_LENGTH {
        Some(LoadError::StructuralMismatch)
    } else {
        None
    }
}

/// The image that lies at `index` in the body of an image file.
pub open spec fn image_at(bytes: Seq<u8>, index: int) -> FlatImageView {
    FlatImageView {
        pixels: bytes.subrange(
            IMAGE_HEADER_LENGTH + index * IMAGE_LENGTH,
            IMAGE_HEADER_LENGTH + (index + 1) * IMAGE_LENGTH,
        ),
        height: EXPECTED_IMAGE_SIZE as nat,
        width: EXPECTED_IMAGE_SIZE as nat,
    }
}

/// The images of an image file, in file order.
pub open spec fn images_of(bytes: Seq<u8>) -> Seq<FlatImageView> {
    Seq::new(declared_count(bytes) as nat, |index: int| image_at(bytes, index))
}

/// What decoding `bytes` as an image file gives.
pub open spec fn decoded_images(bytes: Seq<u8>) -> Result<Seq<FlatImageView>, LoadError> {
    match image_file_error(bytes) {
        Some(error) => Err(error),
        None => Ok(images_of(bytes)),
    }
}

/// The first reason, in the order in which the fields lie in the file, for
/// which `bytes` is not a label file; `None` if it is one.
pub open spec fn label_file_error(bytes: Seq<u8>) -> Option<LoadError> {
    if bytes.len() < 4 {
        Some(LoadError::TruncatedHeader)
    } else if magic_number(bytes) != LABEL_FILE_MAGIC_NUMBER {
        Some(LoadError::Format)
    } else if bytes.len() < LABEL_HEADER_LENGTH {
        Some(LoadError::TruncatedHeader)
    } else if bytes.len() - LABEL_HEADER_LENGTH != declared_count(bytes) {
        Some(LoadError::StructuralMismatch)
    } else {
        None
    }
}

/// The labels of a label file, in file order: the bytes after the header.
pub open spec fn labels_of(bytes: Seq<u8>) -> Seq<u8> {
    bytes.subrange(LABEL_HEADER_LENGTH as int, bytes.len() as int)
}

/// What decoding `bytes` as a label file gives.
pub open spec fn decoded_labels(bytes: Seq<u8>) -> Result<Seq<u8>, LoadError> {
    match label_file_error(bytes) {
        Some(error) => Err(error),
        None => Ok(labels_of(bytes)),
    }
}

/// The views of a list of images, one for one.
pub open spec fn image_views(images: Seq<FlatImage>) -> Seq<FlatImageView> {
    Seq::new(images.len(), |index: int| images[index]@)
}

/// The classes of a list of labels, one for one.
pub open spec fn label_views(labels: Seq<Label>) -> Seq<u8> {
    Seq::new(labels.len(), |index: int| labels[index]@)
}

/// A buffer that decodes as an image file yields exactly as many images as
/// its header declares, and each of them holds `height * width` pixels, for
/// the height and width of the header.
pub proof fn lemma_images_match_header(bytes: Seq<u8>)
    requires
        decoded_images(bytes) is Ok,
    ensures
        decoded_images(bytes) == Ok::<Seq<FlatImageView>, LoadError>(images_of(bytes)),
        images_of(bytes).len() == declared_count(bytes),
        forall|index: int|
            0 <= index < images_of(bytes).len() ==> {
                let image = #[trigger] images_of(bytes)[index];
                &&& image.wf()
                &&& image.width == declared_width(bytes)
                &&& image.height == declared_height(bytes)
                &&& image.pixels.len() == declared_width(bytes) * declared_height(bytes)
            },
{
    assert forall|index: int| 0 <= index < images_of(bytes).len() implies {
        let image = #[trigger] images_of(bytes)[index];
        &&& image.wf()
        &&& image.width == declared_width(bytes)
        &&& image.height == declared_height(bytes)
        &&& image.pixels.len() == declared_width(bytes) * declared_height(bytes)
    } by {
        assert(images_of(bytes)[index] == image_at(bytes, index));
        assert(image_at(bytes, index).pixels.len() == IMAGE_LENGTH);
    }
}

/// A buffer that decodes as a label file never decodes as an image file:
/// the image decoder rejects it for its magic number.
pub proof fn lemma_label_file_is_no_image_file(bytes: Seq<u8>)
    requires
        decoded_labels(bytes) is Ok,
    ensures
        decoded_images(bytes) == Err::<Seq<FlatImageView>, LoadError>(LoadError::Format),
{
}

/// A buffer that decodes as an image file never decodes as a label file:
/// the label decoder rejects it for its magic number.
pub proof fn lemma_image_file_is_no_label_file(bytes: Seq<u8>)
    requires
        decoded_images(bytes) is Ok,
    ensures
        decoded_labels(bytes) == Err::<Seq<u8>, LoadError>(LoadError::Format),
{
}

/// Behind a complete image header with the right magic number, a body that
/// does not hold exactly the declared number of whole images is rejected as
/// a structural mismatch.
pub proof fn lemma_image_count_is_enforced(bytes: Seq<u8>)
    requires
        bytes.len() >= IMAGE_HEADER_LENGTH,
        magic_number(bytes) == IMAGE_FILE_MAGIC_NUMBER,
        declared_count(bytes) != (bytes.len() - IMAGE_HEADER_LENGTH) / (IMAGE_LENGTH as int)
            || (bytes.len() - IMAGE_HEADER_LENGTH) % (IMAGE_LENGTH as int) != 0,
    ensures
        decoded_images(bytes) == Err::<Seq<FlatImageView>, LoadError>(
            LoadError::StructuralMismatch,
        ),
{
}

/// Behind a complete label header with the right magic number, a body whose
/// length is not the declared number of labels is rejected as a structural
/// mismatch.
pub proof fn lemma_label_count_is_enforced(bytes: Seq<u8>)
    requires
        bytes.len() >= LABEL_HEADER_LENGTH,
        magic_number(bytes) == LABEL_FILE_MAGIC_NUMBER,
        declared_count(bytes) != bytes.len() - LABEL_HEADER_LENGTH,
    ensures
        decoded_labels(bytes) == Err::<Seq<u8>, LoadError>(LoadError::StructuralMismatch),
{
}

/// An image file and a label file that declare the same number of samples
/// decode to lists of the same length, and position `index` of either list
/// is sample `index` of its file: the image from the `index`-th block of
/// pixels, the label from the `index`-th byte of the body.
pub proof fn lemma_labels_align_with_images(image_file: Seq<u8>, label_file: Seq<u8>)
    requires
        decoded_images(image_file) is Ok,
        decoded_labels(label_file) is Ok,
        declared_count(image_file) == declared_count(label_file),
    ensures
        images_of(image_file).len() == labels_of(label_file).len(),
        forall|index: int|
            0 <= index < images_of(image_file).len() ==> {
                &&& #[trigger] images_of(image_file)[index] == image_at(image_file, index)
                &&& labels_of(label_file)[index] == label_file[LABEL_HEADER_LENGTH + index]
            },
{
}

/// Reads the header field that starts at `at`.
fn read_be_i32(raw_data: &[u8], at: usize) -> (value: i32)
    requires
        at + 4 <= raw_data@.len(),
    ensures
        value == be_i32(raw_data@, at as int),
{
    let unsigned: i64 = (raw_data[at] as i64) * 0x100_0000 + (raw_data[at + 1] as i64) * 0x1_0000
        + (raw_data[at + 2] as i64) * 0x100 + (raw_data[at + 3] as i64);
    if unsigned >= 0x8000_0000 {
        (unsigned - 0x1_0000_0000) as i32
    } else {
        unsigned as i32
    }
}

/// Decodes an image file.
///
/// The header is four big-endian integers: the magic number, the number of
/// images, their width and their height. The body holds the images one
/// after the other, each row-major. The result is the error that
/// [`image_file_error`] names, or else the images in file order.
pub fn load_images(raw_data: &[u8]) -> (result: Result<Vec<FlatImage>, LoadError>)
    ensures
        match result {
            Ok(images) => decoded_images(raw_data@) == Ok::<Seq<FlatImageView>, LoadError>(
                image_views(images@),
            ),
            Err(error) => decoded_images(raw_data@) == Err::<Seq<FlatImageView>, LoadError>(error),
        },
        result matches Ok(images) ==> {
            &&& images@.len() == declared_count(raw_data@)
            &&& forall|index: int|
                0 <= index < images@.len() ==> {
                    &&& (#[trigger] images@[index])@ == image_at(raw_data@, index)
                    &&& images@[index]@.wf()
                }
        },
{
    if raw_data.len() < 4 {
        return Err(LoadError::TruncatedHeader);
    }
    let magic_number = read_be_i32(raw_data, 0);
    if magic_number != IMAGE_FILE_MAGIC_NUMBER {
        return Err(LoadError::Format);
    }
    if raw_data.len() < IMAGE_HEADER_LENGTH {
        return Err(LoadError::TruncatedHeader);
    }
    let image_count = read_be_i32(raw_data, 4);
    let image_width = read_be_i32(raw_data, 8);
    let image_height = read_be_i32(raw_data, 12);
    if image_width != EXPECTED_IMAGE_SIZE || image_height != EXPECTED_IMAGE_SIZE {
        return Err(LoadError::StructuralMismatch);
    }
    let body_length: usize = raw_data.len() - IMAGE_HEADER_LENGTH;
    if image_count < 0 || body_length % IMAGE_LENGTH != 0 || body_length / IMAGE_LENGTH
        != image_count as usize {
        return Err(LoadError::StructuralMismatch);
    }
    let count: usize = image_count as usize;
    let mut flat_images: Vec<FlatImage> = Vec::new();
    let mut index: usize = 0;
    while index < count
        invariant
            index <= count,
            image_width == EXPECTED_IMAGE_SIZE,
            image_height == EXPECTED_IMAGE_SIZE,
            raw_data@.len() == IMAGE_HEADER_LENGTH + count * IMAGE_LENGTH,
            raw_data@.len() <= usize::MAX,
            flat_images@.len() == index,
            forall|k: int|
                0 <= k < index ==> {
                    &&& (#[trigger] flat_images@[k])@ == image_at(raw_data@, k)
                    &&& flat_images@[k]@.wf()
                },
        decreases count - index,
    {
        let start: usize = IMAGE_HEADER_LENGTH + index * IMAGE_LENGTH;
        let raw_image = vstd::slice::slice_subrange(raw_data, start, start + IMAGE_LENGTH);
        let image = FlatImage::from_bytes(raw_image, image_height as usize, image_width as usize);
        proof {
            assert(image@ == image_at(raw_data@, index as int));
        }
        flat_images.push(image);
        index += 1;
    }
    proof {
        assert(image_views(flat_images@) =~= images_of(raw_data@));
    }
    Ok(flat_images)
}

/// Decodes a label file.
///
/// The header is two big-endian integers: the magic number and the number
/// of labels. Every byte after it is one label. The result is the error
/// that [`label_file_error`] names, or else the labels in file order.
pub fn load_labels(raw_data: &[u8]) -> (result: Result<Vec<Label>, LoadError>)
    ensures
        match result {
            Ok(labels) => decoded_labels(raw_data@) == Ok::<Seq<u8>, LoadError>(
                label_views(labels@),
            ),
            Err(error) => decoded_labels(raw_data@) == Err::<Seq<u8>, LoadError>(error),
        },
        result matches Ok(labels) ==> {
            &&& labels@.len() == declared_count(raw_data@)
            &&& forall|index: int|
                0 <= index < labels@.len() ==> (#[trigger] labels@[index])@ == raw_data@[LABEL_HEADER_LENGTH
                    + index]
        },
{
    if raw_data.len() < 4 {
        return Err(LoadError::TruncatedHeader);
    }
    let magic_number = read_be_i32(raw_data, 0);
    if magic_number != LABEL_FILE_MAGIC_NUMBER {
        return Err(LoadError::Format);
    }
    if raw_data.len() < LABEL_HEADER_LENGTH {
        return Err(LoadError::TruncatedHeader);
    }
    let label_count = read_be_i32(raw_data, 4);
    let body_length: usize = raw_data.len() - LABEL_HEADER_LENGTH;
    if label_count < 0 || body_length != label_count as usize {
        return Err(LoadError::StructuralMismatch);
    }
    let mut labels: Vec<Label> = Vec::new();
    let mut index: usize = 0;
    while index < body_length
        invariant
            index <= body_length,
            raw_data@.len() == LABEL_HEADER_LENGTH + body_length,
            raw_data@.len() <= usize::MAX,
            labels@.len() == index,
            forall|k: int|
                0 <= k < index ==> (#[trigger] labels@[k])@ == raw_data@[LABEL_HEADER_LENGTH + k],
        decreases body_length - index,
    {
        labels.push(Label::new(&raw_data[LABEL_HEADER_LENGTH + index]));
        index += 1;
    }
    proof {
        assert(label_views(labels@) =~= labels_of(raw_data@));
    }
    Ok(labels)
}

} // verus!
