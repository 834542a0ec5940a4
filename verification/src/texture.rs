//! Decoding texture images and checking them against what the texture is to
//! be: a single 2D image, or the six equal-sized faces of a cube map.

use vstd::prelude::*;

verus! {

/// How a texture is used in the shader.
#[derive(PartialEq, Eq, Structural, Clone, Copy, Debug)]
pub enum TextureType {
    /// A single 2D image (diffuse colour, normal map and the like).
    Texture2D,
    /// A cube map of six square faces.
    TextureCube,
}

/// An image decoded to 8-bit RGBA: `rgba` holds the pixels row by row.
/// An image that the decoder made records the bytes it was decoded from,
/// and the pixels and size that the decoder's RGBA8 conversion gave.
pub struct DecodedImage {
    pub rgba: Vec<u8>,
    pub width: u32,
    pub height: u32,
    pub source: Ghost<Option<Seq<u8>>>,
    pub conversion: Ghost<Option<(Seq<u8>, u32, u32)>>,
}

impl DecodedImage {
    /// The bytes the image was decoded from, if the decoder made it.
    pub open spec fn source(self) -> Option<Seq<u8>> {
        self.source@
    }

    /// An image of the given pixels and size that no decoder made.
    pub fn new(rgba: Vec<u8>, width: u32, height: u32) -> (image: DecodedImage)
        ensures
            image.rgba == rgba,
            image.width == width,
            image.height == height,
            image.source() == None::<Seq<u8>>,
            image.conversion@ == None::<(Seq<u8>, u32, u32)>,
    {
        DecodedImage { rgba, width, height, source: Ghost(None), conversion: Ghost(None) }
    }

    /// The image holds exactly the pixels and size that the decoder's RGBA8
    /// conversion gave, unchanged.
    pub open spec fn as_converted(self) -> bool {
        self.conversion@ == Some((self.rgba@, self.width, self.height))
    }

    /// The pixels hold at least the four bytes of each of the image's
    /// `width * height` pixels.
    pub open spec fn covers_size(self) -> bool {
        self.rgba.len() >= 4 * self.width * self.height
    }
}

/// Why an image could not be decoded, with the decoder's message.
#[derive(PartialEq, Eq, Clone, Debug)]
pub enum ImageFailure {
    /// Reading the first bytes to guess the image format failed.
    GuessFormat(String),
    /// The bytes are not an image of a known format, or are corrupt.
    Decode(String),
}

/// Why a texture could not be made.
#[derive(PartialEq, Eq, Debug)]
pub enum TextureError {
    /// The configuration asks for another kind of texture than the function
    /// makes; `expected` is the kind it makes.
    WrongType { expected: TextureType },
    /// The image format of face `face` (for a cube map) could not be guessed.
    GuessFormat { face: Option<usize>, message: String },
    /// The image of face `face` (for a cube map) could not be decoded.
    Decode { face: Option<usize>, message: String },
    /// A cube map face does not have the size of the first face.
    FaceSizeMismatch { expected: (u32, u32), found: (u32, u32) },
}

/// Decodes `bytes` with the `image` crate, guessing the format from the
/// first bytes (`ImageReader::new`, `with_guessed_format`, `decode`), and
/// converts the result to 8-bit RGBA (`to_rgba8`, `dimensions`).  Which
/// formats are recognised, and so whether decoding succeeds, is not stated:
/// it depends on format hooks that a process can register, and on
/// allocation limits.  What is stated: guessing the format reads from memory
/// and cannot fail, so a failure is a decoding failure; a decoded image is
/// recorded as made from `bytes`, with the pixels, width and height that the
/// conversion gave; and its RGBA buffer holds at least
/// `4 * width * height` bytes (`to_rgba8` allocates exactly that much when
/// it converts, and an RGBA image straight from a decoder is only accepted
/// with a buffer that large).
#[verifier::external_body]
fn decode_guessed(bytes: &[u8]) -> (decoded: Result<DecodedImage, ImageFailure>)
    ensures
        decoded matches Err(failure) ==> failure is Decode,
        decoded matches Ok(image) ==> image.source() == Some(bytes@) && image.covers_size()
            && image.as_converted(),
{
    let reader = match image::ImageReader::new(std::io::Cursor::new(bytes)).with_guessed_format() {
        Ok(reader) => reader,
        Err(e) => return Err(ImageFailure::GuessFormat(format!("{}", e))),
    };
    match reader.decode() {
        Ok(image) => {
            let (width, height) = image::GenericImageView::dimensions(&image);
            let rgba = image.to_rgba8().into_raw();
            let conversion = Ghost(Some((rgba@, width, height)));
            Ok(DecodedImage { rgba, width, height, source: Ghost(Some(bytes@)), conversion })
        },
        Err(e) => Err(ImageFailure::Decode(format!("{}", e))),
    }
}

/// The texture error for a decoding failure of face `face`.
pub open spec fn texture_error_of(failure: ImageFailure, face: Option<usize>) -> TextureError {
    match failure {
        ImageFailure::GuessFormat(message) => TextureError::GuessFormat { face, message },
        ImageFailure::Decode(message) => TextureError::Decode { face, message },
    }
}

/// The texture error for a decoding failure of face `face`.
pub fn to_texture_error(failure: ImageFailure, face: Option<usize>) -> (error: TextureError)
    ensures
        error == texture_error_of(failure, face),
{
    match failure {
        ImageFailure::GuessFormat(message) => TextureError::GuessFormat { face, message },
        ImageFailure::Decode(message) => TextureError::Decode { face, message },
    }
}

/// What decoding the single image `bytes` gives a 2D texture: the image
/// decoded from `bytes`, or a decoding error with no face number.
pub open spec fn decoded_2d(bytes: Seq<u8>, image: Result<DecodedImage, TextureError>) -> bool {
    match image {
        Ok(i) => i.source() == Some(bytes) && i.covers_size() && i.as_converted(),
        Err(e) => e matches TextureError::Decode { face: None, .. },
    }
}

/// The pixels of a 2D texture: refused unless `texture_type` is
/// `Texture2D`; else the image that `bytes` decode to.
pub fn load_texture_2d(bytes: &[u8], texture_type: TextureType) -> (image: Result<
    DecodedImage,
    TextureError,
>)
    ensures
        texture_type != TextureType::Texture2D ==> image == Err::<DecodedImage, TextureError>(
            TextureError::WrongType { expected: TextureType::Texture2D },
        ),
        texture_type == TextureType::Texture2D ==> decoded_2d(bytes@, image),
{
    if texture_type != TextureType::Texture2D {
        return Err(TextureError::WrongType { expected: TextureType::Texture2D });
    }
    match decode_guessed(bytes) {
        Ok(image) => Ok(image),
        Err(failure) => Err(to_texture_error(failure, None)),
    }
}

/// The new pixels of an existing 2D texture: the image that `bytes`
/// decode to.
pub fn update_texture_2d(bytes: &[u8]) -> (image: Result<DecodedImage, TextureError>)
    ensures
        decoded_2d(bytes@, image),
{
    match decode_guessed(bytes) {
        Ok(image) => Ok(image),
        Err(failure) => Err(to_texture_error(failure, None)),
    }
}

/// The six faces of a cube map, all of size `width` by `height`.
pub struct CubemapImages {
    pub faces: Vec<Vec<u8>>,
    pub width: u32,
    pub height: u32,
}

/// Size of a decoded image.
pub open spec fn size_of_image(image: DecodedImage) -> (u32, u32) {
    (image.width, image.height)
}

/// Face `i` is the first to fail among `decoded`, whose first face (if it
/// decoded) has size `first`: it did not decode, or its size differs.
pub open spec fn face_fails(decoded: Seq<Result<DecodedImage, ImageFailure>>, i: int) -> bool {
    match decoded[i] {
        Err(_) => true,
        Ok(image) => match decoded[0] {
            Ok(first) => size_of_image(image) != size_of_image(first),
            Err(_) => true,
        },
    }
}

/// The outcome of checking decoded cube map faces: the error of the first
/// failing face, if one fails; else the faces with the common size.
pub open spec fn cubemap_error(decoded: Seq<Result<DecodedImage, ImageFailure>>, i: int) -> TextureError {
    match decoded[i] {
        Err(failure) => texture_error_of(failure, Some(i as usize)),
        Ok(image) => TextureError::FaceSizeMismatch {
            expected: size_of_image(decoded[0]->Ok_0),
            found: size_of_image(image),
        },
    }
}

/// `cubemap` is the outcome of checking the decoded faces `decoded` in
/// order: the error of the first face that failed, if one did; else the
/// faces' pixels, in order, with the common size.
pub open spec fn checked_cubemap(
    decoded: Seq<Result<DecodedImage, ImageFailure>>,
    cubemap: Result<CubemapImages, TextureError>,
) -> bool {
    match cubemap {
        Ok(c) => {
            &&& forall|i: int| 0 <= i < decoded.len() ==> !#[trigger] face_fails(decoded, i)
            &&& c.faces.len() == decoded.len()
            &&& (c.width, c.height) == size_of_image(decoded[0]->Ok_0)
            &&& forall|i: int|
                0 <= i < decoded.len() ==> #[trigger] c.faces@[i]@ == decoded[i]->Ok_0.rgba@
        },
        Err(e) => exists|i: int|
            0 <= i < decoded.len() && #[trigger] face_fails(decoded, i) && (forall|j: int|
                0 <= j < i ==> !#[trigger] face_fails(decoded, j)) && e == cubemap_error(
                decoded,
                i,
            ),
    }
}

/// `decoded` is what decoding the six images `bytes` in order gives, up to
/// and including the first that failed: each image decoded from its own
/// bytes, each failure a decoding failure.
pub open spec fn decoded_faces(bytes: [&[u8]; 6], decoded: Seq<Result<DecodedImage, ImageFailure>>) -> bool {
    &&& 1 <= decoded.len() <= 6
    &&& forall|i: int|
        0 <= i < decoded.len() ==> match #[trigger] decoded[i] {
            Ok(image) => image.source() == Some(bytes@[i]@) && image.covers_size()
                && image.as_converted(),
            Err(failure) => failure is Decode,
        }
    &&& forall|i: int| 0 <= i < decoded.len() - 1 ==> #[trigger] decoded[i] is Ok
    &&& decoded.len() < 6 ==> decoded.last() is Err
}

/// Checks the decoded faces of a cube map, in order: the first face that did
/// not decode, or whose size differs from the first face's, makes the error;
/// if none, the faces and their size.
pub fn check_cubemap_faces(decoded: Vec<Result<DecodedImage, ImageFailure>>) -> (cubemap: Result<
    CubemapImages,
    TextureError,
>)
    requires
        decoded.len() > 0,
    ensures
        checked_cubemap(decoded@, cubemap),
{
    let ghost all = decoded@;
    let mut faces: Vec<Vec<u8>> = Vec::new();
    let mut size: (u32, u32) = (0, 0);
    let mut rest = decoded;
    let mut reversed: Vec<Result<DecodedImage, ImageFailure>> = Vec::new();
    // Take the faces in order by reversing the list once.
    while rest.len() > 0
        invariant
            all == decoded@,
            reversed.len() + rest.len() == all.len(),
            forall|j: int| 0 <= j < rest.len() ==> #[trigger] rest@[j] == all[j],
            forall|j: int|
                0 <= j < reversed.len() ==> #[trigger] reversed@[j] == all[all.len() - 1 - j],
        decreases rest.len(),
    {
        let last = rest.pop().unwrap();
        reversed.push(last);
    }
    let mut i: usize = 0;
    while reversed.len() > 0
        invariant
            all == decoded@,
            i + reversed.len() == all.len(),
            all.len() > 0,
            forall|j: int|
                0 <= j < reversed.len() ==> #[trigger] reversed@[j] == all[all.len() - 1 - j],
            faces.len() == i,
            forall|j: int| 0 <= j < i ==> !#[trigger] face_fails(all, j),
            forall|j: int| 0 <= j < i ==> #[trigger] faces@[j]@ == all[j]->Ok_0.rgba@,
            i > 0 ==> all[0] is Ok && size == size_of_image(all[0]->Ok_0),
            all.len() <= usize::MAX,
        decreases reversed.len(),
    {
        let face = reversed.pop().unwrap();
        assert(face == all[i as int]);
        match face {
            Err(failure) => {
                let error = to_texture_error(failure, Some(i));
                proof {
                    assert(face_fails(all, i as int));
                    assert(error == cubemap_error(all, i as int));
                }
                return Err(error);
            },
            Ok(image) => {
                if i == 0 {
                    size = (image.width, image.height);
                } else if image.width != size.0 || image.height != size.1 {
                    let error = TextureError::FaceSizeMismatch {
                        expected: size,
                        found: (image.width, image.height),
                    };
                    proof {
                        assert(face_fails(all, i as int));
                        assert(error == cubemap_error(all, i as int));
                    }
                    return Err(error);
                }
                faces.push(image.rgba);
                i = i + 1;
            },
        }
    }
    Ok(CubemapImages { faces, width: size.0, height: size.1 })
}

/// The pixels of a cube map texture: refused unless `texture_type` is
/// `TextureCube`; else the six images that `bytes` decode to (right, left,
/// top, bottom, front, back), decoded in order until one fails and checked
/// in order by `check_cubemap_faces`.
pub fn load_texture_cubemap(bytes: [&[u8]; 6], texture_type: TextureType) -> (cubemap: Result<
    CubemapImages,
    TextureError,
>)
    ensures
        texture_type != TextureType::TextureCube ==> cubemap == Err::<CubemapImages, TextureError>(
            TextureError::WrongType { expected: TextureType::TextureCube },
        ),
        texture_type == TextureType::TextureCube ==> exists|decoded: Seq<
            Result<DecodedImage, ImageFailure>,
        >| #[trigger] decoded_faces(bytes, decoded) && checked_cubemap(decoded, cubemap),
        texture_type == TextureType::TextureCube ==> match cubemap {
            Ok(c) => c.faces.len() == 6,
            Err(e) => !(e is WrongType),
        },
{
    if texture_type != TextureType::TextureCube {
        return Err(TextureError::WrongType { expected: TextureType::TextureCube });
    }
    let mut decoded: Vec<Result<DecodedImage, ImageFailure>> = Vec::new();
    let mut count: usize = 0;
    let mut failed = false;
    while !failed && count < 6
        invariant
            count <= 6,
            decoded.len() == count,
            failed ==> count > 0 && decoded@[count - 1] is Err,
            forall|i: int|
                0 <= i < count ==> match #[trigger] decoded@[i] {
                    Ok(image) => image.source() == Some(bytes@[i]@) && image.covers_size()
                && image.as_converted(),
                    Err(failure) => failure is Decode,
                },
            forall|i: int| 0 <= i < count && (!failed || i < count - 1) ==> #[trigger] decoded@[i] is Ok,
        decreases 6 - count,
    {
        let face = decode_guessed(bytes[count]);
        failed = face.is_err();
        decoded.push(face);
        count = count + 1;
    }
    let ghost all = decoded@;
    proof {
        assert(decoded_faces(bytes, all));
    }
    let checked = check_cubemap_faces(decoded);
    proof {
        if checked is Ok && failed {
            assert(face_fails(all, count - 1));
        }
    }
    checked
}

/// The same size as the first face: `image` has the first decoded face's
/// width and height, which did decode.
pub open spec fn same_size_as_first(decoded: Seq<Result<DecodedImage, ImageFailure>>, image: DecodedImage) -> bool {
    &&& decoded[0] is Ok
    &&& image.width == decoded[0]->Ok_0.width
    &&& image.height == decoded[0]->Ok_0.height
}

/// Faces before `i` all decoded to the first face's size.
pub open spec fn good_prefix(decoded: Seq<Result<DecodedImage, ImageFailure>>, i: int) -> bool {
    forall|j: int|
        0 <= j < i ==> #[trigger] decoded[j] is Ok && same_size_as_first(decoded, decoded[j]->Ok_0)
}

/// Checking cube map faces accepts them exactly when every face decoded and
/// has both the width and the height of the first face.  Otherwise the error
/// is that of the first face that is not so: its decoding failure, with its
/// face number, or, for an image whose width or height differs, the first
/// face's size and its own.
pub proof fn lemma_checked_cubemap_sizes(
    decoded: Seq<Result<DecodedImage, ImageFailure>>,
    result: Result<CubemapImages, TextureError>,
)
    requires
        decoded.len() > 0,
        checked_cubemap(decoded, result),
    ensures
        result is Ok <==> good_prefix(decoded, decoded.len() as int),
        forall|i: int|
            0 <= i < decoded.len() && good_prefix(decoded, i) && #[trigger] decoded[i] is Ok
                && !same_size_as_first(decoded, decoded[i]->Ok_0) ==> result == Err::<
                CubemapImages,
                TextureError,
            >(
                TextureError::FaceSizeMismatch {
                    expected: (decoded[0]->Ok_0.width, decoded[0]->Ok_0.height),
                    found: (decoded[i]->Ok_0.width, decoded[i]->Ok_0.height),
                },
            ),
        forall|i: int|
            0 <= i < decoded.len() && good_prefix(decoded, i) && #[trigger] decoded[i] is Err
                ==> result == Err::<CubemapImages, TextureError>(
                match decoded[i]->Err_0 {
                    ImageFailure::GuessFormat(message) => TextureError::GuessFormat {
                        face: Some(i as usize),
                        message,
                    },
                    ImageFailure::Decode(message) => TextureError::Decode {
                        face: Some(i as usize),
                        message,
                    },
                },
            ),
{
    let n = decoded.len() as int;
    assert forall|j: int| 0 <= j < n implies (!face_fails(decoded, j) <==> (decoded[j] is Ok
        && same_size_as_first(decoded, decoded[j]->Ok_0))) by {}
    match result {
        Ok(c) => {
            assert(good_prefix(decoded, n)) by {
                assert forall|j: int| 0 <= j < n implies #[trigger] decoded[j] is Ok
                    && same_size_as_first(decoded, decoded[j]->Ok_0) by {
                    assert(!face_fails(decoded, j));
                }
            }
            assert forall|i: int|
                0 <= i < n && good_prefix(decoded, i) && #[trigger] decoded[i] is Ok
                    && !same_size_as_first(decoded, decoded[i]->Ok_0) implies false by {
                assert(!face_fails(decoded, i));
            }
            assert forall|i: int|
                0 <= i < n && good_prefix(decoded, i) && #[trigger] decoded[i] is Err implies false by {
                assert(!face_fails(decoded, i));
            }
        },
        Err(e) => {
            let f = choose|f: int|
                0 <= f < n && #[trigger] face_fails(decoded, f) && (forall|j: int|
                    0 <= j < f ==> !#[trigger] face_fails(decoded, j)) && e == cubemap_error(
                    decoded,
                    f,
                );
            if good_prefix(decoded, n) {
                assert(decoded[f] is Ok && same_size_as_first(decoded, decoded[f]->Ok_0));
            }
            assert forall|i: int|
                0 <= i < n && good_prefix(decoded, i) && face_fails(decoded, i) implies i == f by {
                if i < f {
                    assert(!face_fails(decoded, i));
                } else if f < i {
                    assert(decoded[f] is Ok && same_size_as_first(decoded, decoded[f]->Ok_0));
                }
            }
            assert forall|i: int|
                0 <= i < n && good_prefix(decoded, i) && #[trigger] decoded[i] is Ok
                    && !same_size_as_first(decoded, decoded[i]->Ok_0) implies result == Err::<
                CubemapImages,
                TextureError,
            >(
                TextureError::FaceSizeMismatch {
                    expected: (decoded[0]->Ok_0.width, decoded[0]->Ok_0.height),
                    found: (decoded[i]->Ok_0.width, decoded[i]->Ok_0.height),
                },
            ) by {
                assert(face_fails(decoded, i));
                assert(i == f);
            }
            assert forall|i: int|
                0 <= i < n && good_prefix(decoded, i) && #[trigger] decoded[i] is Err implies result
                == Err::<CubemapImages, TextureError>(
                match decoded[i]->Err_0 {
                    ImageFailure::GuessFormat(message) => TextureError::GuessFormat {
                        face: Some(i as usize),
                        message,
                    },
                    ImageFailure::Decode(message) => TextureError::Decode {
                        face: Some(i as usize),
                        message,
                    },
                },
            ) by {
                assert(face_fails(decoded, i));
                assert(i == f);
            }
        },
    }
}

/// A 2D texture that loads (or the new pixels of one that is updated) is the
/// image decoded from the given bytes, with exactly the pixels, width and
/// height that the decoder's RGBA8 conversion gave, four bytes or more per
/// pixel.
pub proof fn lemma_loaded_2d_is_decoded(bytes: Seq<u8>, image: DecodedImage)
    requires
        decoded_2d(bytes, Ok(image)),
    ensures
        image.source@ == Some(bytes),
        image.conversion@ == Some((image.rgba@, image.width, image.height)),
        image.rgba.len() >= 4 * image.width * image.height,
{
}

} // verus!
