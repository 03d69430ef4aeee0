//! Screenshots for the translation overlay: which output to capture, and how a
//! screenshot is handed to the model.

use crate::encoding;
use crate::text;
use vstd::prelude::*;
use vstd::string::*;

verus! {

broadcast use vstd::string::group_string_axioms;

/// One output (monitor): its name and its logical geometry.
#[derive(Debug)]
pub struct OutputGeometry {
    pub name: String,
    pub x: i32,
    pub y: i32,
    pub width: u32,
    pub height: u32,
}

/// `at` is the output that is wanted: the first one of that name, or, if none is
/// named, the first one.
pub open spec fn is_target(
    outputs: Seq<OutputGeometry>,
    wanted: Option<Seq<char>>,
    at: int,
) -> bool {
    &&& 0 <= at < outputs.len()
    &&& match wanted {
        Some(name) => outputs[at].name@ == name && forall|k: int|
            0 <= k < at ==> (#[trigger] outputs[k]).name@ != name,
        None => at == 0,
    }
}

/// There is no output of the name that is wanted, or none at all.
pub open spec fn no_target(outputs: Seq<OutputGeometry>, wanted: Option<Seq<char>>) -> bool {
    match wanted {
        Some(name) => forall|k: int|
            0 <= k < outputs.len() ==> (#[trigger] outputs[k]).name@ != name,
        None => outputs.len() == 0,
    }
}

/// The output that is wanted: the first one of that name, or, if none is named,
/// the first one.
pub fn target_output(outputs: &Vec<OutputGeometry>, wanted: &Option<String>) -> (found: Option<
    usize,
>)
    ensures
        match found {
            Some(at) => is_target(outputs@, wanted.deep_view(), at as int),
            None => no_target(outputs@, wanted.deep_view()),
        },
{
    match wanted {
        Some(name) => {
            let mut at: usize = 0;
            while at < outputs.len()
                invariant
                    at <= outputs@.len(),
                    wanted.deep_view() == Some(name@),
                    forall|k: int| 0 <= k < at ==> (#[trigger] outputs@[k]).name@ != name@,
                decreases outputs.len() - at,
            {
                if text::same(&outputs[at].name, name) {
                    return Some(at);
                }
                at = at + 1;
            }
            None
        },
        None => if outputs.len() > 0 {
            Some(0)
        } else {
            None
        },
    }
}

/// The output to capture, or the message that there is none.
pub fn capture(outputs: &Vec<OutputGeometry>, wanted: &Option<String>) -> (found: Result<
    usize,
    String,
>)
    ensures
        match found {
            Ok(at) => is_target(outputs@, wanted.deep_view(), at as int),
            Err(message) => {
                &&& no_target(outputs@, wanted.deep_view())
                &&& message@ == (match wanted {
                    Some(name) => "output "@ + text::quoted(name@) + " not found"@,
                    None => "no Wayland outputs to capture"@,
                })
            },
        },
{
    match target_output(outputs, wanted) {
        Some(at) => Ok(at),
        None => match wanted {
            Some(name) => Err("output ".to_owned().concat(&text::quote(name)).concat(" not found")),
            None => Err("no Wayland outputs to capture".to_owned()),
        },
    }
}

/// The JPEG file of an image, as `image` writes it: `rgb` holds the rows of the
/// image from the top, three bytes a pixel.
pub uninterp spec fn jpeg_file(rgb: Seq<u8>, width: u32, height: u32) -> Seq<u8>;

/// An image of this size has a JPEG file, and `rgb` holds all of its pixels.
pub open spec fn fits_jpeg(rgb: Seq<u8>, width: u32, height: u32) -> bool {
    &&& 1 <= width <= 0xffff
    &&& 1 <= height <= 0xffff
    &&& 3 * width * height <= rgb.len()
}

/// Encodes an image with `image`'s `RgbImage::from_raw` and `write_to`. The file is
/// a function of the pixels and the size. There is one unless a side of the image
/// is empty or longer than a JPEG file can say, or pixels are missing.
#[verifier::external_body]
pub(crate) fn encode_jpeg(rgb: &[u8], width: u32, height: u32) -> (file: Option<Vec<u8>>)
    ensures
        match file {
            Some(file) => fits_jpeg(rgb@, width, height) && file@ == jpeg_file(rgb@, width, height),
            None => !fits_jpeg(rgb@, width, height),
        },
{
    let image = image::RgbImage::from_raw(width, height, rgb.to_vec())?;
    let mut file = std::io::Cursor::new(Vec::new());
    match image.write_to(&mut file, image::ImageFormat::Jpeg) {
        Ok(()) => Some(file.into_inner()),
        Err(_) => None,
    }
}

/// A JPEG file as a data URI.
pub fn data_uri(file: &[u8]) -> (uri: String)
    ensures
        uri@ == "data:image/jpeg;base64,"@ + encoding::base64_text(file@),
        encoding::stands_for(uri@.skip("data:image/jpeg;base64,"@.len() as int), file@),
{
    let encoded: String = encoding::base64_encode(file);
    let uri: String = "data:image/jpeg;base64,".to_owned().concat(&encoded);
    assert(uri@.skip("data:image/jpeg;base64,"@.len() as int) =~= encoded@);
    uri
}

/// A screenshot as the data URI of its JPEG file, or the message that it has none.
pub fn to_data_uri(rgb: &[u8], width: u32, height: u32) -> (uri: Result<String, String>)
    ensures
        match uri {
            Ok(uri) => {
                &&& fits_jpeg(rgb@, width, height)
                &&& uri@ == "data:image/jpeg;base64,"@ + encoding::base64_text(
                    jpeg_file(rgb@, width, height),
                )
                &&& encoding::stands_for(
                    uri@.skip("data:image/jpeg;base64,"@.len() as int),
                    jpeg_file(rgb@, width, height),
                )
            },
            Err(message) => !fits_jpeg(rgb@, width, height) && message@ == "JPEG encode"@,
        },
{
    match encode_jpeg(rgb, width, height) {
        Some(file) => Ok(data_uri(file.as_slice())),
        None => Err("JPEG encode".to_owned()),
    }
}

/// What is captured is the first output of the name that is wanted, or the first of all.
pub proof fn wanted_output_is_captured(
    outputs: Seq<OutputGeometry>,
    wanted: Option<Seq<char>>,
    at: int,
    k: int,
)
    requires
        is_target(outputs, wanted, at),
        0 <= k < outputs.len(),
    ensures
        0 <= at < outputs.len(),
        wanted is None ==> at == 0,
        wanted is Some ==> outputs[at].name@ == wanted->0,
        wanted is Some && outputs[k].name@ == wanted->0 ==> at <= k,
{
}

/// There is nothing to capture only if no output has the name that is wanted, or there
/// is none.
pub proof fn no_output_is_overlooked(
    outputs: Seq<OutputGeometry>,
    wanted: Option<Seq<char>>,
    k: int,
)
    requires
        no_target(outputs, wanted),
        0 <= k < outputs.len(),
    ensures
        wanted is Some,
        outputs[k].name@ != wanted->0,
{
}

}
