use vstd::prelude::*;

verus! {

/// What the service answers: a message and, on success, the rendered image in base64.
#[derive(Debug)]
pub struct ImageResponse {
    pub message: String,
    pub image_base64: Option<String>,
}

impl ImageResponse {
    /// A response that carries only a message.
    pub fn new(message: String) -> (r: ImageResponse)
        ensures
            r.message@ == message@,
            r.image_base64 is None,
    {
        ImageResponse { message, image_base64: None }
    }

    /// A response that carries a message and an image.
    pub fn with_image(message: String, image_base64: String) -> (r: ImageResponse)
        ensures
            r.message@ == message@,
            r.image_base64 == Some(image_base64),
    {
        ImageResponse { message, image_base64: Some(image_base64) }
    }
}

} // verus!
