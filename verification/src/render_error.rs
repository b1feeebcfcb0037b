//! The one error that leaves the renderer: a kind and a message.

use vstd::prelude::*;
use vstd::std_specs::convert::FromSpecImpl;

verus! {

/// std's `io::Error`, carried through and never looked into.
#[verifier::external_type_specification]
#[verifier::external_body]
pub struct ExIoError(std::io::Error);

/// tobj's `LoadError`, carried through and never looked into.
#[verifier::external_type_specification]
#[verifier::external_body]
pub struct ExLoadError(tobj::LoadError);

/// The image crate's `ImageError`, carried through and never looked into.
#[verifier::external_type_specification]
#[verifier::external_body]
pub struct ExImageError(image::ImageError);

/// A failure of one of the renderer's collaborators, tagged with its kind.
#[derive(Debug)]
pub struct RenderError {
    pub kind: String,
    pub message: String,
}

/// `to_string` of std's `io::Error`. Nothing is claimed of the text.
#[verifier::external_body]
fn io_error_text(error: &std::io::Error) -> String {
    error.to_string()
}

/// `to_string` of tobj's `LoadError`. Nothing is claimed of the text.
#[verifier::external_body]
fn load_error_text(error: &tobj::LoadError) -> String {
    error.to_string()
}

/// `to_string` of the image crate's `ImageError`. Nothing is claimed of the
/// text.
#[verifier::external_body]
fn image_error_text(error: &image::ImageError) -> String {
    error.to_string()
}

/// `format!` of std, with the kind and the message in their places.
#[verifier::external_body]
fn error_text(kind: &str, message: &str) -> (text: String)
    ensures
        text@ == "RenderError { kind: "@ + kind@ + ", message: "@ + message@ + " }"@,
{
    format!("RenderError {{ kind: {}, message: {} }}", kind, message)
}

impl RenderError {
    /// The error as one line of text.
    pub fn to_string(&self) -> (text: String)
        ensures
            text@ == "RenderError { kind: "@ + self.kind@ + ", message: "@ + self.message@ + " }"@,
    {
        error_text(self.kind.as_str(), self.message.as_str())
    }
}

impl From<std::io::Error> for RenderError {
    /// An error of kind `io`, with the error's own text as its message.
    fn from(error: std::io::Error) -> (e: RenderError)
        ensures
            e.kind@ == "io"@,
    {
        RenderError { kind: "io".to_owned(), message: io_error_text(&error) }
    }
}

impl FromSpecImpl<std::io::Error> for RenderError {
    open spec fn obeys_from_spec() -> bool {
        false
    }

    open spec fn from_spec(v: std::io::Error) -> Self {
        arbitrary()
    }
}

impl From<tobj::LoadError> for RenderError {
    /// An error of kind `tobj`, with the error's own text as its message.
    fn from(error: tobj::LoadError) -> (e: RenderError)
        ensures
            e.kind@ == "tobj"@,
    {
        RenderError { kind: "tobj".to_owned(), message: load_error_text(&error) }
    }
}

impl FromSpecImpl<tobj::LoadError> for RenderError {
    open spec fn obeys_from_spec() -> bool {
        false
    }

    open spec fn from_spec(v: tobj::LoadError) -> Self {
        arbitrary()
    }
}

impl From<image::ImageError> for RenderError {
    /// An error of kind `image`, with the error's own text as its message.
    fn from(error: image::ImageError) -> (e: RenderError)
        ensures
            e.kind@ == "image"@,
    {
        RenderError { kind: "image".to_owned(), message: image_error_text(&error) }
    }
}

impl FromSpecImpl<image::ImageError> for RenderError {
    open spec fn obeys_from_spec() -> bool {
        false
    }

    open spec fn from_spec(v: image::ImageError) -> Self {
        arbitrary()
    }
}

} // verus!
