//! Looking at an image file.
use vstd::prelude::*;
#[allow(unused_imports)]
use vstd::string::*;

#[allow(unused_imports)]
use crate::text::{cat2, cat3, cat4, cat5, decimal, decimal_text, has_prefix, option_view};
#[allow(unused_imports)]
use crate::tool::{MetadataView, ToolKind, ToolMetadata, ToolNamespace};

verus! {

/// What the tool says of itself.
pub const DESCRIPTION: &'static str =
    "View an image file.\n\nUsage:\n- Attaches the image at the given path to the conversation so you can see it visually.\n- The path can be a relative path in the workspace or an absolute path.\n- Supported formats: PNG, JPEG, GIF, WEBP, HEIC (large images are downscaled automatically; HEIC is converted to JPEG).\n- Use this to inspect screenshots, rendered previews, diagrams, or any other image on disk. Do not print image bytes (e.g. base64) to the terminal — that does not attach anything; use this tool instead.\n- In code mode, pass the result to the global image(...) helper to attach it: image(await tools.view_image({path})). Do not print the result.";

/// Which image to look at.
#[derive(Debug, Clone)]
pub struct ViewImageInput {
    pub path: String,
}

/// What is said of a file that is no image: what it is, that it is empty, or
/// that it is unknown.
pub open spec fn unsupported_text(path: Seq<char>, detected: Option<Seq<char>>, size: nat) -> Seq<
    char,
> {
    match detected {
        Some(mime_type) => "Error: "@ + path
            + " is not a supported image file (PNG, JPEG, GIF, WEBP, HEIC). Detected type: "@
            + mime_type + " ("@ + decimal(size)
            + " bytes). Use read_file for text and other file types."@,
        None => if size == 0 {
            "Error: "@ + path
                + " is empty (0 bytes), not a supported image file (PNG, JPEG, GIF, WEBP, HEIC)."@
        } else {
            "Error: "@ + path
                + " is not a supported image file (PNG, JPEG, GIF, WEBP, HEIC). Unrecognized file contents ("@
                + decimal(size) + " bytes). Use read_file for text and other file types."@
        },
    }
}

/// Says of a file that it is no image. `detected` is the type that its contents
/// show, if they show one.
pub fn unsupported_image_error(path: &str, file_bytes: &[u8], detected: Option<&str>) -> (r: String)
    ensures
        r@ == unsupported_text(
            path@,
            match detected {
                Some(m) => Some(m@),
                None => None,
            },
            file_bytes@.len(),
        ),
{
    let size: String = decimal_text(file_bytes.len() as u64);
    match detected {
        Some(mime_type) => {
            let mut out: String = cat5(
                "Error: ",
                path,
                " is not a supported image file (PNG, JPEG, GIF, WEBP, HEIC). Detected type: ",
                mime_type,
                " (",
            );
            out.append(size.as_str());
            out.append(" bytes). Use read_file for text and other file types.");
            out
        },
        None => {
            if file_bytes.len() == 0 {
                return cat3(
                    "Error: ",
                    path,
                    " is empty (0 bytes), not a supported image file (PNG, JPEG, GIF, WEBP, HEIC).",
                );
            }
            cat5(
                "Error: ",
                path,
                " is not a supported image file (PNG, JPEG, GIF, WEBP, HEIC). Unrecognized file contents (",
                size.as_str(),
                " bytes). Use read_file for text and other file types.",
            )
        },
    }
}

/// Why a file could not be read.
#[derive(Debug, Clone, Copy, PartialEq, Eq, Structural)]
pub enum ReadFailure {
    NotFound,
    IsADirectory,
    PermissionDenied,
    Other,
}

/// What became of a file.
#[derive(Debug)]
pub enum FileEvent {
    /// The file is not for reading.
    Ignored,
    Failed { failure: ReadFailure, error: String },
    /// The file was read; the type that its contents show, if they show one,
    /// and whether that is an image.
    Read { bytes: Vec<u8>, detected: Option<String>, is_image: bool },
}

/// What a call answers.
#[derive(Debug)]
pub enum ReadFileOutput {
    FileReadError(String),
    FileNotFound(String),
    IsADirectory(String),
    PermissionDenied(String),
    /// An image and its type.
    ImageContent { bytes: Vec<u8>, mime_type: String },
}

/// What is answered, in words.
pub open spec fn answer_text(
    event: FileEvent,
    display_path: Seq<char>,
    path: Seq<char>,
) -> Seq<char> {
    match event {
        FileEvent::Ignored => "Error: "@ + display_path
            + " is ignored by .gitignore and cannot be read."@,
        FileEvent::Failed { failure, error } => match failure {
            ReadFailure::NotFound => "Error: "@ + display_path + " does not exist."@,
            ReadFailure::IsADirectory => "Error: "@ + display_path
                + " is a directory, not a file."@,
            ReadFailure::PermissionDenied => "Permission denied: "@ + display_path,
            ReadFailure::Other => "Failed to read file: "@ + display_path + ", "@ + error@,
        },
        FileEvent::Read { bytes, detected, .. } => unsupported_text(
            path,
            option_view(detected),
            bytes@.len(),
        ),
    }
}

/// The tool that looks at images.
#[derive(Debug, Default, Clone, Copy)]
pub struct ViewImageTool;

impl ViewImageTool {
    /// What the tool says of itself.
    pub fn metadata(&self) -> (r: ToolMetadata)
        ensures
            r@ == (MetadataView {
                id: "view_image"@,
                kind: ToolKind::Read,
                namespace: ToolNamespace::GrokBuild,
                read_only: true,
                description: DESCRIPTION@,
            }),
    {
        ToolMetadata {
            id: "view_image",
            kind: ToolKind::Read,
            namespace: ToolNamespace::GrokBuild,
            read_only: true,
            description: DESCRIPTION,
        }
    }

    /// What a call answers. `display_path` is the path as it was asked for,
    /// `path` the one that was read.
    pub fn answer(&self, event: FileEvent, display_path: &str, path: &str) -> (r: ReadFileOutput)
        ensures
            match r {
                ReadFileOutput::ImageContent { bytes, mime_type } => {
                    &&& event is Read
                    &&& event->is_image
                    &&& event->detected == Some(mime_type)
                    &&& event->bytes == bytes
                },
                ReadFileOutput::FileNotFound(t) => {
                    &&& event matches FileEvent::Failed { failure: ReadFailure::NotFound, .. }
                    &&& t@ == answer_text(event, display_path@, path@)
                },
                ReadFileOutput::IsADirectory(t) => {
                    &&& event matches FileEvent::Failed { failure: ReadFailure::IsADirectory, .. }
                    &&& t@ == answer_text(event, display_path@, path@)
                },
                ReadFileOutput::PermissionDenied(t) => {
                    &&& event matches FileEvent::Failed {
                        failure: ReadFailure::PermissionDenied,
                        ..
                    }
                    &&& t@ == answer_text(event, display_path@, path@)
                },
                ReadFileOutput::FileReadError(t) => {
                    &&& event is Ignored || (event matches FileEvent::Failed {
                        failure: ReadFailure::Other,
                        ..
                    }) || (event is Read && !(event->is_image && event->detected is Some))
                    &&& t@ == answer_text(event, display_path@, path@)
                },
            },
    {
        match event {
            FileEvent::Ignored => ReadFileOutput::FileReadError(
                cat3("Error: ", display_path, " is ignored by .gitignore and cannot be read."),
            ),
            FileEvent::Failed { failure, error } => match failure {
                ReadFailure::NotFound => ReadFileOutput::FileNotFound(
                    cat3("Error: ", display_path, " does not exist."),
                ),
                ReadFailure::IsADirectory => ReadFileOutput::IsADirectory(
                    cat3("Error: ", display_path, " is a directory, not a file."),
                ),
                ReadFailure::PermissionDenied => ReadFileOutput::PermissionDenied(
                    cat2("Permission denied: ", display_path),
                ),
                ReadFailure::Other => ReadFileOutput::FileReadError(
                    cat4("Failed to read file: ", display_path, ", ", error.as_str()),
                ),
            },
            FileEvent::Read { bytes, detected, is_image } => match detected {
                Some(mime_type) => if is_image {
                    ReadFileOutput::ImageContent { bytes, mime_type }
                } else {
                    ReadFileOutput::FileReadError(
                        unsupported_image_error(path, bytes.as_slice(), Some(mime_type.as_str())),
                    )
                },
                None => ReadFileOutput::FileReadError(
                    unsupported_image_error(path, bytes.as_slice(), None),
                ),
            },
        }
    }
}

/// An image is shown exactly where the file was read and its contents are those of an
/// image: with its bytes and its type.
pub proof fn law_images_are_shown(
    tool: &ViewImageTool,
    event: FileEvent,
    display_path: &str,
    path: &str,
    r: ReadFileOutput,
)
    requires
        call_ensures(ViewImageTool::answer, (tool, event, display_path, path), r),
    ensures
        r is ImageContent <==> event is Read && event->is_image && event->detected is Some,
        r matches ReadFileOutput::ImageContent { bytes, mime_type } ==> bytes@ == event->bytes@
            && event->detected == Some(mime_type),
        event matches FileEvent::Failed { failure, .. } ==> {
            &&& failure is NotFound ==> r is FileNotFound
            &&& failure is IsADirectory ==> r is IsADirectory
            &&& failure is PermissionDenied ==> r is PermissionDenied
            &&& failure is Other ==> r is FileReadError
        },
        event is Ignored ==> r is FileReadError,
{
}

/// A file that is no image is told by its name and its size.
pub proof fn law_other_files_are_named(path: Seq<char>, detected: Option<Seq<char>>, size: nat)
    ensures
        has_prefix(unsupported_text(path, detected, size), "Error: "@ + path),
{
    let p = "Error: "@ + path;
    let t = unsupported_text(path, detected, size);
    assert(t.subrange(0, p.len() as int) =~= p);
}

} // verus!
