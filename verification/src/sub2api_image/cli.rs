//! The command line of `sub2api-image`, as plain values, and its checks.
use crate::sub2api_image::errors::{AppError, ErrorKind};
use crate::text::{push_str, string_of};
use vstd::prelude::*;

verus! {

broadcast use vstd::string::group_string_axioms;

/// The options of one run.  Paths are kept as text.
#[derive(Debug, Clone, PartialEq, Eq)]
pub struct Args {
    /// What to draw (required unless `init`).
    pub prompt: Option<String>,
    /// Where to write the image (required unless `init`).
    pub output: Option<String>,
    /// An image to edit; switches to edit mode.
    pub image: Option<String>,
    /// A mask for the edit.
    pub mask: Option<String>,
    /// `auto`, `high`, `medium` or `low`.
    pub quality: Option<String>,
    /// Overrides the configured size.
    pub size: Option<String>,
    /// Overrides the configured model.
    pub model: Option<String>,
    /// Write the configuration template and stop.
    pub init: bool,
    /// No diagnostics on stderr.
    pub quiet: bool,
}

/// The detail of the error for a file given on the command line that does
/// not exist.
pub open spec fn missing_file_text(flag: Seq<char>, path: Seq<char>) -> Seq<char> {
    flag + " file does not exist: "@ + path
}

/// The outcome of checking `args`, given whether the image and the mask
/// exist: nothing to check for `--init`; otherwise a prompt and an output
/// are required, and each of the image and the mask, when given, must exist.
pub open spec fn validation(args: Args, image_exists: bool, mask_exists: bool) -> Result<
    (),
    (ErrorKind, Seq<char>),
> {
    if args.init {
        Ok(())
    } else if args.prompt is None {
        Err((ErrorKind::Input, "--prompt is required"@))
    } else if args.output is None {
        Err((ErrorKind::Input, "--output is required"@))
    } else if args.image is Some && !image_exists {
        Err((ErrorKind::Input, missing_file_text("--image"@, args.image->0@)))
    } else if args.mask is Some && !mask_exists {
        Err((ErrorKind::Input, missing_file_text("--mask"@, args.mask->0@)))
    } else {
        Ok(())
    }
}

/// A unit result with its error read through the error's view.
pub open spec fn unit_view(r: Result<(), AppError>) -> Result<(), (ErrorKind, Seq<char>)> {
    match r {
        Ok(()) => Ok(()),
        Err(e) => Err(e@),
    }
}

fn missing_file(flag: &str, path: &String) -> (e: AppError)
    ensures
        e@ == (ErrorKind::Input, missing_file_text(flag@, path@)),
{
    let mut v: Vec<char> = Vec::new();
    push_str(&mut v, flag);
    push_str(&mut v, " file does not exist: ");
    push_str(&mut v, path.as_str());
    AppError::Input(string_of(&v))
}

/// `std::path::Path::exists`.  What is on disk decides, so nothing is
/// claimed of the result.
#[verifier::external_body]
fn path_exists(path: &str) -> bool {
    std::path::Path::new(path).exists()
}

impl Args {
    /// Checks the options, given whether the image and the mask files exist.
    pub fn validate_with(&self, image_exists: bool, mask_exists: bool) -> (r: Result<(), AppError>)
        ensures
            unit_view(r) == validation(*self, image_exists, mask_exists),
    {
        proof {
            reveal_strlit("--prompt is required");
            reveal_strlit("--output is required");
        }
        if self.init {
            return Ok(());
        }
        if self.prompt.is_none() {
            return Err(AppError::Input("--prompt is required".to_owned()));
        }
        if self.output.is_none() {
            return Err(AppError::Input("--output is required".to_owned()));
        }
        if let Some(img) = &self.image {
            if !image_exists {
                return Err(missing_file("--image", img));
            }
        }
        if let Some(mask) = &self.mask {
            if !mask_exists {
                return Err(missing_file("--mask", mask));
            }
        }
        Ok(())
    }

    /// Checks the options, looking on disk for the image and the mask when
    /// they matter.  The outcome is `validation` for what the disk showed.
    pub fn validate(&self) -> (r: Result<(), AppError>)
        ensures
            exists|image_exists: bool, mask_exists: bool|
                unit_view(r) == validation(*self, image_exists, mask_exists),
    {
        let needs_files = !self.init && self.prompt.is_some() && self.output.is_some();
        let image_exists = match &self.image {
            Some(p) => !needs_files || path_exists(p.as_str()),
            None => true,
        };
        let mask_exists = match &self.mask {
            Some(p) => !needs_files || !image_exists || path_exists(p.as_str()),
            None => true,
        };
        let r = self.validate_with(image_exists, mask_exists);
        assert(unit_view(r) == validation(*self, image_exists, mask_exists));
        r
    }
}

} // verus!
