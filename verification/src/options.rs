//! The argument resolver: raw command-line arguments to a configuration.

use crate::chars::chars_of;
use crate::errors::HasteError;
use crate::url_shape::url_shaped;
use crate::url_shape::url_shaped_check;
use vstd::prelude::*;
use vstd::string::StringExecFns;

verus! {

/// Which transfer an invocation performs.
#[derive(Clone, Copy, Debug)]
pub enum Mode {
    Upload,
    Download,
}

/// The built-in upload endpoint, used when no URL argument is given.
pub open spec fn spec_default_url() -> Seq<char> {
    "https://pastie.io/documents"@
}

/// The resolved configuration of one invocation: which file, which
/// endpoint, and in which direction the transfer goes.
#[derive(Debug)]
pub struct Options {
    pub filename: String,
    pub url: String,
    pub mode: Mode,
}

impl Options {
    /// Resolves the raw argument list (argument 0 is the program name).
    ///
    /// A URL-shaped first operand selects download mode and must be followed
    /// by a filename; any other first operand is the file to upload, with
    /// the endpoint taken from argument 2 or falling back to the default.
    pub fn new(args: &[String]) -> (r: Result<Options, HasteError>)
        ensures
            args@.len() < 2 ==> (r matches Err(e) && e == HasteError::MissingArguments),
            args@.len() == 2 && url_shaped(args@[1]@) ==> (r matches Err(e) && e
                == HasteError::MissingFilename),
            args@.len() >= 3 && url_shaped(args@[1]@) ==> (r matches Ok(o) && o.mode is Download
                && o.url@ == args@[1]@ && o.filename@ == args@[2]@),
            args@.len() == 2 && !url_shaped(args@[1]@) ==> (r matches Ok(o) && o.mode is Upload
                && o.filename@ == args@[1]@ && o.url@ == spec_default_url()),
            args@.len() >= 3 && !url_shaped(args@[1]@) ==> (r matches Ok(o) && o.mode is Upload
                && o.filename@ == args@[1]@ && o.url@ == args@[2]@),
    {
        if args.len() < 2 {
            return Err(HasteError::MissingArguments);
        }
        let filename: String;
        let url: String;
        let mode: Mode;
        if Options::is_url(&args[1]) {
            mode = Mode::Download;
            url = args[1].clone();
            if args.len() < 3 {
                return Err(HasteError::MissingFilename);
            } else {
                filename = args[2].clone();
            }
        } else {
            mode = Mode::Upload;
            filename = args[1].clone();
            if args.len() < 3 {
                url = String::from_str("https://pastie.io/documents");
            } else {
                url = args[2].clone();
            }
        }
        Ok(Options { filename, url, mode })
    }

    /// Whether `s` looks like an HTTP(S) URL, by the loose pattern
    /// `(https|http)://<word-chars>.<word-chars>`.
    pub fn is_url(s: &String) -> (r: bool)
        ensures
            r == url_shaped(s@),
    {
        let v = chars_of(s.as_str());
        url_shaped_check(&v)
    }
}

} // verus!
