//! Resolving the directory that answers a request.

use vstd::prelude::*;
use vstd::string::*;
use crate::config::{CounterfeitRunConfig, CounterfeitRunConfigView};
use crate::error::{result_view, ErrorKind, MapperError, MapperErrorView};
use crate::request::{Request, RequestView};
use crate::text::{strip_query, without_query};

verus! {

/// A way of mapping a request onto a directory.
pub trait DirPicker {
    /// Whether `request` may be mapped onto `directory`. A picker that says
    /// nothing of itself may map it onto any.
    open spec fn maps_to(&self, request: RequestView, directory: Seq<char>) -> bool {
        true
    }

    /// Whether the resolution may come to `picked`, given whether the
    /// candidate exists and is a directory.
    open spec fn pick_spec(
        &self,
        request: RequestView,
        is_directory: bool,
        picked: Result<Seq<char>, MapperErrorView>,
    ) -> bool {
        true
    }

    /// The directory that `request` is mapped onto, whether it exists or
    /// not.
    fn candidate_directory(&self, request: &Request) -> (directory: String)
        ensures
            self.maps_to(request@, directory@),
    ;

    /// Resolves the directory of `request`. `is_directory` tells whether
    /// the candidate exists and is a directory.
    fn pick_directory(&self, request: &Request, is_directory: bool) -> (picked: Result<String, MapperError>)
        ensures
            self.pick_spec(request@, is_directory, result_view(picked)),
    ;
}

/// The directory of the standard mapping: the base path, followed by the
/// path of the URL without its query.
pub open spec fn standard_directory(base_path: Seq<char>, request: RequestView) -> Seq<char> {
    base_path + without_query(request.path)
}

/// The error that reports a directory that does not exist.
pub open spec fn no_directory_error() -> MapperErrorView {
    MapperErrorView { kind: ErrorKind::NotFound, message: "Directory not found"@ }
}

/// The standard mapping: the base path, followed by the path of the URL.
/// The path is taken as it is: nothing keeps a request with `..` in its path
/// from leaving the base path.
pub struct StandardDirPicker {
    config: CounterfeitRunConfig,
}

impl View for StandardDirPicker {
    type V = CounterfeitRunConfigView;

    closed spec fn view(&self) -> CounterfeitRunConfigView {
        self.config@
    }
}

impl StandardDirPicker {
    /// A picker that maps below the base path of `config`.
    pub fn new(config: CounterfeitRunConfig) -> (picker: Self)
        ensures
            picker@ == config@,
    {
        StandardDirPicker { config }
    }
}

impl DirPicker for StandardDirPicker {
    open spec fn maps_to(&self, request: RequestView, directory: Seq<char>) -> bool {
        directory == standard_directory(self@.base_path, request)
    }

    open spec fn pick_spec(
        &self,
        request: RequestView,
        is_directory: bool,
        picked: Result<Seq<char>, MapperErrorView>,
    ) -> bool {
        picked == if is_directory {
            Ok::<Seq<char>, MapperErrorView>(standard_directory(self@.base_path, request))
        } else {
            Err(no_directory_error())
        }
    }

    fn candidate_directory(&self, request: &Request) -> (directory: String) {
        let mut directory = self.config.base_path.clone();
        let path = strip_query(request.path.as_str());
        directory.append(path.as_str());
        directory
    }

    fn pick_directory(&self, request: &Request, is_directory: bool) -> (picked: Result<String, MapperError>) {
        if is_directory {
            Ok(self.candidate_directory(request))
        } else {
            Err(MapperError::not_found("Directory not found"))
        }
    }
}

} // verus!
