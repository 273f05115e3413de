//! Finding the metadata files in the tablet's directory, and the document file beside each.
use vstd::prelude::*;
use vstd::string::StrSliceExecFns;

use crate::fuse_provider::tablet::Underlying;
use crate::text::{add_ext, document_path, path_of, strip_suffix, stripped, with_ext};

verus! {

/// The name of a metadata file without its suffix; `None` for any other directory entry.
pub open spec fn slug_of(file_name: Seq<char>, is_file: bool) -> Option<Seq<char>> {
    if is_file {
        stripped(file_name, ".metadata"@)
    } else {
        None
    }
}

/// The name of a metadata file without its suffix; `None` for any other directory entry.
pub fn metadata_slug(file_name: &str, is_file: bool) -> (r: Option<String>)
    ensures
        match r {
            Some(slug) => slug_of(file_name@, is_file) == Some(slug@),
            None => slug_of(file_name@, is_file) is None,
        },
{
    if is_file {
        strip_suffix(file_name, ".metadata")
    } else {
        None
    }
}

/// The path of an entry of the tablet's directory. A name that is an absolute path stands for
/// itself.
pub open spec fn entry_path(file_name: Seq<char>) -> Seq<char> {
    if file_name.len() > 0 && file_name[0] == '/' {
        file_name
    } else {
        path_of(file_name)
    }
}

/// The path of an entry of the tablet's directory.
pub fn listed_path(file_name: &str) -> (r: String)
    ensures
        r@ == entry_path(file_name@),
{
    if file_name.unicode_len() > 0 && file_name.get_char(0) == '/' {
        file_name.to_owned()
    } else {
        document_path(file_name)
    }
}

/// The next step in finding out which document file there is.
pub enum DetectStep {
    /// Ask whether the file `path` exists.
    Exists { kind: Underlying, path: String },
    /// Ask for the size of the file `path`.
    Size { kind: Underlying, path: String },
    /// The kind and size of the document file, if there is one.
    Done(Option<(Underlying, u64)>),
}

pub enum DetectStepView {
    Exists { kind: Underlying, path: Seq<char> },
    Size { kind: Underlying, path: Seq<char> },
    Done(Option<(Underlying, u64)>),
}

impl View for DetectStep {
    type V = DetectStepView;

    open spec fn view(&self) -> DetectStepView {
        match *self {
            DetectStep::Exists { kind, path } => DetectStepView::Exists { kind, path: path@ },
            DetectStep::Size { kind, path } => DetectStepView::Size { kind, path: path@ },
            DetectStep::Done(found) => DetectStepView::Done(found),
        }
    }
}

impl Underlying {
    /// The path of the document file of this kind that belongs to the asset `slug`.
    pub open spec fn path(self, slug: Seq<char>) -> Seq<char> {
        path_of(with_ext(slug, self.extension()))
    }

    fn document(&self, uuid_slug: &str) -> (r: String)
        ensures
            r@ == self.path(uuid_slug@),
    {
        document_path(add_ext(uuid_slug, self.ext()).as_str())
    }

    /// The first step: ask for the PDF.
    pub open spec fn first_step(slug: Seq<char>) -> DetectStepView {
        DetectStepView::Exists { kind: Underlying::Pdf, path: Underlying::Pdf.path(slug) }
    }

    /// The step after it was asked whether there is a document file of this kind.
    pub open spec fn step_after_exists(
        self,
        slug: Seq<char>,
        exists_there: bool,
    ) -> DetectStepView {
        if exists_there {
            DetectStepView::Size { kind: self, path: self.path(slug) }
        } else if self == Underlying::Pdf {
            DetectStepView::Exists { kind: Underlying::Epub, path: Underlying::Epub.path(slug) }
        } else {
            DetectStepView::Done(None)
        }
    }

    /// The step after the size of the document file of this kind was asked for. A file without
    /// a size counts as none.
    pub open spec fn step_after_size(self, size: Option<u64>) -> DetectStepView {
        DetectStepView::Done(
            match size {
                Some(n) => Some((self, n)),
                None => None,
            },
        )
    }

    /// Begins to find out which document file belongs to the asset `uuid_slug`.
    pub fn detect(uuid_slug: &str) -> (r: DetectStep)
        ensures
            r@ == Underlying::first_step(uuid_slug@),
    {
        DetectStep::Exists { kind: Underlying::Pdf, path: Underlying::Pdf.document(uuid_slug) }
    }

    /// Goes on after it was asked whether there is a document file of this kind.
    pub fn detect_exists(self, uuid_slug: &str, exists_there: bool) -> (r: DetectStep)
        ensures
            r@ == self.step_after_exists(uuid_slug@, exists_there),
    {
        if exists_there {
            DetectStep::Size { kind: self, path: self.document(uuid_slug) }
        } else {
            match self {
                Underlying::Pdf => DetectStep::Exists {
                    kind: Underlying::Epub,
                    path: Underlying::Epub.document(uuid_slug),
                },
                Underlying::Epub => DetectStep::Done(None),
            }
        }
    }

    /// Goes on after the size of the document file of this kind was asked for.
    pub fn detect_size(self, size: Option<u64>) -> (r: DetectStep)
        ensures
            r@ == self.step_after_size(size),
    {
        match size {
            Some(n) => DetectStep::Done(Some((self, n))),
            None => DetectStep::Done(None),
        }
    }
}

/// What is found where `files` says of each path whether there is a file, and of what size.
pub open spec fn run_detect(
    step: DetectStepView,
    slug: Seq<char>,
    files: spec_fn(Seq<char>) -> Option<Option<u64>>,
    bound: nat,
) -> Option<(Underlying, u64)>
    decreases bound,
{
    if bound == 0 {
        None
    } else {
        match step {
            DetectStepView::Exists { kind, path } => run_detect(
                kind.step_after_exists(slug, files(path) is Some),
                slug,
                files,
                (bound - 1) as nat,
            ),
            DetectStepView::Size { kind, path } => run_detect(
                kind.step_after_size(files(path)->0),
                slug,
                files,
                (bound - 1) as nat,
            ),
            DetectStepView::Done(found) => found,
        }
    }
}

/// Four steps find the document file: the PDF if there is one, else the EPUB if there is one.
/// Where the file that is there has no size, none is found, even if there is one of the other
/// kind.
pub proof fn pdf_goes_first(slug: Seq<char>, files: spec_fn(Seq<char>) -> Option<Option<u64>>)
    ensures
        run_detect(Underlying::first_step(slug), slug, files, 4) == match (
            files(Underlying::Pdf.path(slug)),
            files(Underlying::Epub.path(slug)),
        ) {
            (Some(Some(n)), _) => Some((Underlying::Pdf, n)),
            (Some(None), _) => None,
            (None, Some(Some(n))) => Some((Underlying::Epub, n)),
            _ => None,
        },
{
    reveal_with_fuel(run_detect, 5);
}

} // verus!
