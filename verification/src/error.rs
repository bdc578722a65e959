//! Errors raised while building game resources from their definitions.
use vstd::prelude::*;

verus! {

/// Why a resource could not be built.
#[derive(Debug, PartialEq, Eq)]
pub enum ResourceError {
    /// The resource `id` of the given kind (such as `"tile"`) could not be created.
    UnableToCreate { kind: String, id: String },
    /// A point of the given kind (such as `"impass"`) does not hold exactly two coordinates.
    PointLength { kind: String },
    /// A point of the given kind lies outside a tile of the given size.
    PointOutOfBounds { kind: String, width: usize, height: usize },
}

/// A [`ResourceError`] with its strings taken by their views.
pub enum ResourceErrorView {
    UnableToCreate { kind: Seq<char>, id: Seq<char> },
    PointLength { kind: Seq<char> },
    PointOutOfBounds { kind: Seq<char>, width: usize, height: usize },
}

impl View for ResourceError {
    type V = ResourceErrorView;

    open spec fn view(&self) -> ResourceErrorView {
        match self {
            ResourceError::UnableToCreate { kind, id } => ResourceErrorView::UnableToCreate {
                kind: kind@,
                id: id@,
            },
            ResourceError::PointLength { kind } => ResourceErrorView::PointLength { kind: kind@ },
            ResourceError::PointOutOfBounds { kind, width, height } =>
                ResourceErrorView::PointOutOfBounds { kind: kind@, width: *width, height: *height },
        }
    }
}

/// The error for a resource `id` of the given kind that could not be created.
pub fn unable_to_create_error(kind: &str, id: &String) -> (e: ResourceError)
    ensures
        e@ == (ResourceErrorView::UnableToCreate { kind: kind@, id: id@ }),
{
    ResourceError::UnableToCreate { kind: kind.to_owned(), id: id.clone() }
}

} // verus!
