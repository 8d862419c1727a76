//! Where the metadata of an extracted wheel lies.
use crate::error::{IoError, IoErrorKind};
use crate::text;
use vstd::prelude::*;
use vstd::string::*;

verus! {

/// Something in a directory.
#[derive(Debug, Clone, PartialEq, Eq)]
pub struct DirEntry {
    /// Its name.
    pub name: String,
    /// Whether it is a directory itself.
    pub is_dir: bool,
}

/// A `<name>-<version>.dist-info` directory.
pub open spec fn is_dist_info(entry: DirEntry) -> bool {
    entry.is_dir && ".dist-info"@.is_suffix_of(entry.name@)
}

/// A place in a listing that holds a `.dist-info` directory.
pub open spec fn holds_dist_info(listing: Seq<Result<DirEntry, IoError>>, i: int) -> bool {
    listing[i] matches Ok(entry) && is_dist_info(entry)
}

/// A place where looking through a listing stops: at something that cannot be
/// read, or at a second `.dist-info` directory.
pub open spec fn stops_at(listing: Seq<Result<DirEntry, IoError>>, i: int) -> bool {
    ||| listing[i] is Err
    ||| holds_dist_info(listing, i) && exists|j: int|
        0 <= j < i && #[trigger] holds_dist_info(listing, j)
}

/// The first place where looking through a listing stops.
pub open spec fn stops_first_at(listing: Seq<Result<DirEntry, IoError>>, i: int) -> bool {
    &&& 0 <= i < listing.len()
    &&& stops_at(listing, i)
    &&& forall|j: int| 0 <= j < i ==> !#[trigger] stops_at(listing, j)
}

/// What comes of looking through a listing: the only `.dist-info` directory, or
/// the first thing that stops the search, or the failure that there is none.
pub open spec fn is_found(
    listing: Seq<Result<DirEntry, IoError>>,
    found: Result<usize, IoError>,
) -> bool {
    match found {
        Ok(i) => {
            &&& i < listing.len()
            &&& holds_dist_info(listing, i as int)
            &&& forall|j: int|
                0 <= j < listing.len() && j != i ==> (#[trigger] listing[j]) is Ok
                    && !holds_dist_info(listing, j)
        },
        Err(e) => {
            ||| e.says(
                IoErrorKind::NotFound,
                "could not find a '*.dist-info' directory in wheel archive"@,
            ) && forall|j: int|
                0 <= j < listing.len() ==> (#[trigger] listing[j]) is Ok && !holds_dist_info(
                    listing,
                    j,
                )
            ||| exists|k: int|
                #![trigger stops_first_at(listing, k)]
                stops_first_at(listing, k) && match listing[k] {
                    Err(cause) => e.says(cause.kind, cause.message@),
                    Ok(_) => e.says(
                        IoErrorKind::InvalidData,
                        "found multiple '*.dist-info' directories in wheel archive"@,
                    ),
                }
        },
    }
}

/// Finds the `.dist-info` directory among what lies directly in the directory
/// of an extracted wheel. There has to be exactly one.
pub fn find_dist_info_dir(listing: &Vec<Result<DirEntry, IoError>>) -> (found: Result<
    usize,
    IoError,
>)
    ensures
        match found {
            Ok(i) => {
                &&& i < listing@.len()
                &&& holds_dist_info(listing@, i as int)
                &&& forall|j: int|
                    0 <= j < listing@.len() && j != i ==> (#[trigger] listing@[j]) is Ok
                        && !holds_dist_info(listing@, j)
            },
            Err(e) => {
                ||| e.says(
                    IoErrorKind::NotFound,
                    "could not find a '*.dist-info' directory in wheel archive"@,
                ) && forall|j: int|
                    0 <= j < listing@.len() ==> (#[trigger] listing@[j]) is Ok && !holds_dist_info(
                        listing@,
                        j,
                    )
                ||| exists|k: int|
                    #![trigger stops_first_at(listing@, k)]
                    stops_first_at(listing@, k) && match listing@[k] {
                        Err(cause) => e.says(cause.kind, cause.message@),
                        Ok(_) => e.says(
                            IoErrorKind::InvalidData,
                            "found multiple '*.dist-info' directories in wheel archive"@,
                        ),
                    }
            },
        },
        is_found(listing@, found),
{
    let mut found: Option<usize> = None;
    for i in 0..listing.len()
        invariant
            match found {
                Some(k) => k < i && holds_dist_info(listing@, k as int) && forall|j: int|
                    0 <= j < i && j != k ==> !#[trigger] holds_dist_info(listing@, j),
                None => forall|j: int| 0 <= j < i ==> !#[trigger] holds_dist_info(listing@, j),
            },
            forall|j: int| 0 <= j < i ==> (#[trigger] listing@[j]) is Ok,
    {
        proof {
            assert forall|j: int| 0 <= j < i implies !#[trigger] stops_at(listing@, j) by {
                assert(listing@[j] is Ok);
            }
        }
        match &listing[i] {
            Ok(entry) => {
                let name = text::to_chars(entry.name.as_str());
                if entry.is_dir && text::ends_with(name.as_slice(), ".dist-info") {
                    assert(holds_dist_info(listing@, i as int));
                    if found.is_some() {
                        assert(stops_first_at(listing@, i as int));
                        return Err(
                            IoError::new(
                                IoErrorKind::InvalidData,
                                "found multiple '*.dist-info' directories in wheel archive",
                            ),
                        );
                    }
                    found = Some(i);
                }
            },
            Err(cause) => {
                assert(stops_first_at(listing@, i as int));
                return Err(IoError::new(cause.kind, cause.message.as_str()));
            },
        }
    }
    match found {
        Some(i) => Ok(i),
        None => Err(
            IoError::new(
                IoErrorKind::NotFound,
                "could not find a '*.dist-info' directory in wheel archive",
            ),
        ),
    }
}

} // verus!
