//! The Judge API's routes for the card files: each is served when its file
//! is configured and exists, and otherwise answers why not.
use vstd::prelude::*;

verus! {

/// The data files the API serves.
#[derive(Debug, Clone, Copy, PartialEq, Eq, Structural)]
pub enum DataFile {
    Cards,
    RiftboundCards,
}

/// How a data file's route answers.
#[derive(Debug, Clone, Copy)]
pub enum FileRoute {
    /// Serve the file.
    Serve,
    /// Answer with this HTTP status and message.
    Unavailable { status: u16, message: &'static str },
}

pub open spec fn file_route_spec(file: DataFile, configured: bool, exists: bool) -> FileRoute {
    if configured && exists {
        FileRoute::Serve
    } else if configured {
        FileRoute::Unavailable {
            status: 503,
            message: match file {
                DataFile::Cards => "cards file not found",
                DataFile::RiftboundCards => "riftbound cards file not found",
            },
        }
    } else {
        FileRoute::Unavailable {
            status: 404,
            message: match file {
                DataFile::Cards => "cards file not configured",
                DataFile::RiftboundCards => "riftbound cards file not configured",
            },
        }
    }
}

/// The route of a data file: served when a path is configured and the file
/// exists; 503 when the configured file is missing; 404 when none is configured.
pub fn file_route(file: DataFile, configured: bool, exists: bool) -> (r: FileRoute)
    ensures
        r == file_route_spec(file, configured, exists),
{
    if configured && exists {
        FileRoute::Serve
    } else if configured {
        FileRoute::Unavailable {
            status: 503,
            message: match file {
                DataFile::Cards => "cards file not found",
                DataFile::RiftboundCards => "riftbound cards file not found",
            },
        }
    } else {
        FileRoute::Unavailable {
            status: 404,
            message: match file {
                DataFile::Cards => "cards file not configured",
                DataFile::RiftboundCards => "riftbound cards file not configured",
            },
        }
    }
}

/// The version the API reports: the configured one, else "unknown".
pub fn reported_version(configured: Option<String>) -> (r: String)
    ensures
        r@ == (match configured { Some(v) => v@, None => "unknown"@ }),
{
    match configured {
        Some(v) => v,
        None => "unknown".to_owned(),
    }
}

} // verus!
