//! The diff engine: per-entity comparison functions, each a thin
//! instantiation of the keyed three-way split, producing a tree of diff
//! records that mirrors the document's shape. A diff node is present in
//! its parent only if something underneath it changed.

pub mod common;
pub mod content;
pub mod extensions;
pub mod info;
pub mod laws;
pub mod media_type;
pub mod operations;
pub mod parameter;
pub mod parameters;
pub mod path_items;
pub mod paths;
pub mod request_body;
pub mod response;
pub mod responses;
pub mod schema;
pub mod servers;

use vstd::prelude::*;

use crate::diff::common::StringDiff;
use crate::diff::info::info_differs;
use crate::diff::info::InfoDiff;
use crate::diff::paths::paths_differ;
use crate::diff::paths::paths_supported;
use crate::diff::paths::PathsDiff;
use crate::diff::servers::servers_differ;
use crate::diff::servers::ServersDiff;
use crate::openapi::document::OpenAPI;

verus! {

/// Everything that can go wrong while computing a diff. Constructs this
/// version cannot compare are reported as a recoverable error, never as a
/// process abort.
#[derive(Debug)]
pub enum DiffError {
    /// A construct this version cannot compare yet: a reference in place
    /// of a path item, response or schema, a content-based parameter, or
    /// two referenced parameters matched to each other. Carries a
    /// human-readable description naming the offending construct.
    UnsupportedFeature(String),
}

impl DiffError {
    /// The description of the error, for callers that render it.
    pub fn message(&self) -> (r: String)
        ensures
            r@ == "Unsupported feature: "@ + self.description(),
    {
        match self {
            DiffError::UnsupportedFeature(s) => {
                let m = String::new();
                let m = m.concat("Unsupported feature: ");
                m.concat(s.as_str())
            },
        }
    }

    pub open spec fn description(self) -> Seq<char> {
        match self {
            DiffError::UnsupportedFeature(s) => s@,
        }
    }
}

/// Builds the description of an unsupported construct: a fixed phrase
/// followed by the offending item (a reference string, a media type, a
/// parameter name).
pub fn unsupported(phrase: &str, what: &String) -> (r: DiffError)
    ensures
        r is UnsupportedFeature,
        r.description() == phrase@ + what@,
{
    let m = String::new();
    let m = m.concat(phrase);
    let m = m.concat(what.as_str());
    DiffError::UnsupportedFeature(m)
}

/// Two documents can be compared: every path item kept under its path can
/// be. Version, metadata and server comparisons never fail.
pub open spec fn document_pair_supported(a: OpenAPI, b: OpenAPI) -> bool {
    paths_supported(a.paths@, b.paths@)
}

/// The result tree of one comparison: one optional slot per top-level
/// aspect of the document, present exactly when that aspect changed.
#[derive(Debug)]
pub struct Diff {
    pub version: Option<StringDiff>,
    pub servers: Option<ServersDiff>,
    pub paths: Option<PathsDiff>,
    pub info: Option<InfoDiff>,
}

impl Diff {
    pub open spec fn is_diff_of(self, a: OpenAPI, b: OpenAPI) -> bool {
        &&& self.version == StringDiff::spec_from_strings(a.openapi, b.openapi)
        &&& (self.paths is Some <==> paths_differ(a.paths@, b.paths@))
        &&& match self.paths {
            Option::Some(p) => p.is_diff_of(a.paths@, b.paths@),
            Option::None => true,
        }
        &&& (self.info is Some <==> info_differs(a.info, b.info))
        &&& match self.info {
            Option::Some(i) => i.is_diff_of(a.info, b.info),
            Option::None => true,
        }
        &&& (self.servers is Some <==> servers_differ(a.servers@, b.servers@))
        &&& match self.servers {
            Option::Some(s) => s.is_diff_of(a.servers@, b.servers@),
            Option::None => true,
        }
    }

    pub open spec fn spec_has_changes(self) -> bool {
        self.version is Some || self.servers is Some || self.paths is Some || self.info is Some
    }

    pub fn has_changes(&self) -> (r: bool)
        ensures
            r == self.spec_has_changes(),
    {
        self.version.is_some() || self.servers.is_some() || self.paths.is_some()
            || self.info.is_some()
    }
}

/// Compares two documents and returns the change-tree: the version change,
/// and the path, metadata and server changes, each present only if that
/// aspect changed. Fails, recoverably, only on a construct this version
/// cannot compare.
pub fn diff(base: OpenAPI, head: OpenAPI) -> (r: Result<Diff, DiffError>)
    requires
        base.well_formed(),
        head.well_formed(),
    ensures
        match r {
            Result::Ok(d) => document_pair_supported(base, head) && d.is_diff_of(base, head),
            Result::Err(e) => !document_pair_supported(base, head) && e is UnsupportedFeature,
        },
{
    let OpenAPI { openapi: aver, info: ai, servers: asv, paths: ap, .. } = base;
    let OpenAPI { openapi: bver, info: bi, servers: bsv, paths: bp, .. } = head;

    let version = StringDiff::from_strings(aver, bver);

    let paths_diff = match PathsDiff::from_paths(ap, bp) {
        Result::Ok(p) => p,
        Result::Err(e) => {
            return Result::Err(e);
        },
    };
    let p_keep = paths_diff.has_changes();

    let info_diff = InfoDiff::from_info(ai, bi);
    let i_keep = info_diff.has_changes();

    let servers_diff = ServersDiff::from_servers(asv, bsv);
    let s_keep = servers_diff.has_changes();

    Result::Ok(
        Diff {
            version,
            servers: if s_keep {
                Option::Some(servers_diff)
            } else {
                Option::None
            },
            paths: if p_keep {
                Option::Some(paths_diff)
            } else {
                Option::None
            },
            info: if i_keep {
                Option::Some(info_diff)
            } else {
                Option::None
            },
        },
    )
}

} // verus!
