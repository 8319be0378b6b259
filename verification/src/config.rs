//! The locations that the store is opened with. Each is set once, at
//! startup, and only read from then on.

use crate::error::StoreError;
use crate::text::{copy_opt, opt_view};
use vstd::prelude::*;

verus! {

/// The configuration of one installation.
#[derive(Debug)]
pub struct Config {
    resource_dir: Option<Option<String>>,
    database_path: Option<String>,
}

/// The mathematical value of a [`Config`]. A location that was never set
/// is `None`; the resource directory may have been set to none.
pub struct ConfigView {
    pub resource_dir: Option<Option<Seq<char>>>,
    pub database_path: Option<Seq<char>>,
}

impl View for Config {
    type V = ConfigView;

    closed spec fn view(&self) -> ConfigView {
        ConfigView {
            resource_dir: match self.resource_dir {
                Some(d) => Some(opt_view(d)),
                None => None,
            },
            database_path: opt_view(self.database_path),
        }
    }
}

impl Config {
    /// A configuration in which nothing is set.
    pub fn new() -> (c: Config)
        ensures
            c@.resource_dir is None,
            c@.database_path is None,
    {
        Config { resource_dir: None, database_path: None }
    }

    /// The resource directory, where one was set.
    pub fn resource_dir(&self) -> (r: Option<String>)
        ensures
            opt_view(r) == match self@.resource_dir {
                Some(d) => d,
                None => None,
            },
    {
        match &self.resource_dir {
            Some(d) => copy_opt(d),
            None => None,
        }
    }

    /// The path of the database, once it was resolved.
    pub fn database_path(&self) -> (r: Option<String>)
        ensures
            opt_view(r) == self@.database_path,
    {
        copy_opt(&self.database_path)
    }
}

/// Sets the resource directory. Only the first call counts: once the
/// directory is set, even to none, later calls change nothing.
pub fn set_resource_dir(config: &mut Config, dir: Option<String>)
    ensures
        final(config)@.resource_dir == if old(config)@.resource_dir is Some {
            old(config)@.resource_dir
        } else {
            Some(opt_view(dir))
        },
        final(config)@.database_path == old(config)@.database_path,
{
    if config.resource_dir.is_none() {
        config.resource_dir = Some(dir);
    }
}

/// The path of the database: the one that was resolved before, else the
/// one from the environment, else the default location.
pub open spec fn resolved_path(
    known: Option<Seq<char>>,
    from_environment: Option<Seq<char>>,
    default_location: Option<Seq<char>>,
) -> Option<Seq<char>> {
    if known is Some {
        known
    } else if from_environment is Some {
        from_environment
    } else {
        default_location
    }
}

/// Resolves the path of the database and remembers it.
///
/// A path that was resolved before stays. Otherwise the path that the
/// environment names wins over the default location in the user's data
/// directory. Where neither is there the path cannot be resolved, and
/// nothing is remembered.
pub fn get_db_path(
    config: &mut Config,
    from_environment: Option<String>,
    default_location: Option<String>,
) -> (r: Result<String, StoreError>)
    ensures
        final(config)@.resource_dir == old(config)@.resource_dir,
        final(config)@.database_path == resolved_path(
            old(config)@.database_path,
            opt_view(from_environment),
            opt_view(default_location),
        ),
        match r {
            Ok(path) => final(config)@.database_path == Some(path@),
            Err(e) => final(config)@.database_path is None && e == StoreError::NoDataDirectory,
        },
{
    if let Some(path) = &config.database_path {
        return Ok(path.clone());
    }
    let path = match from_environment {
        Some(p) => p,
        None => match default_location {
            Some(p) => p,
            None => return Err(StoreError::NoDataDirectory),
        },
    };
    config.database_path = Some(path.clone());
    Ok(path)
}

} // verus!
