//! The sources of a component: a document or a style sheet with where and when it was read.
use vstd::prelude::*;
use std::path::PathBuf;
use std::time::SystemTime;
use crate::html::Binder;

verus! {

/// `std::time::SystemTime`, carried through as an opaque value.
#[verifier::external_type_specification]
#[verifier::external_body]
pub struct ExSystemTime(std::time::SystemTime);

/// `std::path::PathBuf`, carried through as an opaque value.
#[verifier::external_type_specification]
#[verifier::external_body]
pub struct ExPathBuf(std::path::PathBuf);

/// The time now, from `SystemTime::now`; the contract claims nothing of the value, which
/// depends on the clock.
#[verifier::external_body]
fn now() -> SystemTime {
    SystemTime::now()
}

/// Content read from a file, or given in place, with the time it was read.
pub struct Source<T> {
    path: Option<PathBuf>,
    modified: SystemTime,
    content: T,
}

impl<T> Source<T> {
    pub closed spec fn spec_content(&self) -> T {
        self.content
    }

    pub closed spec fn has_path(&self) -> bool {
        self.path is Some
    }

    pub closed spec fn spec_path(&self) -> Option<PathBuf> {
        self.path
    }

    pub closed spec fn spec_modified(&self) -> SystemTime {
        self.modified
    }

    /// Content given in place: no file, read now.
    pub fn from_content(content: T) -> (s: Self)
        ensures
            s.spec_content() == content,
            !s.has_path(),
            s.spec_path() is None,
    {
        Source { path: None, modified: now(), content }
    }

    /// Content read from the file at `path`, last modified at `modified`.
    pub fn from_read(path: PathBuf, modified: SystemTime, content: T) -> (s: Self)
        ensures
            s.spec_content() == content,
            s.has_path(),
            s.spec_path() == Some(path),
            s.spec_modified() == modified,
    {
        Source { path: Some(path), modified, content }
    }

    pub fn content(&self) -> (r: &T)
        ensures
            *r == self.spec_content(),
    {
        &self.content
    }

    pub fn path(&self) -> (r: Option<&PathBuf>)
        ensures
            r is Some == self.has_path(),
            match r {
                Some(p) => self.spec_path() == Some(*p),
                None => self.spec_path() is None,
            },
    {
        match &self.path {
            Some(p) => Some(p),
            None => None,
        }
    }

    pub fn modified(&self) -> (r: &SystemTime)
        ensures
            *r == self.spec_modified(),
    {
        &self.modified
    }
}

/// An event handler named in markup: the function to call and the binder of its argument.
#[derive(Debug)]
pub struct Handler {
    pub function: String,
    pub argument: Binder,
}

impl Clone for Handler {
    fn clone(&self) -> (r: Self)
        ensures
            r.function@ == self.function@,
            r.argument@ == self.argument@,
    {
        Handler { function: self.function.clone(), argument: self.argument.clone() }
    }
}

} // verus!
