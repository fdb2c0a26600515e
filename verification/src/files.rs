//! Places in the file system, and what reading a file came to.
//!
//! Nothing here touches a disk. Where a file lives is decided from the
//! environment's answers, which a caller hands in; what it means that a file is
//! missing, unreadable or garbled is decided by the module that owns the file.

use vstd::prelude::*;
use vstd::string::*;

use crate::text;

verus! {

/// A path: a place to start from, and the names to follow from there.
///
/// The names are kept apart so that nothing here depends on how a platform
/// separates them. For the same reason a base is never taken apart: where
/// `beside` holds, the first of the names stands in place of the base's own last
/// name, which makes it the base's neighbour.
#[derive(Debug, Clone)]
pub struct FilePath {
    pub base: String,
    pub beside: bool,
    pub names: Vec<String>,
}

/// A path as a value.
#[verifier::ext_equal]
pub struct FilePathView {
    pub base: Seq<char>,
    pub beside: bool,
    pub names: Seq<Seq<char>>,
}

impl View for FilePath {
    type V = FilePathView;

    open spec fn view(&self) -> FilePathView {
        FilePathView { base: self.base@, beside: self.beside, names: text::texts(self.names@) }
    }
}

impl FilePathView {
    /// The place itself.
    pub open spec fn start(base: Seq<char>) -> FilePathView {
        FilePathView { base, beside: false, names: seq![] }
    }

    /// The same place, one name further on.
    pub open spec fn joined(self, name: Seq<char>) -> FilePathView {
        FilePathView {
            base: self.base,
            beside: self.beside && self.names.len() > 0,
            names: self.names.push(name),
        }
    }

    /// The file `name` in the directory that this path's own file is in: the
    /// last name gives way to it, or, where there is none, the base's own.
    pub open spec fn with_file_name(self, name: Seq<char>) -> FilePathView {
        if self.names.len() > 0 {
            FilePathView {
                base: self.base,
                beside: self.beside,
                names: self.names.drop_last().push(name),
            }
        } else {
            FilePathView { base: self.base, beside: true, names: seq![name] }
        }
    }
}

impl FilePath {
    /// The place itself.
    pub fn at(base: String) -> (res: FilePath)
        ensures
            res@ == FilePathView::start(base@),
    {
        let res = FilePath { base, beside: false, names: Vec::new() };
        assert(res@.names == Seq::<Seq<char>>::empty());
        res
    }

    /// The same place, one name further on.
    pub fn join(self, name: &str) -> (res: FilePath)
        ensures
            res@ == self@.joined(name@),
    {
        let ghost before = self@.names;
        let FilePath { base, beside, names } = self;
        let beside = beside && names.len() > 0;
        let mut names = names;
        names.push(name.to_owned());
        let res = FilePath { base, beside, names };
        assert(res@.names == before.push(name@));
        res
    }

    /// The file `name` in the directory that this path's own file is in.
    pub fn with_file_name(self, name: &str) -> (res: FilePath)
        ensures
            res@ == self@.with_file_name(name@),
    {
        let ghost before = self@.names;
        let FilePath { base, beside, names } = self;
        let beside = beside || names.len() == 0;
        let mut names = names;
        let _ = names.pop();
        names.push(name.to_owned());
        let res = FilePath { base, beside, names };
        assert(res@.names == if before.len() > 0 {
            before.drop_last().push(name@)
        } else {
            seq![name@]
        });
        res
    }

    /// A copy of this path.
    pub fn copy(&self) -> (res: FilePath)
        ensures
            res@ == self@,
    {
        FilePath {
            base: self.base.clone(),
            beside: self.beside,
            names: text::copy_texts(&self.names),
        }
    }
}

/// There is no place to keep something.
#[derive(Debug, Clone, Copy, PartialEq, Eq, Structural)]
pub enum NoPlace {
    /// Nowhere for this tool's configuration.
    Config,
    /// Nowhere that `pnm` would keep its own.
    Pnm,
    /// Nowhere for this tool's sessions.
    Sessions,
}

impl NoPlace {
    /// What a person is told.
    pub open spec fn message(self) -> Seq<char> {
        match self {
            NoPlace::Config => "no config directory; set VTA_AGENT_MEMORY_CONFIG"@,
            NoPlace::Pnm => "HOME is not set; set PNM_CONFIG_DIR"@,
            NoPlace::Sessions => "could not determine the user config directory"@,
        }
    }

    /// What a person is told.
    pub fn to_string(&self) -> (res: String)
        ensures
            res@ == self.message(),
    {
        let said: &'static str = match self {
            NoPlace::Config => "no config directory; set VTA_AGENT_MEMORY_CONFIG",
            NoPlace::Pnm => "HOME is not set; set PNM_CONFIG_DIR",
            NoPlace::Sessions => "could not determine the user config directory",
        };
        said.to_owned()
    }
}

/// Where the environment says something is: a variable that is set and not
/// empty.
pub open spec fn is_named(var: Option<String>) -> bool {
    var matches Some(s) && s@.len() > 0
}

/// The place an environment variable names, where it is set and not empty.
pub fn named_place(var: Option<String>) -> (res: Option<FilePath>)
    ensures
        res is Some <==> is_named(var),
        res matches Some(p) ==> p@ == FilePathView::start(var->Some_0@),
{
    match var {
        Some(s) => if s.as_str().is_empty() {
            None
        } else {
            Some(FilePath::at(s))
        },
        None => None,
    }
}

/// What reading a file came to.
#[derive(Debug, Clone)]
pub enum FileRead<T> {
    /// There is no such file; the text says so in the system's words.
    Missing(String),
    /// The file could not be read, for the reason given.
    Unreadable(String),
    /// The file was read, and does not hold what it should.
    Garbled(String),
    /// What the file holds.
    Parsed(T),
}

} // verus!
