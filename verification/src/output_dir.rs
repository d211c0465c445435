//! The directory that generated log files are written into.
//!
//! Paths are modelled as plain strings: a directory is the string of
//! its path, and a file inside it is the directory, a slash, and the
//! file's name.  Creating the directory on disk, and choosing its
//! timestamped name, is the surrounding program's business; this module
//! only computes the paths.

use vstd::prelude::*;
use vstd::string::StrSliceExecFns;
use vstd::string::StringExecFns;

verus! {

/// A directory that output files are placed in.
#[derive(Debug, Clone)]
pub struct OutputDir {
    /// The directory's path.
    dir: String,
}

/// `name` without its extension: everything up to the last dot, except
/// that a dot at the very start (a hidden file) is no extension.
/// `name` is a single path component, not a path.
pub open spec fn file_stem(name: Seq<char>) -> Seq<char> {
    match name.index_of_last('.') {
        Some(i) => if i >= 1 {
            name.take(i)
        } else {
            name
        },
        None => name,
    }
}

/// The path of the log file for `name` inside `dir`: the name's
/// extension, if any, is replaced by `.log`.
pub open spec fn log_file_path(dir: Seq<char>, name: Seq<char>) -> Seq<char> {
    dir + "/"@ + file_stem(name) + ".log"@
}

impl OutputDir {
    /// The directory's path.
    pub closed spec fn dir(&self) -> Seq<char> {
        self.dir@
    }

    /// Wraps an already-created directory path.
    pub fn new(dir: String) -> (d: OutputDir)
        ensures
            d.dir() == dir@,
    {
        OutputDir { dir }
    }

    /// The path of the `.log` file for `name` inside this directory.
    pub fn file_with_name(&self, name: &str) -> (r: String)
        ensures
            r@ == log_file_path(self.dir(), name@),
    {
        let mut out = self.dir.as_str().to_owned();
        out.append("/");
        let n: usize = name.unicode_len();
        // Scan from the end for the last dot.
        let mut i: usize = n;
        let mut dot: usize = 0;
        let mut found = false;
        while i > 0 && !found
            invariant
                n == name@.len(),
                i <= n,
                !found ==> forall|j: int| i <= j < n ==> name@[j] != '.',
                found ==> i < n && name@[i as int] == '.' && dot == i && forall|j: int|
                    i < j < n ==> name@[j] != '.',
            decreases i,
        {
            i -= 1;
            if name.get_char(i) == '.' {
                dot = i;
                found = true;
            }
        }
        proof {
            name@.index_of_last_ensures('.');
            if found {
                match name@.index_of_last('.') {
                    Some(k) => {
                        assert(name@[k] == '.');
                        assert(k == dot as int);
                    },
                    None => {
                        assert(false);
                    },
                }
            } else {
                match name@.index_of_last('.') {
                    Some(k) => {
                        assert(name@[k] == '.');
                        assert(false);
                    },
                    None => {},
                }
            }
        }
        if found && dot >= 1 {
            out.append(name.substring_char(0, dot));
        } else {
            out.append(name);
        }
        out.append(".log");
        out
    }
}

} // verus!
