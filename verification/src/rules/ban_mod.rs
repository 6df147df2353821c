//! The check that bans `mod.rs` module files: a file whose path contains the
//! reserved module filename gets exactly one simple diagnostic naming it,
//! whatever the file holds.

use vstd::prelude::*;

use crate::error::{Diagnostic, Emitter};
use crate::rules::NodeRule;
use crate::strutil::{contains_seq, find_last, last_pos, lemma_last_pos, str_contains};
use crate::tree::Tree;

verus! {

/// The path separator and reserved module filename this check reads.
pub open spec fn ban_mod_needle() -> Seq<char> {
    "mod.rs"@
}

/// The message of the diagnostic.
pub open spec fn ban_mod_msg() -> Seq<char> {
    "Module files (mod.rs) are banned."@
}

/// The path with its last `/`-separated segment removed; empty when there
/// is no separator.  Paths are treated plainly as `/`-separated text.
pub open spec fn parent_dir(s: Seq<char>) -> Seq<char> {
    if last_pos(s, '/') < 0 {
        s.take(0)
    } else {
        s.take(last_pos(s, '/'))
    }
}

/// The path with its extension replaced by `rs`: everything after the last
/// `.` of the last segment is dropped, then `.rs` is appended.  An empty
/// path stays empty.
pub open spec fn with_rs_ext(s: Seq<char>) -> Seq<char> {
    if s.len() == 0 {
        s
    } else if last_pos(s, '.') > last_pos(s, '/') {
        s.take(last_pos(s, '.')) + ".rs"@
    } else {
        s + ".rs"@
    }
}

/// What the one diagnostic of this check looks like: a simple diagnostic
/// with the fixed message, the offending path as its file, and the
/// suggested rename.
pub open spec fn simple_ban_for(d: Diagnostic, path: Seq<char>) -> bool {
    &&& d matches Diagnostic::Simple(e)
    &&& (d matches Diagnostic::Simple(e) ==> {
        &&& e.msg@ == ban_mod_msg()
        &&& e.file@ == path
        &&& e.sugg@ == ban_mod_sugg(path)
    })
}

/// The suggestion the check emits for an offending `path`.
pub open spec fn ban_mod_sugg(path: Seq<char>) -> Seq<char> {
    "create a `"@ + with_rs_ext(parent_dir(path)) + "` file and `"@ + parent_dir(path)
        + "` folder and remove `"@ + path + "`"@
}

/// The path with its last `/`-separated segment removed.
fn parent_dir_of(path: &str) -> (r: String)
    ensures
        r@ == parent_dir(path@),
{
    proof {
        lemma_last_pos(path@, '/');
    }
    match find_last(path, '/') {
        Some(j) => path.substring_char(0, j).to_owned(),
        None => path.substring_char(0, 0).to_owned(),
    }
}

/// The path with its extension replaced by `rs`.
fn with_rs_ext_of(path: &str) -> (r: String)
    ensures
        r@ == with_rs_ext(path@),
{
    proof {
        lemma_last_pos(path@, '.');
        lemma_last_pos(path@, '/');
    }
    if path.unicode_len() == 0 {
        return path.to_owned();
    }
    let dot = find_last(path, '.');
    let slash = find_last(path, '/');
    let cut = match (dot, slash) {
        (Some(d), Some(sl)) => if d > sl {
            Some(d)
        } else {
            None
        },
        (Some(d), None) => Some(d),
        _ => None,
    };
    let mut r = match cut {
        Some(d) => path.substring_char(0, d).to_owned(),
        None => path.to_owned(),
    };
    r.append(".rs");
    r
}

/// Bans module files named `mod.rs`.
pub struct BanMod {
    accumulated: Ghost<nat>,
}

impl BanMod {
    /// How many nodes this check has been applied to.
    pub closed spec fn calls(&self) -> nat {
        self.accumulated@
    }

    /// A fresh instance, applied to nothing yet.
    pub fn new() -> (r: Box<Self>)
        ensures
            r.calls() == 0,
    {
        Box::new(BanMod { accumulated: Ghost(0) })
    }
}

impl Default for BanMod {
    /// A fresh instance, applied to nothing yet.
    fn default() -> (r: BanMod)
        ensures
            r.calls() == 0,
    {
        BanMod { accumulated: Ghost(0) }
    }
}

impl NodeRule for BanMod {
    /// `validate` needs nothing of the tree.
    open spec fn pre(&self, t: &Tree) -> bool {
        true
    }

    fn name(&self) -> (r: &'static str)
        ensures
            r@ == ban_mod_msg(),
    {
        "Module files (mod.rs) are banned."
    }

    fn apply_rule(&mut self, t: &Tree, i: usize)
        ensures
            final(self).calls() == old(self).calls() + 1,
    {
        proof {
            self.accumulated@ = self.accumulated@ + 1;
        }
    }

    fn match_node(&self, t: &Tree, i: usize) -> (r: bool)
        ensures
            r == false,
    {
        false
    }

    fn validate(&self, t: &Tree, path: &str, emitter: &mut Emitter) -> (r: Result<(), String>)
        ensures
            r.is_ok(),
            contains_seq(path@, ban_mod_needle()) ==> {
                &&& final(emitter)@.len() == old(emitter)@.len() + 1
                &&& final(emitter)@.subrange(0, old(emitter)@.len() as int) == old(emitter)@
                &&& simple_ban_for(final(emitter)@[old(emitter)@.len() as int], path@)
            },
            !contains_seq(path@, ban_mod_needle()) ==> final(emitter)@ == old(emitter)@,
    {
        if str_contains(path, "mod.rs") {
            let folder = parent_dir_of(path);
            let file = with_rs_ext_of(folder.as_str());
            let mut sugg = String::new();
            sugg.append("create a `");
            sugg.append(file.as_str());
            sugg.append("` file and `");
            sugg.append(folder.as_str());
            sugg.append("` folder and remove `");
            sugg.append(path);
            sugg.append("`");
            proof {
                assert(sugg@ =~= ban_mod_sugg(path@));
            }
            emitter.simple_sugg(self.name(), sugg.as_str(), path);
            proof {
                assert(final(emitter)@.subrange(0, old(emitter)@.len() as int) =~= old(
                    emitter,
                )@);
            }
        }
        Ok(())
    }
}

} // verus!
