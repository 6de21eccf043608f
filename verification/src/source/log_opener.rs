//! Streams that replay a script, in the place of container logs.

use crate::source::{LogEvent, LogSourceError};
use vstd::prelude::*;

verus! {

/// Hands out one script for each stream that is opened.
pub struct ScriptLogSourceOpener {
    scripts: Vec<Vec<Result<LogEvent, LogSourceError>>>,
}

impl ScriptLogSourceOpener {
    /// The scripts that were not handed out yet.
    pub closed spec fn left(&self) -> Seq<Vec<Result<LogEvent, LogSourceError>>> {
        self.scripts@
    }

    /// Hands out these scripts, in this order.
    pub fn new(scripts: Vec<Vec<Result<LogEvent, LogSourceError>>>) -> (opener: Self)
        ensures
            opener.left() == scripts@,
    {
        ScriptLogSourceOpener { scripts }
    }

    /// The items of the next stream. Once all scripts were handed out, streams are empty.
    pub fn open(&mut self) -> (script: Vec<Result<LogEvent, LogSourceError>>)
        ensures
            if old(self).left().len() == 0 {
                script@.len() == 0 && final(self).left() == old(self).left()
            } else {
                script == old(self).left()[0] && final(self).left() == old(self).left().skip(1)
            },
    {
        if self.scripts.len() == 0 {
            Vec::new()
        } else {
            let script = self.scripts.remove(0);
            assert(self.scripts@ =~= old(self).left().skip(1));
            script
        }
    }
}

} // verus!
