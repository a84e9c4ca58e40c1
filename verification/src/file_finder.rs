//! Counting the lines of a file's content.

use vstd::prelude::*;

verus! {

/// A place to look for files.
#[derive(Debug)]
pub struct FileFinder {
    pub path: Option<String>,
}

/// How many of the first `upto` bytes of `content` are line feeds.
pub open spec fn line_feeds(content: Seq<u8>, upto: int) -> nat
    decreases upto,
{
    if upto <= 0 {
        0
    } else {
        line_feeds(content, upto - 1) + if content[upto - 1] == 0x0a {
            1nat
        } else {
            0nat
        }
    }
}

/// How many lines `content` has: one for each line feed, and one more for
/// what follows the last line feed, if anything does.
pub open spec fn line_count(content: Seq<u8>) -> nat {
    line_feeds(content, content.len() as int) + if content.len() > 0 && content.last() != 0x0a {
        1nat
    } else {
        0nat
    }
}

/// No more line feeds than bytes.
proof fn lemma_line_feeds_bounded(content: Seq<u8>, upto: int)
    requires
        0 <= upto,
    ensures
        line_feeds(content, upto) <= upto,
    decreases upto,
{
    if upto > 0 {
        lemma_line_feeds_bounded(content, upto - 1);
    }
}

impl FileFinder {
    /// Counts the lines of `content`.
    pub fn count_lines(&self, content: &[u8]) -> (lines: usize)
        ensures
            lines == line_count(content@),
    {
        let mut feeds: usize = 0;
        let mut at: usize = 0;
        while at < content.len()
            invariant
                at <= content.len(),
                feeds == line_feeds(content@, at as int),
                feeds <= at,
            decreases content.len() - at,
        {
            if content[at] == 0x0a {
                feeds += 1;
            }
            at += 1;
        }
        if content.len() > 0 && content[content.len() - 1] != 0x0a {
            proof {
                lemma_line_feeds_bounded(content@, content.len() - 1);
            }
            feeds + 1
        } else {
            feeds
        }
    }
}

} // verus!
