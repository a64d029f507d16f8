//! Context that block parsing hands to inline parsing and takes back.
use vstd::prelude::*;

verus! {

/// Block context flags used to define parser behavior of block element parsing.
#[derive(Debug, Clone, Copy, PartialEq, Eq, Structural)]
pub struct BlockContextFlags {
    /// Only escaped graphemes and logic elements are allowed besides plain content.
    pub logic_only: bool,
    /// Multiple contiguous whitespaces must not be combined.
    pub keep_whitespaces: bool,
    /// A newline must be explicitly kept, and not converted to one space.
    pub keep_newline: bool,
}

impl Default for BlockContextFlags {
    fn default() -> (r: Self)
        ensures
            r == (BlockContextFlags { logic_only: false, keep_whitespaces: false, keep_newline: false }),
    {
        BlockContextFlags { logic_only: false, keep_whitespaces: false, keep_newline: false }
    }
}

/// Block context that provides additional context to parser functions of block elements.
#[derive(Debug)]
pub struct BlockContext {
    /// Flags used to define parser behavior of block element parsing.
    pub flags: BlockContextFlags,
    /// Citations used in the Unimarkup content, in document flow.
    /// Every citation may contain one or more citation entry IDs.
    pub citations: Vec<Vec<String>>,
}

/// Flags of inline parsing.
#[derive(Debug, Clone, Copy, PartialEq, Eq, Structural)]
pub struct InlineContextFlags {
    /// Only escaped graphemes and logic elements are allowed besides plain content.
    pub logic_only: bool,
    /// Multiple contiguous whitespaces must not be combined.
    pub keep_whitespaces: bool,
    /// A newline must be explicitly kept.
    pub keep_newline: bool,
    /// Implicit substitutions are allowed.
    pub allow_implicits: bool,
}

/// Context of inline parsing: its flags and the citations it found.
#[derive(Debug)]
pub struct InlineContext {
    /// Flags of inline parsing.
    pub flags: InlineContextFlags,
    /// Citations found, in document flow.
    pub citations: Vec<Vec<String>>,
}

impl Default for BlockContext {
    fn default() -> (r: Self)
        ensures
            r.flags == (BlockContextFlags { logic_only: false, keep_whitespaces: false, keep_newline: false }),
            r.citations@.len() == 0,
    {
        BlockContext { flags: BlockContextFlags::default(), citations: Vec::new() }
    }
}

impl BlockContext {
    /// The inline context for parsing inlines of a block: the block flags carry over,
    /// implicit substitutions are allowed in logic-only mode, and no citation is known yet.
    pub fn inline_context(&self) -> (r: InlineContext)
        ensures
            r.flags == (InlineContextFlags {
                logic_only: self.flags.logic_only,
                keep_whitespaces: self.flags.keep_whitespaces,
                keep_newline: self.flags.keep_newline,
                allow_implicits: self.flags.logic_only,
            }),
            r.citations@.len() == 0,
    {
        InlineContext {
            flags: InlineContextFlags {
                logic_only: self.flags.logic_only,
                keep_whitespaces: self.flags.keep_whitespaces,
                keep_newline: self.flags.keep_newline,
                allow_implicits: self.flags.logic_only,
            },
            citations: Vec::new(),
        }
    }

    /// Updates the block context using the given inline context: the citations found in the
    /// inlines are appended. Flags only propagate from block to inline, not back.
    pub fn update_from(&mut self, inline_context: InlineContext)
        ensures
            final(self).flags == old(self).flags,
            final(self).citations@ == old(self).citations@ + inline_context.citations@,
    {
        let mut inline_context = inline_context;
        self.citations.append(&mut inline_context.citations);
    }
}

} // verus!
