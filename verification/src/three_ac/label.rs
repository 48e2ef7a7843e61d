use crate::text::dec_int;
use crate::text::push_int;
use vstd::prelude::*;

verus! {

/// A place in the instruction stream that a jump, a branch or a call can
/// name.
#[derive(Clone, Copy, Debug, PartialEq, Eq, Structural)]
pub enum Label {
    /// The entry of the function with this identity.
    FunctionHead(i32),
    /// The exit of the function with this identity.
    FunctionTail(i32),
    /// Where a condition that fails branches to.
    BlockBranch(u32),
    /// Where the end of a branch, or of a loop's body, jumps to.
    BlockJump(u32),
}

impl Label {
    /// The name of the label in assembly.
    pub open spec fn text(self) -> Seq<char> {
        match self {
            Label::FunctionHead(n) => "func_"@ + dec_int(n as int),
            Label::FunctionTail(n) => "func_tail_"@ + dec_int(n as int),
            Label::BlockBranch(n) => "branch_"@ + dec_int(n as int),
            Label::BlockJump(n) => "jump_"@ + dec_int(n as int),
        }
    }

    /// Appends the name of the label.
    pub fn push_to(&self, s: &mut String)
        ensures
            final(s)@ == old(s)@ + self.text(),
    {
        match self {
            Label::FunctionHead(n) => {
                s.append("func_");
                push_int(s, *n as i64);
            },
            Label::FunctionTail(n) => {
                s.append("func_tail_");
                push_int(s, *n as i64);
            },
            Label::BlockBranch(n) => {
                s.append("branch_");
                push_int(s, *n as i64);
            },
            Label::BlockJump(n) => {
                s.append("jump_");
                push_int(s, *n as i64);
            },
        }
        assert(final(s)@ =~= old(s)@ + self.text());
    }

    /// The name of the label in assembly.
    pub fn to_text(&self) -> (s: String)
        ensures
            s@ == self.text(),
    {
        let mut s = String::new();
        self.push_to(&mut s);
        assert(s@ =~= self.text());
        s
    }
}

} // verus!
