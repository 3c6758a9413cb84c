use vstd::prelude::*;
use crate::error::context::{error_text, renderable, ErrorContext};
use crate::error::runtime_error::RuntimeError;
use crate::text::{decimal, push_char, push_decimal, push_str};

verus! {

/// A run-time error with the functions that were being run when it happened: each
/// function's name and the line it was at, innermost first.
#[derive(Debug)]
pub struct RuntimeErrorContext {
    context: ErrorContext<RuntimeError>,
    call_stack: Vec<(String, usize)>,
}

/// The backtrace lines for the frames `frames`, numbered from `first` on.
pub open spec fn backtrace(frames: Seq<(String, usize)>, first: nat) -> Seq<char>
    decreases frames.len(),
{
    if frames.len() == 0 {
        Seq::empty()
    } else {
        "    "@ + decimal(first) + ": "@ + frames[0].0@ + "\n"@ + "        at line "@ + decimal(frames[0].1 as nat) + "\n"@
            + backtrace(frames.skip(1), first + 1)
    }
}

impl RuntimeErrorContext {
    /// The located error.
    pub closed spec fn located(&self) -> ErrorContext<RuntimeError> {
        self.context
    }

    /// The frames that were being run, innermost first.
    pub closed spec fn frames(&self) -> Seq<(String, usize)> {
        self.call_stack@
    }

    pub fn new(context: ErrorContext<RuntimeError>, call_stack: Vec<(String, usize)>) -> (c: Self)
        ensures
            c.located() == context,
            c.frames() == call_stack@,
    {
        RuntimeErrorContext { context, call_stack }
    }

    /// Renders the error, whose own text is `error_text`, against the source `str`,
    /// followed by a stack backtrace: one entry per frame, numbered from 0, with the
    /// function's name and line.
    pub fn format(&self, error_text_of: &str, str: Vec<char>) -> (r: String)
        requires
            renderable(self.located().span_type, str@.len()),
            self.frames().len() < usize::MAX,
        ensures
            r@ == error_text(error_text_of@, self.located().span_type, str@) + "\n"@ + "\nstack backtrace:\n"@
                + backtrace(self.frames(), 0),
    {
        let mut res = self.context.format(error_text_of, str);
        let ghost head = res@;
        push_char(&mut res, '\n');
        push_str(&mut res, "\nstack backtrace:\n");
        let ghost prefix = res@;
        proof {
            reveal_strlit("\n");
            assert(prefix =~= head + "\n"@ + "\nstack backtrace:\n"@);
            assert(self.frames().skip(0) =~= self.frames());
        }
        let mut index: usize = 0;
        while index < self.call_stack.len()
            invariant
                index <= self.frames().len(),
                self.frames().len() < usize::MAX,
                res@ + backtrace(self.frames().skip(index as int), index as nat) == prefix + backtrace(self.frames(), 0),
            decreases self.frames().len() - index,
        {
            let ghost before = res@;
            let name = &self.call_stack[index].0;
            let line = self.call_stack[index].1;
            push_str(&mut res, "    ");
            push_decimal(&mut res, index);
            push_str(&mut res, ": ");
            push_str(&mut res, name.as_str());
            push_str(&mut res, "\n");
            push_str(&mut res, "        at line ");
            push_decimal(&mut res, line);
            push_str(&mut res, "\n");
            proof {
                let fs = self.frames().skip(index as int);
                assert(fs[0] == self.frames()[index as int]);
                assert(fs.skip(1) == self.frames().skip(index + 1));
                assert(res@ == before + ("    "@ + decimal(index as nat) + ": "@ + fs[0].0@ + "\n"@
                    + "        at line "@ + decimal(fs[0].1 as nat) + "\n"@));
                assert(backtrace(fs, index as nat) == "    "@ + decimal(index as nat) + ": "@ + fs[0].0@ + "\n"@
                    + "        at line "@ + decimal(fs[0].1 as nat) + "\n"@ + backtrace(fs.skip(1), (index + 1) as nat));
                assert(before + backtrace(fs, index as nat) == res@ + backtrace(fs.skip(1), (index + 1) as nat));
            }
            index += 1;
        }
        assert(self.frames().skip(index as int).len() == 0);
        assert(res@ + backtrace(self.frames().skip(index as int), index as nat) == res@);
        res
    }
}

} // verus!
