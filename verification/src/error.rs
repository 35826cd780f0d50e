//! Error reports: an error's message followed by the messages of its causes.

use vstd::prelude::*;

verus! {

/// An error, read as its message followed by the messages of its causes,
/// outermost first.
#[derive(Debug)]
pub struct ErrorReport {
    chain: Vec<String>,
}

/// Locking a shared registry failed because another user of it panicked.
#[derive(Debug)]
pub struct MutexLockError;

/// The report of a chain of messages: the first message, then for each cause
/// a line `Caused by:` and the cause's message indented by four spaces.
pub open spec fn report_text(chain: Seq<Seq<char>>) -> Seq<char>
    decreases chain.len(),
{
    if chain.len() == 0 {
        Seq::empty()
    } else if chain.len() == 1 {
        chain[0]
    } else {
        report_text(chain.drop_last()) + "\nCaused by:"@ + "\n    "@ + chain.last()
    }
}

impl ErrorReport {
    /// The report of an error whose message, followed by those of its causes,
    /// outermost first, is `chain`.
    pub fn boxed_from(chain: Vec<String>) -> (r: ErrorReport)
        ensures
            r.messages() == chain@.map_values(|m: String| m@),
    {
        ErrorReport { chain }
    }

    /// The messages of the error and of its causes, outermost first.
    pub closed spec fn messages(&self) -> Seq<Seq<char>> {
        self.chain@.map_values(|m: String| m@)
    }

    /// The error's message followed, for each cause, by a line `Caused by:`
    /// and the cause's message indented by four spaces.
    pub fn build_report(&self) -> (text: String)
        ensures
            text@ == report_text(self.messages()),
    {
        let ghost ms = self.messages();
        if self.chain.len() == 0 {
            return String::new();
        }
        let mut message = self.chain[0].clone();
        assert(message@ == report_text(ms.subrange(0, 1))) by {
            assert(ms.subrange(0, 1).len() == 1);
        }
        let mut i: usize = 1;
        while i < self.chain.len()
            invariant
                ms == self.messages(),
                1 <= i <= self.chain.len(),
                message@ == report_text(ms.subrange(0, i as int)),
            decreases self.chain.len() - i,
        {
            message.append("\nCaused by:");
            message.append("\n    ");
            message.append(self.chain[i].as_str());
            assert(ms.subrange(0, i as int + 1).drop_last() =~= ms.subrange(0, i as int));
            assert(ms.subrange(0, i as int + 1).last() == self.chain@[i as int]@);
            i = i + 1;
        }
        assert(ms.subrange(0, self.chain.len() as int) =~= ms);
        message
    }
}

} // verus!
