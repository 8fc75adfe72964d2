//! Resolution of a selected expression handle back to the literal source
//! text it was parsed from, via the span table recorded at parse time.

use vstd::prelude::*;

use crate::model::{Function, Handle, Span};

verus! {

/// The span recorded for `h` in the owning function's span table.
pub open spec fn span_of(f: Function, h: Handle) -> Span {
    f.spans@[h.index as int]
}

/// Whether `h` can be resolved against source text of `len` bytes: the
/// handle is present in the span table and its recorded half-open range lies
/// within the text. Anything else is a contract violation by the caller.
pub open spec fn handle_resolvable(f: Function, h: Handle, len: nat) -> bool {
    &&& h.index < f.spans@.len()
    &&& span_of(f, h).start <= span_of(f, h).end
    &&& span_of(f, h).end <= len
}

/// The bytes of the source text delimited by the span recorded for `h`.
pub open spec fn resolved_text(source: Seq<u8>, f: Function, h: Handle) -> Seq<u8> {
    source.subrange(span_of(f, h).start as int, span_of(f, h).end as int)
}

/// Return the literal source substring the expression behind `handle` was
/// parsed from: the bytes of `source` delimited by the handle's recorded
/// span. Pure and allocation-free. The source must be the exact text the
/// program was parsed from; the precondition rules out a handle that the
/// span table cannot resolve.
pub fn write_expression<'a>(source: &'a [u8], function: &Function, handle: Handle) -> (r: &'a [u8])
    requires
        handle_resolvable(*function, handle, source@.len()),
    ensures
        r@ == resolved_text(source@, *function, handle),
{
    let span = function.spans[handle.index];
    vstd::slice::slice_subrange(source, span.start, span.end)
}

/// Span round-trip: the resolved substring is byte-identical to the span's
/// slice of the original source — byte for byte, whitespace included — never
/// a re-rendering of the expression.
pub proof fn lemma_span_round_trip(source: Seq<u8>, f: Function, h: Handle)
    requires
        handle_resolvable(f, h, source.len()),
    ensures
        resolved_text(source, f, h).len() == span_of(f, h).end - span_of(f, h).start,
        forall|k: int|
            0 <= k < resolved_text(source, f, h).len() ==> resolved_text(source, f, h)[k]
                == source[span_of(f, h).start + k],
{
}

} // verus!
