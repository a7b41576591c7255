//! A retention engine for sensor history: a bounded ring buffer, a generic
//! accumulate-and-average capability, a multi-tier cascade reducer, and a
//! snapshot serializer that renders every retained sample as one JSON array.

pub mod average;
pub mod circular_buffer;
pub mod historic;
pub mod json_display;
pub mod sensor_data;

use vstd::prelude::*;
use vstd::string::*;

use crate::circular_buffer::CircularBuffer;
use crate::json_display::{chunk_chars, JsonDisplay};

verus! {

/// Appends one buffer's contents as a complete JSON array terminated by a
/// newline.
pub fn write_json<T: Copy + JsonDisplay>(cb: &CircularBuffer<T>, w: &mut String)
    requires
        cb.wf(),
    ensures
        final(w)@ == old(w)@ + "["@ + chunk_chars(cb@) + "]\n"@,
{
    w.append("[");
    cb.write_json_chunk(w);
    w.append("]\n");
    proof {
        assert(final(w)@ =~= old(w)@ + "["@ + chunk_chars(cb@) + "]\n"@);
    }
}

} // verus!
