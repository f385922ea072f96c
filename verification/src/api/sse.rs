//! The frames that the event streams carry.
use crate::text::{decimal, push_decimal};
use vstd::prelude::*;
use vstd::string::StringExecFns;

verus! {

/// The frame that carries a message to an event stream: `data: {msg}` and a blank line.
pub fn sse_data_frame(msg: &str) -> (f: String)
    ensures
        f@ == "data: "@ + msg@ + "\n\n"@,
{
    let mut f = "data: ".to_string();
    f.append(msg);
    f.append("\n\n");
    f
}

/// The frames of the test stream: `data: 1` to `data: 10`.
pub fn counter_frames() -> (frames: Vec<String>)
    ensures
        frames@.len() == 10,
        forall|i: int| 0 <= i < 10 ==> #[trigger] frames@[i]@ == "data: "@ + decimal(i + 1) + "\n\n"@,
{
    let mut frames: Vec<String> = Vec::new();
    let mut i: i64 = 1;
    while i <= 10
        invariant
            1 <= i <= 11,
            frames@.len() == i - 1,
            forall|j: int| 0 <= j < i - 1 ==> #[trigger] frames@[j]@ == "data: "@ + decimal(j + 1) + "\n\n"@,
        decreases 11 - i,
    {
        let mut f = "data: ".to_string();
        push_decimal(&mut f, i);
        f.append("\n\n");
        frames.push(f);
        i = i + 1;
    }
    frames
}

} // verus!
