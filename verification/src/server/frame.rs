//! One protocol message: a header and the payload bytes that follow it.

use vstd::prelude::*;
use crate::protocol::header::Header;

verus! {

/// One protocol message.
#[derive(Debug, PartialEq, Eq)]
pub struct Frame {
    pub header: Header,
    pub payload: Vec<u8>,
}

/// A frame as a value: its header and the sequence of its payload bytes.
pub struct FrameView {
    pub header: Header,
    pub payload: Seq<u8>,
}

impl View for Frame {
    type V = FrameView;

    open spec fn view(&self) -> FrameView {
        FrameView { header: self.header, payload: self.payload@ }
    }
}

impl Frame {
    /// The header's length field is the number of payload bytes.
    pub open spec fn wf(&self) -> bool {
        self.header.payload_len == self.payload@.len()
    }
}

impl Clone for Frame {
    /// A copy with the same header and the same payload bytes.
    fn clone(&self) -> (copy: Frame)
        ensures
            copy@ == self@,
    {
        Frame { header: self.header, payload: self.payload.clone() }
    }
}

} // verus!
