//! Framing of control messages and the privacy rule for the runtime directory.
use vstd::prelude::*;

verus! {

/// Most bytes in one control frame.
pub const FRAME_LIMIT: usize = 16384;

/// Why a frame was refused.
#[derive(Debug, Clone, Copy, PartialEq, Eq, Structural)]
pub enum FrameError {
    TooLarge,
    Empty,
}

impl FrameError {
    /// The refusal as reported to the peer.
    pub fn message(&self) -> (r: String)
        ensures
            *self == FrameError::TooLarge ==> r@ == "IPC frame exceeds 16 KiB"@,
            *self == FrameError::Empty ==> r@ == "Empty IPC frame"@,
    {
        match self {
            FrameError::TooLarge => "IPC frame exceeds 16 KiB".to_owned(),
            FrameError::Empty => "Empty IPC frame".to_owned(),
        }
    }
}

/// The bytes of one frame as they arrive, up to the frame limit.
pub struct Frame {
    data: Vec<u8>,
}

impl Frame {
    /// The bytes received so far.
    pub closed spec fn bytes(&self) -> Seq<u8> {
        self.data@
    }

    /// An empty frame.
    pub fn new() -> (f: Frame)
        ensures
            f.bytes().len() == 0,
    {
        Frame { data: Vec::new() }
    }

    /// Adds the bytes of one read; refuses once the frame exceeds the limit.
    pub fn extend(&mut self, chunk: &[u8]) -> (r: Result<(), FrameError>)
        ensures
            final(self).bytes() == old(self).bytes() + chunk@,
            r is Ok <==> old(self).bytes().len() + chunk@.len() <= FRAME_LIMIT,
            r matches Err(e) ==> e == FrameError::TooLarge,
    {
        self.data.extend_from_slice(chunk);
        assert(self.data@ =~= old(self).data@ + chunk@);
        if self.data.len() > FRAME_LIMIT {
            Err(FrameError::TooLarge)
        } else {
            Ok(())
        }
    }

    /// The whole frame once the peer has finished sending: within the limit
    /// and not empty.
    pub fn finish(self) -> (r: Result<Vec<u8>, FrameError>)
        ensures
            self.bytes().len() > FRAME_LIMIT ==> r == Err::<Vec<u8>, FrameError>(FrameError::TooLarge),
            self.bytes().len() == 0 ==> r == Err::<Vec<u8>, FrameError>(FrameError::Empty),
            0 < self.bytes().len() <= FRAME_LIMIT ==> (r matches Ok(v) && v@ == self.bytes()),
    {
        if self.data.len() > FRAME_LIMIT {
            return Err(FrameError::TooLarge);
        }
        if self.data.len() == 0 {
            return Err(FrameError::Empty);
        }
        Ok(self.data)
    }
}

/// Whether a runtime directory may hold the control socket: an absolute path
/// to a directory owned by the user, with no access for group or others.
pub open spec fn private_dir(absolute: bool, is_dir: bool, owner: u32, uid: u32, mode: u32) -> bool {
    absolute && is_dir && owner == uid && mode & 0o077 == 0
}

/// Whether a runtime directory may hold the control socket.
pub fn is_private_dir(absolute: bool, is_dir: bool, owner: u32, uid: u32, mode: u32) -> (r: bool)
    ensures
        r == private_dir(absolute, is_dir, owner, uid, mode),
{
    absolute && is_dir && owner == uid && mode & 0o077 == 0
}

} // verus!
