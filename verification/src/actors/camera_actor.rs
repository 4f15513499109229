//! The actor in front of the camera: it starts the capture when it is told.

use crate::messages::control::{decode_state, decoded_state};
use crate::messages::protobuf_msg::{Envelope, ProtobufMsg};
use crate::messages::text::same_text;
use crate::wire::DecodeError;
use vstd::prelude::*;

verus! {

/// What the camera actor does after an envelope.
#[derive(Clone, Copy, Debug, PartialEq, Eq, Structural)]
pub enum CameraAction {
    /// Start the capture loop with the camera that was held.
    StartCapture,
    /// Nothing.
    Nothing,
}

/// What one envelope does to the camera actor: whether a camera is still
/// held after it, and what is done.
pub open spec fn camera_step(held: bool, msg: Envelope) -> Result<
    (bool, CameraAction),
    DecodeError,
> {
    if msg.identifier == "camera.state.set"@ {
        match decoded_state(msg.payload) {
            Ok(state) => if state && held {
                Ok((false, CameraAction::StartCapture))
            } else {
                Ok((held, CameraAction::Nothing))
            },
            Err(e) => Err(e),
        }
    } else {
        Ok((held, CameraAction::Nothing))
    }
}

/// The state of the camera actor: whether it holds a camera that has not
/// been started.
#[derive(Clone, Copy, Debug)]
pub struct CameraActor {
    camera: bool,
}

impl View for CameraActor {
    type V = bool;

    closed spec fn view(&self) -> bool {
        self.camera
    }
}

impl CameraActor {
    /// The actor, holding a camera or none.
    pub fn new(camera: bool) -> (actor: CameraActor)
        ensures
            actor@ == camera,
    {
        CameraActor { camera }
    }

    /// Whether a camera is held that has not been started.
    pub fn holds_camera(&self) -> (held: bool)
        ensures
            held == self@,
    {
        self.camera
    }

    /// The boolean that the payload `buf` holds.
    pub fn decode_state(buf: &[u8]) -> (r: Result<bool, DecodeError>)
        ensures
            r == decoded_state(buf@),
    {
        decode_state(buf)
    }

    /// Takes one envelope from the command bus. `camera.state.set` with
    /// `true` starts the capture if a camera is held, and the camera is
    /// then held no more; every other envelope does nothing. Where the
    /// payload of `camera.state.set` holds no boolean, the error is
    /// returned and nothing changes.
    pub fn handle(&mut self, msg: &ProtobufMsg) -> (r: Result<CameraAction, DecodeError>)
        ensures
            match r {
                Ok(action) => camera_step(old(self)@, msg@) == Ok::<
                    (bool, CameraAction),
                    DecodeError,
                >((final(self)@, action)),
                Err(e) => camera_step(old(self)@, msg@) == Err::<(bool, CameraAction), DecodeError>(
                    e,
                ) && final(self)@ == old(self)@,
            },
    {
        if same_text(msg.identifier.as_str(), "camera.state.set") {
            match decode_state(msg.payload.as_slice()) {
                Ok(state) => {
                    if state && self.camera {
                        self.camera = false;
                        Ok(CameraAction::StartCapture)
                    } else {
                        Ok(CameraAction::Nothing)
                    }
                },
                Err(e) => Err(e),
            }
        } else {
            Ok(CameraAction::Nothing)
        }
    }
}

} // verus!
