//! The actor that owns the capture and streaming toggles.

use crate::framework::outbox::{publications, Bus, Publication};
use crate::messages::control::{
    decode_state, decoded_state, encode_state, lemma_state_round_trip, state_bytes,
};
use crate::messages::protobuf_msg::{Envelope, ProtobufMsg};
use crate::messages::text::same_text;
use crate::wire::DecodeError;
use vstd::prelude::*;

verus! {

/// The two toggles.
pub struct Toggles {
    pub capture: bool,
    pub streaming: bool,
}

/// What one envelope does to the toggles: the toggles after it and what is
/// published, in order.
pub struct ToggleStep {
    pub toggles: Toggles,
    pub published: Seq<(Bus, Envelope)>,
}

/// The envelope with topic `identifier` that carries `state`.
pub open spec fn state_message(identifier: Seq<char>, state: bool) -> Envelope {
    Envelope { identifier, payload: state_bytes(state) }
}

/// The step of the toggle state machine on envelope `msg`, or the error
/// where `msg` asks to set a toggle and its payload holds no boolean.
pub open spec fn toggle_step(t: Toggles, msg: Envelope) -> Result<ToggleStep, DecodeError> {
    if msg.identifier == "state.capture.get"@ {
        Ok(
            ToggleStep {
                toggles: t,
                published: seq![(Bus::Event, state_message("state.capture"@, t.capture))],
            },
        )
    } else if msg.identifier == "state.capture.set"@ {
        match decoded_state(msg.payload) {
            Ok(state) => if state == t.capture {
                Ok(ToggleStep { toggles: t, published: Seq::empty() })
            } else {
                let cascade = if state {
                    seq![
                        (Bus::Command, state_message("session.state.set"@, true)),
                        (Bus::Command, state_message("camera.state.set"@, true)),
                    ]
                } else {
                    Seq::empty()
                };
                Ok(
                    ToggleStep {
                        toggles: Toggles { capture: state, streaming: t.streaming },
                        published: cascade + seq![
                            (Bus::Event, state_message("state.capture"@, state)),
                        ],
                    },
                )
            },
            Err(e) => Err(e),
        }
    } else if msg.identifier == "state.streaming.get"@ {
        Ok(
            ToggleStep {
                toggles: t,
                published: seq![(Bus::Event, state_message("state.streaming"@, t.streaming))],
            },
        )
    } else if msg.identifier == "state.streaming.set"@ {
        match decoded_state(msg.payload) {
            Ok(state) => Ok(
                ToggleStep {
                    toggles: Toggles { capture: t.capture, streaming: state },
                    published: seq![(Bus::Event, state_message("state.stream"@, state))],
                },
            ),
            Err(e) => Err(e),
        }
    } else {
        Ok(ToggleStep { toggles: t, published: Seq::empty() })
    }
}

/// The state of the actor: both toggles, off when the process starts.
#[derive(Clone, Copy, Debug)]
pub struct StateActor {
    capture_state: bool,
    streaming_state: bool,
}

impl View for StateActor {
    type V = Toggles;

    closed spec fn view(&self) -> Toggles {
        Toggles { capture: self.capture_state, streaming: self.streaming_state }
    }
}

impl StateActor {
    /// The actor with both toggles off.
    pub fn new() -> (actor: StateActor)
        ensures
            actor@ == (Toggles { capture: false, streaming: false }),
    {
        StateActor { capture_state: false, streaming_state: false }
    }

    /// Whether capture is on.
    pub fn capture_state(&self) -> (state: bool)
        ensures
            state == self@.capture,
    {
        self.capture_state
    }

    /// Whether streaming is on.
    pub fn streaming_state(&self) -> (state: bool)
        ensures
            state == self@.streaming,
    {
        self.streaming_state
    }

    /// The envelope with topic `identifier` that carries `state`.
    pub fn encode_state(identifier: &str, state: bool) -> (msg: ProtobufMsg)
        ensures
            msg@ == state_message(identifier@, state),
    {
        ProtobufMsg { identifier: identifier.to_owned(), payload: encode_state(state) }
    }

    /// The boolean that the payload `buf` holds.
    pub fn decode_state(buf: &[u8]) -> (r: Result<bool, DecodeError>)
        ensures
            r == decoded_state(buf@),
    {
        decode_state(buf)
    }

    /// Takes one envelope from the command bus: updates the toggles and
    /// returns what is to be published, in order. Where the envelope asks to
    /// set a toggle and its payload holds no boolean, the toggles stay as
    /// they are and the error is returned.
    pub fn handle(&mut self, msg: &ProtobufMsg) -> (r: Result<Vec<Publication>, DecodeError>)
        ensures
            match r {
                Ok(list) => toggle_step(old(self)@, msg@) == Ok::<ToggleStep, DecodeError>(
                    ToggleStep { toggles: final(self)@, published: publications(list@) },
                ),
                Err(e) => toggle_step(old(self)@, msg@) == Err::<ToggleStep, DecodeError>(e)
                    && final(self)@ == old(self)@,
            },
    {
        let mut list: Vec<Publication> = Vec::new();
        if same_text(msg.identifier.as_str(), "state.capture.get") {
            let event = Self::encode_state("state.capture", self.capture_state);
            list.push(Publication { bus: Bus::Event, message: event });
        } else if same_text(msg.identifier.as_str(), "state.capture.set") {
            let state = match decode_state(msg.payload.as_slice()) {
                Ok(state) => state,
                Err(e) => {
                    return Err(e);
                },
            };
            if state != self.capture_state {
                self.capture_state = state;
                if state {
                    let session = Self::encode_state("session.state.set", true);
                    list.push(Publication { bus: Bus::Command, message: session });
                    let camera = Self::encode_state("camera.state.set", true);
                    list.push(Publication { bus: Bus::Command, message: camera });
                }
                let event = Self::encode_state("state.capture", state);
                list.push(Publication { bus: Bus::Event, message: event });
            }
        } else if same_text(msg.identifier.as_str(), "state.streaming.get") {
            let event = Self::encode_state("state.streaming", self.streaming_state);
            list.push(Publication { bus: Bus::Event, message: event });
        } else if same_text(msg.identifier.as_str(), "state.streaming.set") {
            let state = match decode_state(msg.payload.as_slice()) {
                Ok(state) => state,
                Err(e) => {
                    return Err(e);
                },
            };
            self.streaming_state = state;
            let event = Self::encode_state("state.stream", state);
            list.push(Publication { bus: Bus::Event, message: event });
        }
        proof {
            let step = toggle_step(old(self)@, msg@);
            assert(step is Ok);
            assert(publications(list@) =~= step->Ok_0.published);
        }
        Ok(list)
    }
}

/// The envelope that asks to set the capture toggle to `state`.
pub open spec fn capture_set(state: bool) -> Envelope {
    state_message("state.capture.set"@, state)
}

/// What the first request to switch capture on publishes: the two commands
/// that start a session and the camera, then the new state.
pub open spec fn capture_cascade() -> Seq<(Bus, Envelope)> {
    seq![
        (Bus::Command, state_message("session.state.set"@, true)),
        (Bus::Command, state_message("camera.state.set"@, true)),
        (Bus::Event, state_message("state.capture"@, true)),
    ]
}

/// Toggle idempotence. A request to set capture to the value that it has
/// changes nothing and publishes nothing; so of two equal requests in a row
/// the second publishes nothing, whatever the first did. Where capture was
/// off, two requests to switch it on publish one cascade in all: the two
/// commands and one event, all from the first.
pub proof fn lemma_capture_set_idempotent(t: Toggles, state: bool)
    ensures
        toggle_step(t, capture_set(state)) is Ok,
        toggle_step(t, capture_set(state))->Ok_0.toggles == (Toggles {
            capture: state,
            streaming: t.streaming,
        }),
        toggle_step(toggle_step(t, capture_set(state))->Ok_0.toggles, capture_set(state)) == Ok::<
            ToggleStep,
            DecodeError,
        >(
            ToggleStep {
                toggles: Toggles { capture: state, streaming: t.streaming },
                published: Seq::empty(),
            },
        ),
        t.capture == state ==> toggle_step(t, capture_set(state))->Ok_0.published == Seq::<
            (Bus, Envelope),
        >::empty(),
        !t.capture && state ==> toggle_step(t, capture_set(state))->Ok_0.published
            == capture_cascade(),
{
    reveal_strlit("state.capture.get");
    reveal_strlit("state.capture.set");
    lemma_state_round_trip(state);
    let first = toggle_step(t, capture_set(state));
    assert("state.capture.set"@ != "state.capture.get"@) by {
        assert("state.capture.set"@[14] == 's');
        assert("state.capture.get"@[14] == 'g');
    }
    if !t.capture && state {
        assert(first->Ok_0.published =~= capture_cascade());
    }
}

} // verus!
