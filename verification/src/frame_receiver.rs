//! Receiver of raw LED-matrix frames sent over the Bluetooth serial link.
//!
//! A frame is the byte `#`, then the frame bytes, then the byte `?`. The
//! first byte after `#` is always taken as data. Frame bytes fill a buffer of
//! 192 bytes from the start; once it is full, every further byte overwrites
//! the last slot. Bytes that arrive outside a frame are ignored.
//!
//! The receiver is a state machine: the firmware reads a byte from the serial
//! port, hands it to [`FrameReceiver::step`] and performs the action that
//! comes back (switch the link LED on, or show the completed frame).

use vstd::prelude::*;

verus! {

/// Byte that opens a frame.
pub const FRAME_START: u8 = 35;

/// Byte that closes a frame.
pub const FRAME_END: u8 = 63;

/// Number of bytes of a frame buffer.
pub const FRAME_LEN: usize = 192;

/// Where the receiver stands in the byte stream.
#[derive(PartialEq, Eq, Structural, Clone, Copy, Debug)]
pub enum Phase {
    /// Waiting for the start of a frame.
    Idle,
    /// The start byte arrived; the next byte is the first of the frame.
    AwaitingFirst,
    /// Inside a frame.
    Collecting,
}

/// The frame receiver: its phase, the frame buffer, and the slot of the
/// last byte stored.
pub struct FrameReceiver {
    phase: Phase,
    buffer: [u8; 192],
    index: usize,
}

/// What the firmware has to do after a byte.
#[derive(Debug)]
pub enum ReceiverAction {
    /// Nothing.
    Nothing,
    /// A frame starts: switch the link LED on.
    FrameStarted,
    /// The frame is complete: switch the link LED off and show these bytes.
    FrameComplete([u8; 192]),
}

/// Mathematical model of the receiver.
pub struct ReceiverModel {
    pub phase: Phase,
    pub buffer: Seq<u8>,
    pub index: int,
}

/// Mathematical model of an action.
pub enum ActionModel {
    Nothing,
    FrameStarted,
    FrameComplete(Seq<u8>),
}

impl View for FrameReceiver {
    type V = ReceiverModel;

    closed spec fn view(&self) -> ReceiverModel {
        ReceiverModel { phase: self.phase, buffer: self.buffer@, index: self.index as int }
    }
}

impl ReceiverAction {
    /// The model of this action.
    pub open spec fn model(&self) -> ActionModel {
        match self {
            ReceiverAction::Nothing => ActionModel::Nothing,
            ReceiverAction::FrameStarted => ActionModel::FrameStarted,
            ReceiverAction::FrameComplete(frame) => ActionModel::FrameComplete(frame@),
        }
    }
}

/// A buffer of 192 zero bytes.
pub open spec fn empty_frame() -> Seq<u8> {
    Seq::new(192, |k: int| 0u8)
}

/// Well-formed receiver models: a full-size buffer and a slot inside it.
pub open spec fn model_wf(s: ReceiverModel) -> bool {
    s.buffer.len() == 192 && 0 <= s.index < 192
}

/// One step of the receiver on one byte: the new state and the action.
pub open spec fn step_model(s: ReceiverModel, byte: u8) -> (ReceiverModel, ActionModel) {
    match s.phase {
        Phase::Idle => {
            if byte == FRAME_START {
                (ReceiverModel { phase: Phase::AwaitingFirst, ..s }, ActionModel::FrameStarted)
            } else {
                (s, ActionModel::Nothing)
            }
        },
        Phase::AwaitingFirst => (
            ReceiverModel {
                phase: Phase::Collecting,
                buffer: empty_frame().update(0, byte),
                index: 0,
            },
            ActionModel::Nothing,
        ),
        Phase::Collecting => {
            let next = if s.index < 191 { s.index + 1 } else { s.index };
            if byte != FRAME_END {
                (
                    ReceiverModel {
                        phase: Phase::Collecting,
                        buffer: s.buffer.update(next, byte),
                        index: next,
                    },
                    ActionModel::Nothing,
                )
            } else {
                (
                    ReceiverModel { phase: Phase::Idle, buffer: s.buffer, index: next },
                    ActionModel::FrameComplete(s.buffer),
                )
            }
        },
    }
}

impl FrameReceiver {
    #[verifier::type_invariant]
    spec fn well_formed(self) -> bool {
        self.index < 192
    }

    /// A receiver waiting for the first frame.
    pub fn new() -> (r: FrameReceiver)
        ensures
            r@ == (ReceiverModel { phase: Phase::Idle, buffer: empty_frame(), index: 0 }),
            model_wf(r@),
    {
        let r = FrameReceiver { phase: Phase::Idle, buffer: [0u8; 192], index: 0 };
        assert(r@.buffer =~= empty_frame());
        r
    }

    /// Feeds one byte read from the serial port.
    pub fn step(&mut self, byte: u8) -> (action: ReceiverAction)
        ensures
            (final(self)@, action.model()) == step_model(old(self)@, byte),
            model_wf(old(self)@),
            model_wf(final(self)@),
    {
        proof {
            use_type_invariant(&*self);
        }
        match self.phase {
            Phase::Idle => {
                if byte == FRAME_START {
                    self.phase = Phase::AwaitingFirst;
                    ReceiverAction::FrameStarted
                } else {
                    ReceiverAction::Nothing
                }
            },
            Phase::AwaitingFirst => {
                let mut buffer = [0u8; 192];
                buffer[0] = byte;
                self.buffer = buffer;
                self.index = 0;
                self.phase = Phase::Collecting;
                assert(self@.buffer =~= empty_frame().update(0, byte));
                ReceiverAction::Nothing
            },
            Phase::Collecting => {
                if self.index < 191 {
                    self.index = self.index + 1;
                }
                if byte != FRAME_END {
                    let i = self.index;
                    let mut buffer = self.buffer;
                    buffer[i] = byte;
                    self.buffer = buffer;
                    ReceiverAction::Nothing
                } else {
                    self.phase = Phase::Idle;
                    ReceiverAction::FrameComplete(self.buffer)
                }
            },
        }
    }
}


/// The receiver run over a sequence of bytes: the final state and the action
/// taken after each byte.
pub open spec fn run(s: ReceiverModel, bytes: Seq<u8>) -> (ReceiverModel, Seq<ActionModel>)
    decreases bytes.len(),
{
    if bytes.len() == 0 {
        (s, Seq::empty())
    } else {
        let (next, action) = step_model(s, bytes[0]);
        let (last, actions) = run(next, bytes.drop_first());
        (last, seq![action] + actions)
    }
}

/// The buffer that a frame with the bytes `payload` leaves: the bytes from
/// the start, zeros after them, and in the last slot the last byte once the
/// payload fills the buffer.
pub open spec fn frame_of(payload: Seq<u8>) -> Seq<u8> {
    Seq::new(
        192,
        |k: int|
            if k < 191 {
                if k < payload.len() {
                    payload[k]
                } else {
                    0u8
                }
            } else if payload.len() >= 192 {
                payload.last()
            } else {
                0u8
            },
    )
}

/// The payloads a frame can carry: at least one byte, and no end byte after
/// the first one.
pub open spec fn valid_payload(payload: Seq<u8>) -> bool {
    payload.len() >= 1 && forall|k: int| 1 <= k < payload.len() ==> payload[k] != FRAME_END
}

/// A sequence of `n` `Nothing` actions.
pub open spec fn nothing_actions(n: nat) -> Seq<ActionModel> {
    Seq::new(n, |k: int| ActionModel::Nothing)
}

/// The receiver inside a frame after the first `m` payload bytes.
pub open spec fn collecting_after(payload: Seq<u8>, m: int) -> ReceiverModel {
    ReceiverModel {
        phase: Phase::Collecting,
        buffer: frame_of(payload.take(m)),
        index: if m - 1 < 191 { m - 1 } else { 191 },
    }
}

proof fn lemma_run_cons(s: ReceiverModel, bytes: Seq<u8>)
    requires
        bytes.len() > 0,
    ensures
        run(s, bytes).0 == run(step_model(s, bytes[0]).0, bytes.drop_first()).0,
        run(s, bytes).1 == seq![step_model(s, bytes[0]).1] + run(
            step_model(s, bytes[0]).0,
            bytes.drop_first(),
        ).1,
{
}

proof fn lemma_collect(payload: Seq<u8>, m: int)
    requires
        valid_payload(payload),
        1 <= m <= payload.len(),
    ensures
        run(collecting_after(payload, m), payload.skip(m) + seq![FRAME_END]).0.phase
            == Phase::Idle,
        run(collecting_after(payload, m), payload.skip(m) + seq![FRAME_END]).1 == nothing_actions(
            (payload.len() - m) as nat,
        ) + seq![ActionModel::FrameComplete(frame_of(payload))],
    decreases payload.len() - m,
{
    let s = collecting_after(payload, m);
    let rest = payload.skip(m) + seq![FRAME_END];
    lemma_run_cons(s, rest);
    if m == payload.len() {
        assert(payload.take(m) =~= payload);
        assert(rest =~= seq![FRAME_END]);
        assert(rest.drop_first() =~= Seq::<u8>::empty());
        let n = step_model(s, FRAME_END).0;
        assert(run(n, Seq::<u8>::empty()).1 =~= Seq::<ActionModel>::empty());
        assert(nothing_actions(0) + seq![ActionModel::FrameComplete(frame_of(payload))]
            =~= seq![ActionModel::FrameComplete(frame_of(payload))]);
    } else {
        lemma_collect(payload, m + 1);
        assert(rest[0] == payload[m]);
        assert(rest.drop_first() =~= payload.skip(m + 1) + seq![FRAME_END]);
        let next = if m - 1 < 191 { m } else { 191 };
        assert(frame_of(payload.take(m)).update(next, payload[m]) =~= frame_of(
            payload.take(m + 1),
        ));
        assert(step_model(s, payload[m]).0 == collecting_after(payload, m + 1));
        assert(seq![ActionModel::Nothing] + (nothing_actions((payload.len() - m - 1) as nat)
            + seq![ActionModel::FrameComplete(frame_of(payload))]) =~= nothing_actions(
            (payload.len() - m) as nat,
        ) + seq![ActionModel::FrameComplete(frame_of(payload))]);
    }
}

/// From any idle state, a frame `#`, payload, `?` starts a frame, leaves the
/// receiver idle again, and completes with the buffer `frame_of(payload)`;
/// every byte in between takes no action.
pub proof fn lemma_frame_round_trip(s: ReceiverModel, payload: Seq<u8>)
    requires
        model_wf(s),
        s.phase == Phase::Idle,
        valid_payload(payload),
    ensures
        run(s, seq![FRAME_START] + payload + seq![FRAME_END]).0.phase == Phase::Idle,
        run(s, seq![FRAME_START] + payload + seq![FRAME_END]).1 == seq![ActionModel::FrameStarted]
            + nothing_actions(payload.len()) + seq![
            ActionModel::FrameComplete(frame_of(payload)),
        ],
{
    let bytes = seq![FRAME_START] + payload + seq![FRAME_END];
    lemma_run_cons(s, bytes);
    let s1 = step_model(s, FRAME_START).0;
    let after_start = bytes.drop_first();
    assert(after_start =~= payload + seq![FRAME_END]);
    lemma_run_cons(s1, after_start);
    let s2 = step_model(s1, payload[0]).0;
    assert(after_start.drop_first() =~= payload.skip(1) + seq![FRAME_END]);
    assert(frame_of(payload.take(1)) =~= empty_frame().update(0, payload[0]));
    assert(s2 == collecting_after(payload, 1));
    lemma_collect(payload, 1);
    assert(seq![ActionModel::Nothing] + (nothing_actions((payload.len() - 1) as nat) + seq![
        ActionModel::FrameComplete(frame_of(payload)),
    ]) =~= nothing_actions(payload.len()) + seq![ActionModel::FrameComplete(frame_of(payload))]);
    assert(run(s, bytes).1 =~= seq![ActionModel::FrameStarted] + (nothing_actions(payload.len())
        + seq![ActionModel::FrameComplete(frame_of(payload))]));
}

/// While idle, bytes without a start byte change nothing and take no action.
pub proof fn lemma_idle_ignores_noise(s: ReceiverModel, bytes: Seq<u8>)
    requires
        s.phase == Phase::Idle,
        forall|k: int| 0 <= k < bytes.len() ==> bytes[k] != FRAME_START,
    ensures
        run(s, bytes).0 == s,
        run(s, bytes).1 == nothing_actions(bytes.len()),
    decreases bytes.len(),
{
    if bytes.len() > 0 {
        lemma_run_cons(s, bytes);
        lemma_idle_ignores_noise(s, bytes.drop_first());
        assert(seq![ActionModel::Nothing] + nothing_actions((bytes.len() - 1) as nat)
            =~= nothing_actions(bytes.len()));
    }
}

} // verus!
