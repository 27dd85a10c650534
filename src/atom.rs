//! ICCCM atoms and the encodings of the WM_PROTOCOLS and WM_STATE properties.
use vstd::prelude::*;

verus! {

/// An X window identifier.
pub type Window = u32;

/// An interned X atom.
pub type Atom = u32;

/// A client's WM_PROTOCOLS. The deprecated WM_SAVE_YOURSELF protocol is ignored.
#[derive(PartialEq, Eq, Structural, Clone, Copy, Debug, Hash)]
pub struct WmProtocols {
    /// Whether the client supports WM_TAKE_FOCUS.
    pub take_focus: bool,
    /// Whether the client supports WM_DELETE_WINDOW.
    pub delete_window: bool,
}

impl WmProtocols {
    /// The value used when the property is absent: no supported protocols.
    pub fn new() -> (r: WmProtocols)
        ensures
            !r.take_focus,
            !r.delete_window,
    {
        WmProtocols { take_focus: false, delete_window: false }
    }
}

/// Possible values of WM_STATE.state.
#[derive(PartialEq, Eq, Structural, Clone, Copy, Debug, Hash)]
pub enum WmStateState {
    Withdrawn,
    Normal,
    Iconic,
}

/// The wire value of a WM_STATE.state. The value 2 is unused by ICCCM.
pub open spec fn state_code(s: WmStateState) -> u32 {
    match s {
        WmStateState::Withdrawn => 0,
        WmStateState::Normal => 1,
        WmStateState::Iconic => 3,
    }
}

/// The state that a wire value stands for, if any.
pub open spec fn state_of_code(v: u32) -> Option<WmStateState> {
    if v == 0 {
        Some(WmStateState::Withdrawn)
    } else if v == 1 {
        Some(WmStateState::Normal)
    } else if v == 3 {
        Some(WmStateState::Iconic)
    } else {
        None
    }
}

impl WmStateState {
    /// The wire value of this state.
    pub fn code(self) -> (r: u32)
        ensures
            r == state_code(self),
    {
        match self {
            WmStateState::Withdrawn => 0,
            WmStateState::Normal => 1,
            WmStateState::Iconic => 3,
        }
    }

    /// Decode a wire value; every value but 0, 1 and 3 is rejected.
    pub fn from_code(v: u32) -> (r: Option<WmStateState>)
        ensures
            r == state_of_code(v),
    {
        if v == 0 {
            Some(WmStateState::Withdrawn)
        } else if v == 1 {
            Some(WmStateState::Normal)
        } else if v == 3 {
            Some(WmStateState::Iconic)
        } else {
            None
        }
    }
}

/// The contents of a WM_STATE property.
#[derive(PartialEq, Eq, Structural, Clone, Copy, Debug, Hash)]
pub struct WmState {
    /// The state that the window is in.
    pub state: WmStateState,
    /// The icon window that represents the client.
    pub icon: Window,
}

/// The two 32-bit words that encode a WM_STATE.
pub open spec fn wm_state_words(s: WmState) -> Seq<u32> {
    seq![state_code(s.state), s.icon]
}

/// The WM_STATE that a property payload decodes to: exactly two words, the
/// first a known state.
pub open spec fn wm_state_of_words(w: Seq<u32>) -> Option<WmState> {
    if w.len() == 2 && state_of_code(w[0]) is Some {
        Some(WmState { state: state_of_code(w[0])->Some_0, icon: w[1] })
    } else {
        None
    }
}

impl WmState {
    /// Encode as the two words of the property.
    pub fn to_words(self) -> (r: [u32; 2])
        ensures
            r@ == wm_state_words(self),
    {
        let r = [self.state.code(), self.icon];
        assert(r@ =~= wm_state_words(self));
        r
    }

    /// Decode a property payload.
    pub fn from_words(w: &[u32]) -> (r: Option<WmState>)
        ensures
            r == wm_state_of_words(w@),
    {
        if w.len() != 2 {
            return None;
        }
        match WmStateState::from_code(w[0]) {
            Some(state) => Some(WmState { state, icon: w[1] }),
            None => None,
        }
    }
}

/// Decoding an encoded WM_STATE gives it back, and the unused wire value 2
/// is not a state.
pub proof fn lemma_wm_state_round_trip(s: WmState)
    ensures
        wm_state_of_words(wm_state_words(s)) == Some(s),
        state_of_code(2) is None,
{
}

/// How an atom found in WM_PROTOCOLS is read.
#[derive(PartialEq, Eq, Structural, Clone, Copy, Debug)]
pub enum ProtocolAtom {
    /// WM_TAKE_FOCUS.
    TakeFocus,
    /// WM_SAVE_YOURSELF: recognised, deprecated, and ignored.
    SaveYourself,
    /// WM_DELETE_WINDOW.
    DeleteWindow,
    /// Anything else: ignored.
    Unknown,
}

/// A ClientMessage event to be sent to a client.
#[derive(PartialEq, Eq, Clone, Copy, Debug)]
pub struct ClientMessage {
    /// The window that receives the message.
    pub window: Window,
    /// The message type.
    pub message_type: Atom,
    /// The five 32-bit data words.
    pub data: [u32; 5],
}

/// The well-known atoms, interned once per connection.
#[derive(PartialEq, Eq, Structural, Clone, Copy, Debug)]
pub struct Atoms {
    /// WM_DELETE_WINDOW.
    pub wm_delete_window: Atom,
    /// WM_PROTOCOLS.
    pub wm_protocols: Atom,
    /// WM_SAVE_YOURSELF.
    pub wm_save_yourself: Atom,
    /// WM_STATE.
    pub wm_state: Atom,
    /// WM_TAKE_FOCUS.
    pub wm_take_focus: Atom,
    /// WM_NORMAL_HINTS (predefined by the core protocol).
    pub wm_normal_hints: Atom,
}

/// True when some atom of the list reads as `kind`.
pub open spec fn lists_protocol(atoms: Atoms, list: Seq<u32>, kind: ProtocolAtom) -> bool {
    exists|i: int| 0 <= i < list.len() && atoms.classify_spec(#[trigger] list[i]) == kind
}

/// The WM_PROTOCOLS value of a property payload; an absent property means
/// no protocols.
pub open spec fn wm_protocols_of(atoms: Atoms, value: Option<Seq<u32>>) -> WmProtocols {
    match value {
        None => WmProtocols { take_focus: false, delete_window: false },
        Some(list) => WmProtocols {
            take_focus: lists_protocol(atoms, list, ProtocolAtom::TakeFocus),
            delete_window: lists_protocol(atoms, list, ProtocolAtom::DeleteWindow),
        },
    }
}

impl Atoms {
    /// How `a` is read in a WM_PROTOCOLS list.
    pub open spec fn classify_spec(self, a: Atom) -> ProtocolAtom {
        if a == self.wm_take_focus {
            ProtocolAtom::TakeFocus
        } else if a == self.wm_save_yourself {
            ProtocolAtom::SaveYourself
        } else if a == self.wm_delete_window {
            ProtocolAtom::DeleteWindow
        } else {
            ProtocolAtom::Unknown
        }
    }

    /// Classify one atom of a WM_PROTOCOLS list.
    pub fn classify(&self, a: Atom) -> (r: ProtocolAtom)
        ensures
            r == self.classify_spec(a),
    {
        if a == self.wm_take_focus {
            ProtocolAtom::TakeFocus
        } else if a == self.wm_save_yourself {
            ProtocolAtom::SaveYourself
        } else if a == self.wm_delete_window {
            ProtocolAtom::DeleteWindow
        } else {
            ProtocolAtom::Unknown
        }
    }

    /// Decode a WM_PROTOCOLS payload (`None` when the property is absent or
    /// not a list of 32-bit values). Never fails: unknown atoms are skipped.
    pub fn decode_wm_protocols(&self, value: Option<&[u32]>) -> (r: WmProtocols)
        ensures
            r == wm_protocols_of(*self, match value {
                Some(l) => Some(l@),
                None => None,
            }),
    {
        let list = match value {
            None => return WmProtocols::new(),
            Some(l) => l,
        };
        let mut ret = WmProtocols::new();
        let mut i: usize = 0;
        while i < list.len()
            invariant
                i <= list.len(),
                ret.take_focus == exists|k: int|
                    0 <= k < i && self.classify_spec(#[trigger] list@[k]) == ProtocolAtom::TakeFocus,
                ret.delete_window == exists|k: int|
                    0 <= k < i && self.classify_spec(#[trigger] list@[k])
                        == ProtocolAtom::DeleteWindow,
            decreases list.len() - i,
        {
            match self.classify(list[i]) {
                ProtocolAtom::TakeFocus => {
                    ret.take_focus = true;
                },
                ProtocolAtom::DeleteWindow => {
                    ret.delete_window = true;
                },
                ProtocolAtom::SaveYourself => {},
                ProtocolAtom::Unknown => {},
            }
            i += 1;
        }
        ret
    }

    /// Decode a WM_STATE payload (`None` when the property is absent). A
    /// payload that is not a known state reads as unknown, not as an error.
    pub fn decode_wm_state(value: Option<&[u32]>) -> (r: Option<WmState>)
        ensures
            r == match value {
                None => None,
                Some(l) => wm_state_of_words(l@),
            },
    {
        match value {
            None => None,
            Some(l) => WmState::from_words(l),
        }
    }

    /// The ClientMessage that asks `window` to delete itself (ICCCM
    /// WM_DELETE_WINDOW).
    pub fn delete_window(&self, window: Window) -> (r: ClientMessage)
        ensures
            r.window == window,
            r.message_type == self.wm_protocols,
            r.data@ == seq![self.wm_delete_window, 0u32, 0u32, 0u32, 0u32],
    {
        let data = [self.wm_delete_window, 0, 0, 0, 0];
        assert(data@ =~= seq![self.wm_delete_window, 0u32, 0u32, 0u32, 0u32]);
        ClientMessage { window, message_type: self.wm_protocols, data }
    }
}

/// A property that names only WM_SAVE_YOURSELF reads as no protocols; one
/// that names WM_TAKE_FOCUS and WM_DELETE_WINDOW reads as both; an absent
/// one reads as none.
pub proof fn lemma_wm_protocols_decode(atoms: Atoms)
    requires
        atoms.wm_take_focus != atoms.wm_save_yourself,
        atoms.wm_take_focus != atoms.wm_delete_window,
        atoms.wm_save_yourself != atoms.wm_delete_window,
    ensures
        wm_protocols_of(atoms, Some(seq![atoms.wm_save_yourself]))
            == (WmProtocols { take_focus: false, delete_window: false }),
        wm_protocols_of(atoms, Some(seq![atoms.wm_take_focus, atoms.wm_delete_window]))
            == (WmProtocols { take_focus: true, delete_window: true }),
        wm_protocols_of(atoms, None) == (WmProtocols { take_focus: false, delete_window: false }),
{
    let a = seq![atoms.wm_save_yourself];
    let b = seq![atoms.wm_take_focus, atoms.wm_delete_window];
    assert(atoms.classify_spec(b[0]) == ProtocolAtom::TakeFocus);
    assert(atoms.classify_spec(b[1]) == ProtocolAtom::DeleteWindow);
    assert(!lists_protocol(atoms, a, ProtocolAtom::TakeFocus)) by {
        assert forall|i: int| 0 <= i < a.len() implies atoms.classify_spec(#[trigger] a[i])
            != ProtocolAtom::TakeFocus by {
            assert(a[i] == atoms.wm_save_yourself);
        }
    }
    assert(!lists_protocol(atoms, a, ProtocolAtom::DeleteWindow)) by {
        assert forall|i: int| 0 <= i < a.len() implies atoms.classify_spec(#[trigger] a[i])
            != ProtocolAtom::DeleteWindow by {
            assert(a[i] == atoms.wm_save_yourself);
        }
    }
}

} // verus!
