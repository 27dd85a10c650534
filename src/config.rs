//! Configuration: focus model, modifier key, startup programs, and the
//! resolution of keybindings to actions.
use vstd::prelude::*;
use x11rb::protocol::xproto;

verus! {

/// Focus model.
#[derive(PartialEq, Eq, Structural, Clone, Copy, Debug, Hash)]
pub enum FocusModel {
    /// Click to focus.
    Click,
    /// Focus follows the pointer.
    Autofocus,
}

/// The modifier keys that can be configured.
#[derive(PartialEq, Eq, Structural, Clone, Copy, Debug, Hash)]
pub enum ModMask {
    Shift,
    Lock,
    Control,
    Mod1,
    Mod2,
    Mod3,
    Mod4,
    Mod5,
    /// Any modifier; never read from a configuration file.
    Any,
}

impl ModMask {
    /// The key-button mask bit of the modifier in the core protocol.
    pub open spec fn bits_spec(self) -> u16 {
        match self {
            ModMask::Shift => 1,
            ModMask::Lock => 2,
            ModMask::Control => 4,
            ModMask::Mod1 => 8,
            ModMask::Mod2 => 16,
            ModMask::Mod3 => 32,
            ModMask::Mod4 => 64,
            ModMask::Mod5 => 128,
            ModMask::Any => 32768,
        }
    }

    /// The modifier that a mask value names; anything else reads as `Any`.
    pub open spec fn from_bits_spec(bits: u16) -> ModMask {
        if bits == 1 {
            ModMask::Shift
        } else if bits == 2 {
            ModMask::Lock
        } else if bits == 4 {
            ModMask::Control
        } else if bits == 8 {
            ModMask::Mod1
        } else if bits == 16 {
            ModMask::Mod2
        } else if bits == 32 {
            ModMask::Mod3
        } else if bits == 64 {
            ModMask::Mod4
        } else if bits == 128 {
            ModMask::Mod5
        } else {
            ModMask::Any
        }
    }

    /// The key-button mask bit of the modifier.
    pub fn bits(self) -> (r: u16)
        ensures
            r == self.bits_spec(),
    {
        modifier_bits(self)
    }

    /// The modifier that a mask value names.
    pub fn from_bits(bits: u16) -> (r: ModMask)
        ensures
            r == ModMask::from_bits_spec(bits),
    {
        if bits == modifier_bits(ModMask::Shift) {
            ModMask::Shift
        } else if bits == modifier_bits(ModMask::Lock) {
            ModMask::Lock
        } else if bits == modifier_bits(ModMask::Control) {
            ModMask::Control
        } else if bits == modifier_bits(ModMask::Mod1) {
            ModMask::Mod1
        } else if bits == modifier_bits(ModMask::Mod2) {
            ModMask::Mod2
        } else if bits == modifier_bits(ModMask::Mod3) {
            ModMask::Mod3
        } else if bits == modifier_bits(ModMask::Mod4) {
            ModMask::Mod4
        } else if bits == modifier_bits(ModMask::Mod5) {
            ModMask::Mod5
        } else {
            ModMask::Any
        }
    }
}

/// Relies on x11rb's `xproto::ModMask` constants and `u16::from` on them:
/// SHIFT, LOCK, CONTROL, M1 to M5 are bits 0 to 7, ANY is bit 15.
#[verifier::external_body]
fn modifier_bits(m: ModMask) -> (r: u16)
    ensures
        r == m.bits_spec(),
{
    u16::from(match m {
        ModMask::Shift => xproto::ModMask::SHIFT,
        ModMask::Lock => xproto::ModMask::LOCK,
        ModMask::Control => xproto::ModMask::CONTROL,
        ModMask::Mod1 => xproto::ModMask::M1,
        ModMask::Mod2 => xproto::ModMask::M2,
        ModMask::Mod3 => xproto::ModMask::M3,
        ModMask::Mod4 => xproto::ModMask::M4,
        ModMask::Mod5 => xproto::ModMask::M5,
        ModMask::Any => xproto::ModMask::ANY,
    })
}

/// What a keybinding does.
#[derive(PartialEq, Eq, Structural, Clone, Copy, Debug, Hash)]
pub enum Action {
    /// Stop the window manager.
    Quit,
    /// Close the window under the pointer.
    Kill,
}

/// A keybinding that cannot be resolved.
#[derive(PartialEq, Eq, Debug)]
pub enum ConfigError {
    /// The key name is not a known keysym.
    KeysymError(String),
    /// No keycode produces the keysym in the current keyboard layout.
    KeycodeError(String, u32),
    /// The action name is not known.
    InvalidAction(String),
}

/// The action that a name in the configuration stands for.
pub open spec fn action_of_name(name: Seq<char>) -> Option<Action> {
    if name == "quit"@ {
        Some(Action::Quit)
    } else if name == "kill"@ {
        Some(Action::Kill)
    } else {
        None
    }
}

/// Look up an action by its name.
pub fn parse_action(name: &String) -> (r: Result<Action, ConfigError>)
    ensures
        match action_of_name(name@) {
            Some(a) => r == Ok::<Action, ConfigError>(a),
            None => r matches Err(ConfigError::InvalidAction(n)) && n@ == name@,
        },
{
    let quit = "quit".to_owned();
    let kill = "kill".to_owned();
    if *name == quit {
        Ok(Action::Quit)
    } else if *name == kill {
        Ok(Action::Kill)
    } else {
        Err(ConfigError::InvalidAction(name.clone()))
    }
}

/// The keysym that a name lookup returned: 0 means no symbol, and a value
/// beyond 32 bits is not a keysym.
pub fn keysym_from_lookup(raw: u64) -> (r: Option<u32>)
    ensures
        r == if raw == 0 || raw > u32::MAX {
            None
        } else {
            Some(raw as u32)
        },
{
    if raw == 0 || raw > u32::MAX as u64 {
        None
    } else {
        Some(raw as u32)
    }
}

/// The keycode that a keysym lookup found first; keycode 0 means none.
pub fn keycode_from_lookup(first: Option<u8>) -> (r: Option<u8>)
    ensures
        r == match first {
            Some(k) => if k == 0 {
                None
            } else {
                Some(k)
            },
            None => None,
        },
{
    match first {
        Some(k) => if k == 0 {
            None
        } else {
            Some(k)
        },
        None => None,
    }
}

/// Resolve one keybinding from its key name, the keysym that the name
/// resolved to, the keycode that produces that keysym, and its action name.
pub fn translate_keybind(
    key_name: &String,
    keysym: Option<u32>,
    keycode: Option<u8>,
    action_name: &String,
) -> (r: Result<(u8, Action), ConfigError>)
    ensures
        match keysym {
            None => r matches Err(ConfigError::KeysymError(n)) && n@ == key_name@,
            Some(sym) => match keycode {
                None => r matches Err(ConfigError::KeycodeError(n, s)) && n@ == key_name@ && s
                    == sym,
                Some(code) => match action_of_name(action_name@) {
                    Some(a) => r == Ok::<(u8, Action), ConfigError>((code, a)),
                    None => r matches Err(ConfigError::InvalidAction(n)) && n@ == action_name@,
                },
            },
        },
{
    let code = match keysym {
        None => {
            return Err(ConfigError::KeysymError(key_name.clone()));
        },
        Some(sym) => match keycode {
            None => {
                return Err(ConfigError::KeycodeError(key_name.clone(), sym));
            },
            Some(code) => code,
        },
    };
    match parse_action(action_name) {
        Ok(a) => Ok((code, a)),
        Err(e) => Err(e),
    }
}

/// The resolved keybindings: at most one action per keycode.
#[derive(Debug)]
pub struct Keybinds {
    /// (keycode, action) pairs, no keycode twice.
    entries: Vec<(u8, Action)>,
}

impl Keybinds {
    /// The action bound to keycode `k`, if any.
    pub closed spec fn binding(&self, k: u8) -> Option<Action> {
        if exists|i: int| 0 <= i < self.entries@.len() && #[trigger] self.entries@[i].0 == k {
            Some(
                self.entries@[choose|i: int|
                    0 <= i < self.entries@.len() && #[trigger] self.entries@[i].0 == k].1,
            )
        } else {
            None
        }
    }

    /// No keycode occurs twice.
    pub closed spec fn wf(&self) -> bool {
        forall|i: int, j: int|
            0 <= i < self.entries@.len() && 0 <= j < self.entries@.len() && i != j
                ==> #[trigger] self.entries@[i].0 != #[trigger] self.entries@[j].0
    }

    /// The number of bound keycodes.
    pub closed spec fn count(&self) -> nat {
        self.entries@.len()
    }

    /// No bindings.
    pub fn new() -> (r: Keybinds)
        ensures
            r.wf(),
            forall|k: u8| #[trigger] r.binding(k) is None,
    {
        Keybinds { entries: Vec::new() }
    }

    fn find(&self, k: u8) -> (r: Option<usize>)
        requires
            self.wf(),
        ensures
            match r {
                Some(i) => i < self.entries@.len() && self.entries@[i as int].0 == k
                    && self.binding(k) == Some(self.entries@[i as int].1),
                None => self.binding(k) is None,
            },
    {
        let mut i: usize = 0;
        while i < self.entries.len()
            invariant
                self.wf(),
                i <= self.entries@.len(),
                forall|j: int| 0 <= j < i ==> #[trigger] self.entries@[j].0 != k,
            decreases self.entries@.len() - i,
        {
            if self.entries[i].0 == k {
                proof {
                    let j = choose|j: int|
                        0 <= j < self.entries@.len() && #[trigger] self.entries@[j].0 == k;
                    assert(j == i);
                }
                return Some(i);
            }
            i += 1;
        }
        None
    }

    /// Bind `k` to `a`, replacing an earlier binding of `k`.
    pub fn insert(&mut self, k: u8, a: Action)
        requires
            old(self).wf(),
        ensures
            final(self).wf(),
            final(self).binding(k) == Some(a),
            forall|x: u8| x != k ==> #[trigger] final(self).binding(x) == old(self).binding(x),
    {
        let ghost e = self.entries@;
        match self.find(k) {
            Some(i) => {
                self.entries.set(i, (k, a));
                assert forall|x: u8| x != k implies #[trigger] self.binding(x) == old(self).binding(
                    x,
                ) by {
                    let t = self.entries@;
                    if exists|j: int| 0 <= j < t.len() && #[trigger] t[j].0 == x {
                        let j = choose|j: int| 0 <= j < t.len() && #[trigger] t[j].0 == x;
                        assert(e[j].0 == x);
                    }
                    if exists|j: int| 0 <= j < e.len() && #[trigger] e[j].0 == x {
                        let j = choose|j: int| 0 <= j < e.len() && #[trigger] e[j].0 == x;
                        assert(t[j].0 == x);
                    }
                }
                assert(self.entries@[i as int].0 == k);
            },
            None => {
                self.entries.push((k, a));
                let ghost t = self.entries@;
                assert(t[t.len() - 1].0 == k);
                assert forall|x: u8| x != k implies #[trigger] self.binding(x) == old(self).binding(
                    x,
                ) by {
                    if exists|j: int| 0 <= j < t.len() && #[trigger] t[j].0 == x {
                        let j = choose|j: int| 0 <= j < t.len() && #[trigger] t[j].0 == x;
                        assert(e[j].0 == x);
                    }
                    if exists|j: int| 0 <= j < e.len() && #[trigger] e[j].0 == x {
                        let j = choose|j: int| 0 <= j < e.len() && #[trigger] e[j].0 == x;
                        assert(t[j].0 == x);
                    }
                }
            },
        }
    }

    /// The action bound to keycode `k`.
    pub fn lookup(&self, k: u8) -> (r: Option<Action>)
        requires
            self.wf(),
        ensures
            r == self.binding(k),
    {
        match self.find(k) {
            Some(i) => Some(self.entries[i].1),
            None => None,
        }
    }

    /// Every bound keycode, once each.
    pub fn keycodes(&self) -> (r: Vec<u8>)
        requires
            self.wf(),
        ensures
            r@.len() == self.count(),
            forall|k: u8| r@.contains(k) <==> (#[trigger] self.binding(k)) is Some,
            r@.no_duplicates(),
    {
        let mut r: Vec<u8> = Vec::new();
        let mut i: usize = 0;
        while i < self.entries.len()
            invariant
                self.wf(),
                i <= self.entries@.len(),
                r@.len() == i,
                forall|j: int| 0 <= j < i ==> r@[j] == #[trigger] self.entries@[j].0,
            decreases self.entries@.len() - i,
        {
            r.push(self.entries[i].0);
            i += 1;
        }
        assert forall|k: u8| r@.contains(k) <==> (#[trigger] self.binding(k)) is Some by {
            if r@.contains(k) {
                let j = choose|j: int| 0 <= j < r@.len() && r@[j] == k;
                assert(self.entries@[j].0 == k);
            }
            if self.binding(k) is Some {
                let j = choose|j: int|
                    0 <= j < self.entries@.len() && #[trigger] self.entries@[j].0 == k;
                assert(r@[j] == k);
            }
        }
        assert forall|a: int, b: int| 0 <= a < r@.len() && 0 <= b < r@.len() && a != b implies r@[a]
            != r@[b] by {
            assert(r@[a] == self.entries@[a].0);
            assert(r@[b] == self.entries@[b].0);
        }
        r
    }
}

/// The configuration.
#[derive(Debug)]
pub struct Config {
    /// Programs started when the manager starts.
    pub startup: Vec<String>,
    /// The modifier that marks the manager's key and button bindings.
    pub mod_mask: ModMask,
    /// The focus model.
    pub focus_model: FocusModel,
    /// Keybindings as written: (key name, action name).
    pub keybind_names: Vec<(String, String)>,
}

impl Config {
    /// The default configuration: start an xterm, click to focus, Mod4 as
    /// the modifier, `q` quits and `w` kills.
    pub fn new() -> (r: Config)
        ensures
            r.startup@.len() == 1,
            r.startup@[0]@ == "xterm"@,
            r.mod_mask == ModMask::Mod4,
            r.focus_model == FocusModel::Click,
            r.keybind_names@.len() == 2,
            r.keybind_names@[0].0@ == "q"@,
            r.keybind_names@[0].1@ == "quit"@,
            r.keybind_names@[1].0@ == "w"@,
            r.keybind_names@[1].1@ == "kill"@,
    {
        let mut startup: Vec<String> = Vec::new();
        startup.push("xterm".to_owned());
        let mut keybind_names: Vec<(String, String)> = Vec::new();
        keybind_names.push(("q".to_owned(), "quit".to_owned()));
        keybind_names.push(("w".to_owned(), "kill".to_owned()));
        Config { startup, mod_mask: ModMask::Mod4, focus_model: FocusModel::Click, keybind_names }
    }
}

} // verus!
