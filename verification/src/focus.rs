//! Tracking of the active program. The compositor reports each toplevel
//! window's app id and state piecewise, applying them atomically on `done`;
//! whenever the active app id changes, the new one is reported.
//!
//! Toplevels are keyed by the protocol id of their handle. Two protocol
//! backends exist; the wlroots one is consulted before the COSMIC one.

use vstd::prelude::*;
use std::collections::HashMap;
use crate::keys::{ascending, sorted_keys};
use crate::note::copy_opt_string;

verus! {

broadcast use vstd::std_specs::hash::group_hash_axioms;

/// The value of the `activated` entry of a toplevel state array.
pub const ACTIVATED_STATE: u32 = 2;

/// `u32` of four bytes, least significant first.
pub open spec fn le_u32(b: [u8; 4]) -> int {
    b[0] + 256 * b[1] + 65536 * b[2] + 16777216 * b[3]
}

/// `u32` of four bytes, most significant first.
pub open spec fn be_u32(b: [u8; 4]) -> int {
    b[3] + 256 * b[2] + 65536 * b[1] + 16777216 * b[0]
}

/// `u32` of four bytes in the byte order of the machine.
pub open spec fn native_u32(b: [u8; 4]) -> int {
    match vstd::endian::endianness() {
        vstd::endian::Endian::Little => le_u32(b),
        vstd::endian::Endian::Big => be_u32(b),
    }
}

/// `u32::from_ne_bytes`: the bytes read in the machine's byte order.
#[verifier::external_body]
fn u32_from_ne_bytes(b: [u8; 4]) -> (r: u32)
    ensures
        r as int == native_u32(b),
{
    u32::from_ne_bytes(b)
}

/// The `i`-th 4-byte word of a state array.
pub open spec fn state_word(raw: Seq<u8>, i: int) -> [u8; 4] {
    [raw[4 * i], raw[4 * i + 1], raw[4 * i + 2], raw[4 * i + 3]]
}

/// Whether a toplevel state array (native-endian `u32`s; a trailing
/// partial word is ignored) holds the `activated` state.
pub open spec fn spec_is_activated(raw: Seq<u8>) -> bool {
    exists|i: int| 0 <= i < raw.len() / 4 && native_u32(#[trigger] state_word(raw, i)) == ACTIVATED_STATE
}

pub fn state_is_activated(raw: &Vec<u8>) -> (b: bool)
    ensures
        b == spec_is_activated(raw@),
{
    let words = raw.len() / 4;
    let mut i: usize = 0;
    while i < words
        invariant
            words == raw@.len() / 4,
            0 <= i <= words,
            forall|j: int| 0 <= j < i ==> native_u32(#[trigger] state_word(raw@, j)) != ACTIVATED_STATE,
        decreases words - i,
    {
        let len = raw.len();
        assert(4 * i + 3 < len) by (nonlinear_arith)
            requires
                i < words,
                words == len / 4,
        ;
        let w = [raw[4 * i], raw[4 * i + 1], raw[4 * i + 2], raw[4 * i + 3]];
        proof {
            assert(w == state_word(raw@, i as int));
        }
        if u32_from_ne_bytes(w) == ACTIVATED_STATE {
            return true;
        }
        i = i + 1;
    }
    false
}

/// What is known of one toplevel window, plus values reported but not yet
/// applied.
#[derive(Debug)]
pub struct ToplevelInfo {
    pub app_id: String,
    pub activated: bool,
    pub pending_app_id: Option<String>,
    pub pending_activated: Option<bool>,
}

impl ToplevelInfo {
    /// A toplevel that nothing has been reported of yet.
    pub fn new() -> (t: Self)
        ensures
            t.app_id@ == Seq::<char>::empty(),
            !t.activated,
            t.pending_app_id is None,
            t.pending_activated is None,
    {
        ToplevelInfo {
            app_id: String::new(),
            activated: false,
            pending_app_id: None,
            pending_activated: None,
        }
    }
}

/// Applying the pending values of a toplevel on `done`.
pub open spec fn applied(t: ToplevelInfo) -> ToplevelInfo {
    ToplevelInfo {
        app_id: match t.pending_app_id {
            Some(a) => a,
            None => t.app_id,
        },
        activated: match t.pending_activated {
            Some(b) => b,
            None => t.activated,
        },
        pending_app_id: None,
        pending_activated: None,
    }
}

/// The two toplevel-tracking protocols.
#[derive(Clone, Copy, PartialEq, Eq, Debug, Structural)]
pub enum Backend {
    /// `zwlr_foreign_toplevel_manager_v1`.
    Wlr,
    /// `zcosmic_toplevel_info_v1`.
    Cosmic,
}

/// The first activated toplevel among `ks` (in that order).
pub open spec fn first_activated(m: Map<u64, ToplevelInfo>, ks: Seq<u64>) -> Option<String>
    decreases ks.len(),
{
    if ks.len() == 0 {
        None
    } else if m[ks[0]].activated {
        Some(m[ks[0]].app_id)
    } else {
        first_activated(m, ks.drop_first())
    }
}

/// The active app id: that of an activated toplevel of the wlroots
/// backend, else of the COSMIC one (lowest handle id first).
pub open spec fn active_app_id(wlr: Map<u64, ToplevelInfo>, cosmic: Map<u64, ToplevelInfo>) -> Option<String> {
    match first_activated(wlr, ascending(wlr.dom())) {
        Some(a) => Some(a),
        None => first_activated(cosmic, ascending(cosmic.dom())),
    }
}

/// The toplevels of both backends, and the app id reported last.
pub struct FocusState {
    wlr_toplevels: HashMap<u64, ToplevelInfo>,
    cosmic_toplevels: HashMap<u64, ToplevelInfo>,
    last_sent: Option<String>,
}

pub ghost struct FocusView {
    pub wlr: Map<u64, ToplevelInfo>,
    pub cosmic: Map<u64, ToplevelInfo>,
    pub last_sent: Option<String>,
}

impl View for FocusState {
    type V = FocusView;

    closed spec fn view(&self) -> FocusView {
        FocusView {
            wlr: self.wlr_toplevels@,
            cosmic: self.cosmic_toplevels@,
            last_sent: self.last_sent,
        }
    }
}

pub open spec fn with_backend(v: FocusView, b: Backend, m: Map<u64, ToplevelInfo>) -> FocusView {
    match b {
        Backend::Wlr => FocusView { wlr: m, ..v },
        Backend::Cosmic => FocusView { cosmic: m, ..v },
    }
}

pub open spec fn backend_map(v: FocusView, b: Backend) -> Map<u64, ToplevelInfo> {
    match b {
        Backend::Wlr => v.wlr,
        Backend::Cosmic => v.cosmic,
    }
}

/// Recomputing the active app after a change: it is reported (as
/// `Some(id)`) only when it differs from the one reported last and is
/// known; the record of the last one is updated either way.
pub open spec fn recompute_post(v: FocusView, t: FocusView, sent: Option<String>) -> bool {
    let active = active_app_id(v.wlr, v.cosmic);
    let changed = match (active, v.last_sent) {
        (Some(a), Some(l)) => a@ != l@,
        (None, None) => false,
        _ => true,
    };
    &&& t.wlr == v.wlr
    &&& t.cosmic == v.cosmic
    &&& t.last_sent == if changed {
        active
    } else {
        v.last_sent
    }
    &&& sent == if changed {
        active
    } else {
        None
    }
}

fn first_activated_exec(m: &HashMap<u64, ToplevelInfo>) -> (r: Option<String>)
    ensures
        r == first_activated(m@, ascending(m@.dom())),
{
    let ks = sorted_keys(m);
    let mut i: usize = 0;
    proof {
        assert(ks@.skip(0) =~= ks@);
    }
    while i < ks.len()
        invariant
            ks@ == ascending(m@.dom()),
            ks@.to_set() == m@.dom(),
            0 <= i <= ks.len(),
            first_activated(m@, ks@) == first_activated(m@, ks@.skip(i as int)),
        decreases ks.len() - i,
    {
        let k = ks[i];
        proof {
            assert(ks@.to_set().contains(k));
            assert(ks@.skip(i as int)[0] == k);
            assert(ks@.skip(i as int).drop_first() =~= ks@.skip(i + 1));
        }
        let info = m.get(&k).unwrap();
        if info.activated {
            return Some(info.app_id.clone());
        }
        i = i + 1;
    }
    proof {
        assert(ks@.skip(ks@.len() as int).len() == 0);
    }
    None
}

impl FocusState {
    pub fn new() -> (f: Self)
        ensures
            f@.wlr == Map::<u64, ToplevelInfo>::empty(),
            f@.cosmic == Map::<u64, ToplevelInfo>::empty(),
            f@.last_sent is None,
    {
        FocusState {
            wlr_toplevels: HashMap::new(),
            cosmic_toplevels: HashMap::new(),
            last_sent: None,
        }
    }

    /// The active app id, reported if it changed since the last report.
    pub fn recompute(&mut self) -> (sent: Option<String>)
        ensures
            recompute_post(old(self)@, final(self)@, sent),
    {
        let active = match first_activated_exec(&self.wlr_toplevels) {
            Some(a) => Some(a),
            None => first_activated_exec(&self.cosmic_toplevels),
        };
        let changed = match (&active, &self.last_sent) {
            (Some(a), Some(l)) => *a != *l,
            (None, None) => false,
            _ => true,
        };
        if changed {
            self.last_sent = copy_opt_string(&active);
            active
        } else {
            None
        }
    }

    /// A new toplevel handle was announced.
    pub fn toplevel_created(&mut self, backend: Backend, id: u64)
        ensures
            final(self)@ == with_backend(
                old(self)@,
                backend,
                backend_map(old(self)@, backend).insert(id, backend_map(final(self)@, backend)[id]),
            ),
            is_fresh_toplevel(backend_map(final(self)@, backend)[id]),
    {
        match backend {
            Backend::Wlr => {
                self.wlr_toplevels.insert(id, ToplevelInfo::new());
            },
            Backend::Cosmic => {
                self.cosmic_toplevels.insert(id, ToplevelInfo::new());
            },
        }
    }

    /// A toplevel reported its app id (applied on `done`).
    pub fn toplevel_app_id(&mut self, backend: Backend, id: u64, app_id: String)
        ensures
            final(self)@ == with_backend(
                old(self)@,
                backend,
                with_pending_app_id(backend_map(old(self)@, backend), id, app_id),
            ),
    {
        match backend {
            Backend::Wlr => set_pending_app_id(&mut self.wlr_toplevels, id, app_id),
            Backend::Cosmic => set_pending_app_id(&mut self.cosmic_toplevels, id, app_id),
        }
    }

    /// A toplevel reported its state array (applied on `done`).
    pub fn toplevel_state(&mut self, backend: Backend, id: u64, raw_state: &Vec<u8>)
        ensures
            final(self)@ == with_backend(
                old(self)@,
                backend,
                with_pending_activated(
                    backend_map(old(self)@, backend),
                    id,
                    spec_is_activated(raw_state@),
                ),
            ),
    {
        let activated = state_is_activated(raw_state);
        match backend {
            Backend::Wlr => set_pending_activated(&mut self.wlr_toplevels, id, activated),
            Backend::Cosmic => set_pending_activated(&mut self.cosmic_toplevels, id, activated),
        }
    }

    /// A toplevel's reported values are complete: they are applied, and the
    /// active app is recomputed.
    pub fn toplevel_done(&mut self, backend: Backend, id: u64) -> (sent: Option<String>)
        ensures
            recompute_post(
                with_backend(old(self)@, backend, with_applied(backend_map(old(self)@, backend), id)),
                final(self)@,
                sent,
            ),
    {
        match backend {
            Backend::Wlr => apply_pending(&mut self.wlr_toplevels, id),
            Backend::Cosmic => apply_pending(&mut self.cosmic_toplevels, id),
        }
        self.recompute()
    }

    /// A toplevel was closed: it is forgotten, and the active app is
    /// recomputed.
    pub fn toplevel_closed(&mut self, backend: Backend, id: u64) -> (sent: Option<String>)
        ensures
            recompute_post(
                with_backend(old(self)@, backend, backend_map(old(self)@, backend).remove(id)),
                final(self)@,
                sent,
            ),
    {
        match backend {
            Backend::Wlr => {
                self.wlr_toplevels.remove(&id);
            },
            Backend::Cosmic => {
                self.cosmic_toplevels.remove(&id);
            },
        }
        self.recompute()
    }
}

pub open spec fn is_fresh_toplevel(t: ToplevelInfo) -> bool {
    t.app_id@ == Seq::<char>::empty() && !t.activated && t.pending_app_id is None
        && t.pending_activated is None
}

pub open spec fn with_pending_app_id(m: Map<u64, ToplevelInfo>, id: u64, app_id: String) -> Map<
    u64,
    ToplevelInfo,
> {
    if m.contains_key(id) {
        m.insert(id, ToplevelInfo { pending_app_id: Some(app_id), ..m[id] })
    } else {
        m
    }
}

pub open spec fn with_pending_activated(m: Map<u64, ToplevelInfo>, id: u64, activated: bool) -> Map<
    u64,
    ToplevelInfo,
> {
    if m.contains_key(id) {
        m.insert(id, ToplevelInfo { pending_activated: Some(activated), ..m[id] })
    } else {
        m
    }
}

pub open spec fn with_applied(m: Map<u64, ToplevelInfo>, id: u64) -> Map<u64, ToplevelInfo> {
    if m.contains_key(id) {
        m.insert(id, applied(m[id]))
    } else {
        m
    }
}

fn set_pending_app_id(m: &mut HashMap<u64, ToplevelInfo>, id: u64, app_id: String)
    ensures
        final(m)@ == with_pending_app_id(old(m)@, id, app_id),
{
    if let Some(mut info) = m.remove(&id) {
        info.pending_app_id = Some(app_id);
        m.insert(id, info);
    }
}

fn set_pending_activated(m: &mut HashMap<u64, ToplevelInfo>, id: u64, activated: bool)
    ensures
        final(m)@ == with_pending_activated(old(m)@, id, activated),
{
    if let Some(mut info) = m.remove(&id) {
        info.pending_activated = Some(activated);
        m.insert(id, info);
    }
}

fn apply_pending(m: &mut HashMap<u64, ToplevelInfo>, id: u64)
    ensures
        final(m)@ == with_applied(old(m)@, id),
{
    if let Some(mut info) = m.remove(&id) {
        if let Some(app_id) = info.pending_app_id.take() {
            info.app_id = app_id;
        }
        if let Some(activated) = info.pending_activated.take() {
            info.activated = activated;
        }
        m.insert(id, info);
    }
}

} // verus!
