//! The note application as a state machine: its state, the messages that
//! drive it, and for each message the next state and the actions that the
//! runtime must carry out.

use vstd::prelude::*;
use std::collections::{HashMap, HashSet};
use crate::colors::NoteColor;
use crate::keys::{ascending, sorted_keys};
use crate::layer::{
    Action, LIST_SIZE, LayerSettings, list_layer_settings, note_surface_height, note_layer_settings, spec_list_layer_settings,
    spec_note_layer_settings, spec_toolbar_layer_settings, toolbar_layer_settings,
};
use crate::note::{Note, copy_opt_string};
use crate::outputs::{OutputInfo, find_output, index_of_name};
use crate::settings::{
    AppSettings, MAX_NOTE_WIDTH, SizePreset, spec_default_note_width, spec_min_note_width,
    spec_note_expanded_height, spec_note_height,
};
use crate::tray::{TrayEvent, TrayMessage};

verus! {

broadcast use vstd::std_specs::hash::group_hash_axioms;

/// Default position (x, y) of the note list panel.
pub const LIST_DEFAULT_POS: (i32, i32) = (200, 48);

/// Pointer positions are given in 1/256 logical px.
pub const SUBPIXELS: i64 = 256;

/// Minimum time between two applied drag or resize steps, in ns.
pub const STEP_INTERVAL_NS: u64 = 8_000_000;

/// What a drag moves.
#[derive(Clone, Copy, PartialEq, Eq, Debug, Structural)]
pub enum DragTarget {
    Note(u64),
    List,
}

/// An ongoing drag of a note or of the list panel.
#[derive(Clone, Copy, Debug)]
pub struct DragState {
    pub target: DragTarget,
    pub surface_id: u64,
    /// Position of the target when the grip was grabbed.
    pub start: (i32, i32),
    /// Pointer position (1/256 px) of the first motion after the grab.
    pub press: Option<(i64, i64)>,
    /// Time (ns) of the last applied step.
    pub last_apply: Option<u64>,
}

/// An ongoing width resize of a note.
#[derive(Clone, Copy, Debug)]
pub struct ResizeState {
    pub note_id: u64,
    pub surface_id: u64,
    /// Note width when the handle was grabbed.
    pub start_width: i32,
    /// Pointer position (1/256 px) of the first motion after the grab.
    pub press: Option<(i64, i64)>,
    /// Time (ns) of the last applied step.
    pub last_apply: Option<u64>,
}

/// A pointer event on a surface.
#[derive(Clone, Copy, Debug)]
pub enum PointerEvent {
    /// The pointer moved to (x, y), in 1/256 logical px, at time `now` (ns,
    /// monotonic).
    CursorMoved { x: i64, y: i64, now: u64 },
    /// The left button was released.
    LeftReleased,
    /// Anything else.
    Other,
}

/// Everything the application reacts to.
#[derive(Clone, Debug)]
pub enum Message {
    CreateNote(NoteColor),
    TextChanged(u64, String),
    ToggleMenu(u64),
    ColorChanged(u64, NoteColor),
    ToggleAlwaysVisible(u64),
    DeleteNote(u64),
    /// Cycles a note to the next output, at position (160, 160).
    MoveToNextOutput(u64),
    /// Rebinds a note to the currently active program.
    RebindApp(u64),
    DragStart(u64),
    ResizeStart(u64),
    WindowClosed(u64),
    IcedEvent(u64, PointerEvent),
    ActiveAppChanged(String),
    TrayMessage(TrayMessage),
    ToggleList,
    MoveListToNextOutput,
    ListDragStart,
    /// Brings a note back to a known on-screen position.
    ImportNote(u64),
    SetSizePreset(SizePreset),
    SetOpacity(u8),
    Quit,
}

/// The abstract state of the application.
#[verifier::ext_equal]
pub ghost struct AppView {
    pub notes: Map<u64, Note>,
    /// surface id -> note id, for every note surface.
    pub surfaces: Map<u64, u64>,
    /// note id -> surface id, for every currently shown note.
    pub note_surface: Map<u64, u64>,
    /// notes whose inline menu is open.
    pub menu_open: Set<u64>,
    pub drag: Option<DragState>,
    pub resize: Option<ResizeState>,
    /// Last known active app id other than this app's own.
    pub active_app: Option<String>,
    pub list_surface: Option<u64>,
    pub list_output: Option<String>,
    pub list_pos: (i32, i32),
    pub toolbar_surface: Option<u64>,
    /// Outputs, left to right.
    pub outputs: Seq<OutputInfo>,
    pub settings: AppSettings,
    /// Every surface id below this one has been handed out.
    pub next_surface_id: u64,
}

impl AppView {
    /// The state invariant.
    pub open spec fn wf(self) -> bool {
        &&& forall|n: u64| #[trigger]
            self.note_surface.contains_key(n) ==> {
                &&& self.surfaces.contains_key(self.note_surface[n])
                &&& self.surfaces[self.note_surface[n]] == n
                &&& self.notes.contains_key(n)
            }
        &&& forall|s: u64| #[trigger] self.surfaces.contains_key(s) ==> s < self.next_surface_id
        &&& forall|n: u64| #[trigger] self.notes.contains_key(n) ==> self.notes[n].id == n
        &&& forall|n: u64| #[trigger] self.menu_open.contains(n) ==> self.notes.contains_key(n)
        &&& self.list_surface matches Some(s) ==> s < self.next_surface_id
            && !self.surfaces.contains_key(s)
        &&& self.toolbar_surface matches Some(s) ==> s < self.next_surface_id
            && !self.surfaces.contains_key(s) && self.list_surface != Some(s)
        &&& !(self.drag is Some && self.resize is Some)
        &&& self.notes.dom().finite()
    }

    /// Every note surface is the surface of the note it names, so that with
    /// `wf` the surface -> note and note -> surface maps are inverse to each
    /// other.
    pub open spec fn surfaces_paired(self) -> bool {
        forall|sid: u64| #[trigger]
            self.surfaces.contains_key(sid) ==> {
                &&& self.note_surface.contains_key(self.surfaces[sid])
                &&& self.note_surface[self.surfaces[sid]] == sid
            }
    }

    /// Enough unused surface ids remain for the surfaces that a visibility
    /// pass over this state creates.
    pub open spec fn pass_fits(self) -> bool {
        self.next_surface_id + shown_count(self, ascending(self.notes.dom())) <= u64::MAX
    }

    /// Enough unused surface ids remain for one update.
    pub open spec fn has_id_headroom(self) -> bool {
        self.next_surface_id + self.notes.len() + 8 <= u64::MAX
    }

    /// Whether `n` has a note surface.
    pub open spec fn shown(self, n: u64) -> bool {
        self.note_surface.contains_key(n)
    }
}

/// The application state.
pub struct PostitApp {
    notes: HashMap<u64, Note>,
    surfaces: HashMap<u64, u64>,
    note_surface: HashMap<u64, u64>,
    menu_open: HashSet<u64>,
    drag: Option<DragState>,
    resize: Option<ResizeState>,
    active_app: Option<String>,
    list_surface: Option<u64>,
    list_output: Option<String>,
    list_pos: (i32, i32),
    toolbar_surface: Option<u64>,
    outputs: Vec<OutputInfo>,
    settings: AppSettings,
    next_surface_id: u64,
}

impl View for PostitApp {
    type V = AppView;

    closed spec fn view(&self) -> AppView {
        AppView {
            notes: self.notes@,
            surfaces: self.surfaces@,
            note_surface: self.note_surface@,
            menu_open: self.menu_open@,
            drag: self.drag,
            resize: self.resize,
            active_app: self.active_app,
            list_surface: self.list_surface,
            list_output: self.list_output,
            list_pos: self.list_pos,
            toolbar_surface: self.toolbar_surface,
            outputs: self.outputs@,
            settings: self.settings,
            next_surface_id: self.next_surface_id,
        }
    }
}

/// Whether a note is shown while `active_app` is the active program: always
/// if pinned, else when it is bound to that program, or when either the
/// binding or the active program is unknown.
pub open spec fn spec_should_be_visible(note: Note, active_app: Option<String>) -> bool {
    note.always_visible || match (note.bound_app, active_app) {
        (Some(bound), Some(active)) => bound@ == active@,
        _ => true,
    }
}

pub fn should_be_visible(note: &Note, active_app: &Option<String>) -> (r: bool)
    ensures
        r == spec_should_be_visible(*note, *active_app),
{
    if note.always_visible {
        return true;
    }
    match (&note.bound_app, active_app) {
        (Some(bound), Some(active)) => *bound == *active,
        _ => true,
    }
}

// ---------------------------------------------------------------------------
// Transition specifications
// ---------------------------------------------------------------------------

pub open spec fn window_closed_post(s: AppView, t: AppView, id: u64) -> bool {
    t == AppView {
        surfaces: s.surfaces.remove(id),
        note_surface: if s.surfaces.contains_key(id) && s.note_surface.contains_key(
            s.surfaces[id],
        ) && s.note_surface[s.surfaces[id]] == id {
            s.note_surface.remove(s.surfaces[id])
        } else {
            s.note_surface
        },
        list_surface: if s.list_surface == Some(id) {
            None
        } else {
            s.list_surface
        },
        toolbar_surface: if s.toolbar_surface == Some(id) {
            None
        } else {
            s.toolbar_surface
        },
        ..s
    }
}

/// Note `n` gets a surface in a visibility pass.
pub open spec fn becomes_visible(s: AppView, n: u64) -> bool {
    s.notes.contains_key(n) && !s.note_surface.contains_key(n) && spec_should_be_visible(
        s.notes[n],
        s.active_app,
    )
}

/// Note `n` loses its surface in a visibility pass.
pub open spec fn becomes_hidden(s: AppView, n: u64) -> bool {
    s.notes.contains_key(n) && s.note_surface.contains_key(n) && !spec_should_be_visible(
        s.notes[n],
        s.active_app,
    )
}

/// How many of `ks` get a new surface.
pub open spec fn shown_count(s: AppView, ks: Seq<u64>) -> nat
    decreases ks.len(),
{
    if ks.len() == 0 {
        0
    } else {
        shown_count(s, ks.drop_last()) + if becomes_visible(s, ks.last()) {
            1nat
        } else {
            0nat
        }
    }
}

/// Settings of the surface a note gets in state `s`.
pub open spec fn surface_settings_of(s: AppView, n: u64) -> LayerSettings {
    spec_note_layer_settings(
        s.notes[n],
        s.menu_open.contains(n),
        s.outputs,
        s.settings.size_preset,
    )
}

/// Actions of a visibility pass over the notes `ks`, in that order; new
/// surfaces get consecutive ids from `s.next_surface_id` on.
pub open spec fn reconcile_actions(s: AppView, ks: Seq<u64>) -> Seq<Action>
    decreases ks.len(),
{
    if ks.len() == 0 {
        seq![]
    } else {
        let prev = reconcile_actions(s, ks.drop_last());
        let n = ks.last();
        if becomes_hidden(s, n) {
            prev.push(Action::RemoveWindow(s.note_surface[n]))
        } else if becomes_visible(s, n) {
            prev.push(
                Action::NewLayerShell {
                    settings: surface_settings_of(s, n),
                    id: (s.next_surface_id + shown_count(s, ks.drop_last())) as u64,
                },
            )
        } else {
            prev
        }
    }
}

/// The surface a visibility pass removes as `sid`, if any.
pub open spec fn removed_by_reconcile(s: AppView, sid: u64) -> bool {
    s.surfaces.contains_key(sid) && s.note_surface.contains_key(s.surfaces[sid])
        && s.note_surface[s.surfaces[sid]] == sid && becomes_hidden(s, s.surfaces[sid])
}

/// Surface id given to note `n` when it becomes visible in a pass over `ks`.
pub open spec fn new_surface_of(s: AppView, ks: Seq<u64>, n: u64) -> u64 {
    (s.next_surface_id + shown_count(s, ks.take(ks.index_of(n)))) as u64
}

/// A visibility pass: afterwards exactly the notes that should be visible
/// have a surface; surfaces of notes that stay visible are kept.
pub open spec fn reconcile_post(s: AppView, t: AppView, acts: Seq<Action>) -> bool {
    let ks = ascending(s.notes.dom());
    &&& acts == reconcile_actions(s, ks)
    &&& t.next_surface_id == s.next_surface_id + shown_count(s, ks)
    &&& forall|n: u64| #[trigger]
        t.note_surface.contains_key(n) <==> s.notes.contains_key(n) && spec_should_be_visible(
            s.notes[n],
            s.active_app,
        )
    &&& forall|n: u64| #[trigger]
        t.note_surface.contains_key(n) ==> t.note_surface[n] == if s.note_surface.contains_key(n) {
            s.note_surface[n]
        } else {
            new_surface_of(s, ks, n)
        }
    &&& forall|sid: u64| #[trigger]
        t.surfaces.contains_key(sid) <==> (s.surfaces.contains_key(sid) && !removed_by_reconcile(
            s,
            sid,
        )) || (s.next_surface_id <= sid < t.next_surface_id)
    &&& forall|sid: u64| #[trigger]
        t.surfaces.contains_key(sid) && sid < s.next_surface_id ==> t.surfaces[sid]
            == s.surfaces[sid]
    &&& t == AppView { surfaces: t.surfaces, note_surface: t.note_surface, next_surface_id: t.next_surface_id, ..s }
}

// ---------------------------------------------------------------------------
// Pointer arithmetic
// ---------------------------------------------------------------------------

/// `d / 256` rounded to the nearest integer, halves away from zero.
pub open spec fn round_subpixels(d: int) -> int {
    if d >= 0 {
        (d + 128) / 256
    } else {
        -((-d + 128) / 256)
    }
}

pub open spec fn saturate_i32(v: int) -> int {
    if v < i32::MIN {
        i32::MIN as int
    } else if v > i32::MAX {
        i32::MAX as int
    } else {
        v
    }
}

/// Whole-pixel pointer movement from `press` to `pos` (both in 1/256 px).
pub open spec fn pixel_delta(press: i64, pos: i64) -> int {
    saturate_i32(round_subpixels(pos - press))
}

/// A dragged coordinate: the start plus the pointer movement, kept on
/// screen (never negative).
pub open spec fn drag_coord(start: i32, press: i64, pos: i64) -> i32 {
    let v = start + pixel_delta(press, pos);
    (if v < 0 {
        0
    } else if v > i32::MAX {
        i32::MAX as int
    } else {
        v
    }) as i32
}

/// A resized width: the start width plus the pointer movement, clamped to
/// [min, MAX_NOTE_WIDTH].
pub open spec fn resize_width(start: i32, press: i64, pos: i64, min: i32) -> i32 {
    let v = start + pixel_delta(press, pos);
    (if v < min {
        min as int
    } else if v > MAX_NOTE_WIDTH {
        MAX_NOTE_WIDTH as int
    } else {
        v
    }) as i32
}

/// At least 8 ms have passed since the last applied step.
pub open spec fn step_due(last: Option<u64>, now: u64) -> bool {
    match last {
        None => true,
        Some(t) => now >= t && now - t >= STEP_INTERVAL_NS,
    }
}

fn exec_pixel_delta(press: i64, pos: i64) -> (d: i32)
    ensures
        d as int == pixel_delta(press, pos),
{
    let diff: i128 = pos as i128 - press as i128;
    let r: i128 = if diff >= 0 {
        (diff + 128) / 256
    } else {
        -((-diff + 128) / 256)
    };
    if r < i32::MIN as i128 {
        i32::MIN
    } else if r > i32::MAX as i128 {
        i32::MAX
    } else {
        r as i32
    }
}

fn exec_drag_coord(start: i32, press: i64, pos: i64) -> (c: i32)
    ensures
        c == drag_coord(start, press, pos),
{
    let v: i64 = start as i64 + exec_pixel_delta(press, pos) as i64;
    if v < 0 {
        0
    } else if v > i32::MAX as i64 {
        i32::MAX
    } else {
        v as i32
    }
}

fn exec_resize_width(start: i32, press: i64, pos: i64, min: i32) -> (w: i32)
    requires
        min <= MAX_NOTE_WIDTH,
    ensures
        w == resize_width(start, press, pos, min),
{
    let v: i64 = start as i64 + exec_pixel_delta(press, pos) as i64;
    if v < min as i64 {
        min
    } else if v > MAX_NOTE_WIDTH as i64 {
        MAX_NOTE_WIDTH
    } else {
        v as i32
    }
}

fn exec_step_due(last: Option<u64>, now: u64) -> (b: bool)
    ensures
        b == step_due(last, now),
{
    match last {
        None => true,
        Some(t) => now >= t && now - t >= STEP_INTERVAL_NS,
    }
}

// ---------------------------------------------------------------------------
// Deterministic transitions, as functions of the state
// ---------------------------------------------------------------------------

/// The state with note `n` replaced.
pub open spec fn with_note(s: AppView, n: u64, note: Note) -> AppView {
    AppView { notes: s.notes.insert(n, note), ..s }
}

/// Width of note `n`, or the preset's default width if there is no such
/// note.
pub open spec fn width_or_default(s: AppView, n: u64) -> i32 {
    if s.notes.contains_key(n) {
        s.notes[n].width
    } else {
        spec_default_note_width(s.settings.size_preset)
    }
}

/// Surface size of note `n`: while its menu is open the width is at least
/// the preset's minimum width.
pub open spec fn note_surface_size(s: AppView, n: u64, expanded: bool) -> (u32, u32) {
    let w = width_or_default(s, n);
    let min = spec_min_note_width(s.settings.size_preset);
    let width = if expanded && w < min {
        min
    } else {
        w
    };
    (width as u32, note_surface_height(expanded, s.settings.size_preset))
}

pub open spec fn spec_toggle_menu(s: AppView, n: u64) -> (AppView, Seq<Action>) {
    if !s.note_surface.contains_key(n) {
        (s, seq![])
    } else {
        let expanded = !s.menu_open.contains(n);
        let menu = if expanded {
            s.menu_open.insert(n)
        } else {
            s.menu_open.remove(n)
        };
        (
            AppView { menu_open: menu, ..s },
            seq![Action::SizeChange { id: s.note_surface[n], size: note_surface_size(s, n, expanded) }],
        )
    }
}

/// Closing note `n`'s menu (if open) and shrinking its surface back.
pub open spec fn spec_close_menu(s: AppView, n: u64) -> (AppView, Seq<Action>) {
    if s.note_surface.contains_key(n) && s.menu_open.contains(n) {
        (
            AppView { menu_open: s.menu_open.remove(n), ..s },
            seq![Action::SizeChange { id: s.note_surface[n], size: note_surface_size(s, n, false) }],
        )
    } else {
        (s, seq![])
    }
}

pub open spec fn spec_text_changed(s: AppView, n: u64, text: String) -> AppView {
    if s.notes.contains_key(n) {
        with_note(s, n, Note { text: text, ..s.notes[n] })
    } else {
        s
    }
}

pub open spec fn recolored(s: AppView, n: u64, color: NoteColor) -> AppView {
    if s.notes.contains_key(n) {
        with_note(s, n, Note { color: color, ..s.notes[n] })
    } else {
        s
    }
}

pub open spec fn spec_color_changed(s: AppView, n: u64, color: NoteColor) -> (AppView, Seq<Action>) {
    let (t, acts) = spec_close_menu(recolored(s, n, color), n);
    (t, seq![Action::SaveNotes] + acts)
}

pub open spec fn pin_toggled(s: AppView, n: u64) -> AppView {
    if s.notes.contains_key(n) {
        with_note(s, n, Note { always_visible: !s.notes[n].always_visible, ..s.notes[n] })
    } else {
        s
    }
}

pub open spec fn rebound(s: AppView, n: u64) -> AppView {
    if s.notes.contains_key(n) {
        with_note(s, n, Note { bound_app: s.active_app, ..s.notes[n] })
    } else {
        s
    }
}

/// A note edit that closes the note's menu and then re-runs the
/// visibility pass: `s1` is the state after the edit.
pub open spec fn edit_then_reconcile_post(s1: AppView, n: u64, t: AppView, acts: Seq<Action>) -> bool {
    let (s2, close_acts) = spec_close_menu(s1, n);
    let head = seq![Action::SaveNotes] + close_acts;
    &&& acts.len() >= head.len()
    &&& acts.take(head.len() as int) == head
    &&& reconcile_post(s2, t, acts.skip(head.len() as int))
}

pub open spec fn spec_delete_note(s: AppView, n: u64) -> (AppView, Seq<Action>) {
    let base = AppView { menu_open: s.menu_open.remove(n), notes: s.notes.remove(n), ..s };
    if s.note_surface.contains_key(n) {
        let sid = s.note_surface[n];
        (
            AppView {
                note_surface: s.note_surface.remove(n),
                surfaces: s.surfaces.remove(sid),
                ..base
            },
            seq![Action::RemoveWindow(sid), Action::SaveNotes],
        )
    } else {
        (base, seq![Action::SaveNotes])
    }
}

pub open spec fn spec_drag_start(s: AppView, n: u64) -> AppView {
    if s.note_surface.contains_key(n) && s.notes.contains_key(n) {
        AppView {
            resize: None,
            drag: Some(
                DragState {
                    target: DragTarget::Note(n),
                    surface_id: s.note_surface[n],
                    start: (s.notes[n].x, s.notes[n].y),
                    press: None,
                    last_apply: None,
                },
            ),
            ..s
        }
    } else {
        s
    }
}

pub open spec fn spec_resize_start(s: AppView, n: u64) -> AppView {
    if s.note_surface.contains_key(n) && s.notes.contains_key(n) {
        AppView {
            drag: None,
            resize: Some(
                ResizeState {
                    note_id: n,
                    surface_id: s.note_surface[n],
                    start_width: s.notes[n].width,
                    press: None,
                    last_apply: None,
                },
            ),
            ..s
        }
    } else {
        s
    }
}

pub open spec fn spec_list_drag_start(s: AppView) -> AppView {
    match s.list_surface {
        Some(sid) => AppView {
            resize: None,
            drag: Some(
                DragState {
                    target: DragTarget::List,
                    surface_id: sid,
                    start: s.list_pos,
                    press: None,
                    last_apply: None,
                },
            ),
            ..s
        },
        None => s,
    }
}

pub open spec fn spec_toggle_list(s: AppView) -> (AppView, Seq<Action>) {
    match s.list_surface {
        Some(sid) => (AppView { list_surface: None, ..s }, seq![Action::RemoveWindow(sid)]),
        None => (
            AppView {
                list_surface: Some(s.next_surface_id),
                next_surface_id: (s.next_surface_id + 1) as u64,
                ..s
            },
            seq![
                Action::NewLayerShell {
                    settings: spec_list_layer_settings(s.list_output, s.outputs, s.list_pos),
                    id: s.next_surface_id,
                },
            ],
        ),
    }
}

/// Closes note `n`'s surface (if any) and creates a fresh one from the
/// note's current fields, followed by a re-commit of its margin.
pub open spec fn spec_recreate_note_surface(s: AppView, n: u64) -> (AppView, Seq<Action>) {
    let (s1, a1) = if s.note_surface.contains_key(n) {
        (
            AppView {
                note_surface: s.note_surface.remove(n),
                surfaces: s.surfaces.remove(s.note_surface[n]),
                ..s
            },
            seq![Action::RemoveWindow(s.note_surface[n])],
        )
    } else {
        (s, seq![])
    };
    if !s.notes.contains_key(n) {
        (s1, a1)
    } else {
        let sid = s.next_surface_id;
        let settings = surface_settings_of(s, n);
        (
            AppView {
                surfaces: s1.surfaces.insert(sid, n),
                note_surface: s1.note_surface.insert(n, sid),
                next_surface_id: (sid + 1) as u64,
                ..s1
            },
            a1 + seq![
                Action::NewLayerShell { settings: settings, id: sid },
                Action::MarginChange { id: sid, margin: settings.margin },
            ],
        )
    }
}

/// Closes the list panel's surface and creates a fresh one from the
/// panel's output and position; nothing if the panel is closed.
pub open spec fn spec_recreate_list_surface(s: AppView) -> (AppView, Seq<Action>) {
    match s.list_surface {
        None => (s, seq![]),
        Some(old) => {
            let sid = s.next_surface_id;
            (
                AppView {
                    list_surface: Some(sid),
                    next_surface_id: (sid + 1) as u64,
                    ..s
                },
                seq![
                    Action::RemoveWindow(old),
                    Action::NewLayerShell {
                        settings: spec_list_layer_settings(s.list_output, s.outputs, s.list_pos),
                        id: sid,
                    },
                    Action::MarginChange { id: sid, margin: (s.list_pos.1, 0, 0, s.list_pos.0) },
                ],
            )
        },
    }
}

/// Index of the output named `name`, or 0 when it is unknown.
pub open spec fn output_index_or_first(outputs: Seq<OutputInfo>, name: Option<String>) -> int {
    match name {
        Some(nm) => match index_of_name(outputs, nm@) {
            Some(i) => i,
            None => 0,
        },
        None => 0,
    }
}

/// Name of the output after the one at index `cur`, wrapping around.
pub open spec fn next_output_name(outputs: Seq<OutputInfo>, cur: int) -> String {
    outputs[(cur + 1) % (outputs.len() as int)].name
}

pub open spec fn spec_move_to_next_output(s: AppView, n: u64) -> (AppView, Seq<Action>) {
    if s.outputs.len() < 2 || !s.notes.contains_key(n) {
        (s, seq![])
    } else {
        let note = s.notes[n];
        let cur = output_index_or_first(s.outputs, note.output);
        let moved = Note {
            output: Some(next_output_name(s.outputs, cur)),
            x: 160,
            y: 160,
            ..note
        };
        let s1 = AppView {
            menu_open: s.menu_open.remove(n),
            notes: s.notes.insert(n, moved),
            ..s
        };
        let (t, acts) = spec_recreate_note_surface(s1, n);
        (t, acts + seq![Action::SaveNotes])
    }
}

pub open spec fn spec_move_list_to_next_output(s: AppView) -> (AppView, Seq<Action>) {
    if s.outputs.len() < 2 || s.list_surface is None {
        (s, seq![])
    } else {
        let cur = output_index_or_first(s.outputs, s.list_output);
        spec_recreate_list_surface(
            AppView {
                list_output: Some(next_output_name(s.outputs, cur)),
                list_pos: LIST_DEFAULT_POS,
                ..s
            },
        )
    }
}

/// Which output an edge hop leads to, if any: the next one when the item
/// touches the right edge of output `cur` (within 2 px), else the previous
/// one when it touches the left edge.
pub open spec fn hop_target(outputs: Seq<OutputInfo>, cur: int, x: int, width: int) -> Option<int> {
    let at_left = x <= 2;
    let at_right = x + width >= outputs[cur].width - 2;
    if at_right && cur + 1 < outputs.len() {
        Some(cur + 1)
    } else if at_left && cur > 0 {
        Some(cur - 1)
    } else {
        None
    }
}

/// x on the target output after a hop: 8 px in from the left edge when
/// moving right, else 8 px in from the right edge (never negative).
pub open spec fn hop_x(moving_right: bool, target_width: int, width: int) -> i32 {
    if moving_right {
        8
    } else {
        let v = target_width - width - 8;
        (if v < 0 {
            0
        } else if v > i32::MAX {
            i32::MAX as int
        } else {
            v
        }) as i32
    }
}

/// y on the target output after a hop: kept, but inside the output.
pub open spec fn hop_y(y: int, target_height: int, height: int) -> i32 {
    let max = if target_height - height < 0 {
        0
    } else {
        target_height - height
    };
    (if y < 0 {
        0
    } else if y > max {
        max
    } else {
        y
    }) as i32
}

pub open spec fn spec_maybe_hop_output(s: AppView, n: u64) -> (AppView, Seq<Action>) {
    if s.outputs.len() < 2 || !s.notes.contains_key(n) {
        (s, seq![])
    } else {
        let note = s.notes[n];
        match note.output {
            None => (s, seq![]),
            Some(name) => match index_of_name(s.outputs, name@) {
                None => (s, seq![]),
                Some(cur) => match hop_target(s.outputs, cur, note.x as int, note.width as int) {
                    None => (s, seq![]),
                    Some(ti) => {
                        let target = s.outputs[ti];
                        let nx = hop_x(ti > cur, target.width as int, note.width as int);
                        let ny = hop_y(
                            note.y as int,
                            target.height as int,
                            spec_note_height(s.settings.size_preset) as int,
                        );
                        spec_recreate_note_surface(
                            with_note(s, n, Note { output: Some(target.name), x: nx, y: ny, ..note }),
                            n,
                        )
                    },
                },
            },
        }
    }
}

pub open spec fn spec_maybe_hop_list_output(s: AppView) -> (AppView, Seq<Action>) {
    if s.outputs.len() < 2 {
        (s, seq![])
    } else {
        let cur = output_index_or_first(s.outputs, s.list_output);
        let (lx, ly) = s.list_pos;
        match hop_target(s.outputs, cur, lx as int, LIST_SIZE.0 as int) {
            None => (s, seq![]),
            Some(ti) => {
                let target = s.outputs[ti];
                let nx = hop_x(ti > cur, target.width as int, LIST_SIZE.0 as int);
                let ny = hop_y(ly as int, target.height as int, LIST_SIZE.1 as int);
                spec_recreate_list_surface(
                    AppView { list_output: Some(target.name), list_pos: (nx, ny), ..s },
                )
            },
        }
    }
}

pub open spec fn spec_import_note(s: AppView, n: u64) -> (AppView, Seq<Action>) {
    if !s.notes.contains_key(n) {
        (s, seq![])
    } else {
        let step = (s.note_surface.len() as i32).wrapping_mul(24i32);
        let pos = 160i32.wrapping_add(step);
        let has_surface = s.note_surface.contains_key(n);
        let note = s.notes[n];
        let moved = Note {
            x: pos,
            y: pos,
            output: if !has_surface && s.outputs.len() > 0 {
                Some(s.outputs[0].name)
            } else {
                note.output
            },
            ..note
        };
        let s1 = with_note(s, n, moved);
        if has_surface {
            (
                s1,
                seq![
                    Action::SaveNotes,
                    Action::MarginChange { id: s.note_surface[n], margin: (pos, 0, 0, pos) },
                ],
            )
        } else {
            let sid = s.next_surface_id;
            (
                AppView {
                    surfaces: s1.surfaces.insert(sid, n),
                    note_surface: s1.note_surface.insert(n, sid),
                    next_surface_id: (sid + 1) as u64,
                    ..s1
                },
                seq![
                    Action::SaveNotes,
                    Action::NewLayerShell { settings: surface_settings_of(s1, n), id: sid },
                ],
            )
        }
    }
}

/// Position of the next created note: (120, 120) plus 24 px per note
/// already present, cycling every ten notes.
pub open spec fn cascade_position(count: nat) -> i32 {
    (120 + (count % 10) * 24) as i32
}

/// Creating a note with id `id` and color `color`: it is bound to the
/// active program, placed on the leftmost output, given the preset's
/// default width, saved, shown, and its text input focused.
pub open spec fn create_note_post(
    s: AppView,
    color: NoteColor,
    id: u64,
    t: AppView,
    acts: Seq<Action>,
) -> bool {
    let note = t.notes[id];
    let pos = cascade_position(s.notes.len());
    let sid = s.next_surface_id;
    &&& t.notes == s.notes.insert(id, note)
    &&& note.id == id
    &&& note.text@ == Seq::<char>::empty()
    &&& note.color == color
    &&& note.x == pos
    &&& note.y == pos
    &&& !note.always_visible
    &&& note.bound_app == s.active_app
    &&& note.output == (if s.outputs.len() > 0 {
        Some(s.outputs[0].name)
    } else {
        None
    })
    &&& note.width == spec_default_note_width(s.settings.size_preset)
    &&& t == AppView {
        notes: t.notes,
        surfaces: s.surfaces.insert(sid, id),
        note_surface: s.note_surface.insert(id, sid),
        next_surface_id: (sid + 1) as u64,
        ..s
    }
    &&& acts == seq![
        Action::SaveNotes,
        Action::NewLayerShell {
            settings: spec_note_layer_settings(note, false, s.outputs, s.settings.size_preset),
            id: sid,
        },
        Action::FocusNoteInput(id),
    ]
}

/// The resize that a preset switch asks of note `n`'s surface.
pub open spec fn preset_resize_action(t: AppView, n: u64) -> Action {
    Action::SizeChange {
        id: t.note_surface[n],
        size: note_surface_size(t, n, t.menu_open.contains(n)),
    }
}

/// Switching the size preset: saved, and every shown note resized, in
/// ascending note id order.
pub open spec fn spec_set_size_preset(s: AppView, p: SizePreset) -> (AppView, Seq<Action>) {
    let t = AppView { settings: AppSettings { size_preset: p, ..s.settings }, ..s };
    (
        t,
        seq![Action::SaveSettings] + ascending(s.note_surface.dom()).map_values(
            |n: u64| preset_resize_action(t, n),
        ),
    )
}

pub open spec fn spec_set_opacity(s: AppView, o: u8) -> AppView {
    AppView { settings: AppSettings { opacity: o, ..s.settings }, ..s }
}

/// This app's own app id.
pub open spec fn self_app_id() -> Seq<char> {
    "postit"@
}

/// Activations of this app itself (or of an unknown program) leave the
/// visibility judgement alone.
pub open spec fn ignores_active_app(s: AppView, app: String) -> bool {
    app@.len() == 0 || app@ == self_app_id() || (s.active_app matches Some(a) && a@ == app@)
}

pub open spec fn active_app_changed_post(s: AppView, app: String, t: AppView, acts: Seq<Action>) -> bool {
    if ignores_active_app(s, app) {
        t == s && acts == Seq::<Action>::empty()
    } else {
        reconcile_post(AppView { active_app: Some(app), ..s }, t, acts)
    }
}

pub open spec fn spec_refresh_outputs(s: AppView, fresh: Seq<OutputInfo>) -> AppView {
    if fresh.len() > 0 {
        AppView { outputs: fresh, ..s }
    } else {
        s
    }
}

/// A pointer motion on surface `id`. A drag takes precedence over a
/// resize; the first motion of either only records the press point, and
/// later ones are applied at most once per 8 ms.
pub open spec fn spec_cursor_moved(s: AppView, id: u64, x: i64, y: i64, now: u64) -> (AppView, Seq<Action>) {
    match s.drag {
        Some(d) => if d.surface_id != id {
            (s, seq![])
        } else {
            match d.press {
                None => (AppView { drag: Some(DragState { press: Some((x, y)), ..d }), ..s }, seq![]),
                Some(press) => if !step_due(d.last_apply, now) {
                    (s, seq![])
                } else {
                    let tx = drag_coord(d.start.0, press.0, x);
                    let ty = drag_coord(d.start.1, press.1, y);
                    let applied = Some(DragState { last_apply: Some(now), ..d });
                    match d.target {
                        DragTarget::Note(n) => if s.notes.contains_key(n) && (s.notes[n].x != tx
                            || s.notes[n].y != ty) {
                            (
                                AppView {
                                    notes: s.notes.insert(n, Note { x: tx, y: ty, ..s.notes[n] }),
                                    drag: applied,
                                    ..s
                                },
                                seq![Action::MarginChange { id: id, margin: (ty, 0, 0, tx) }],
                            )
                        } else {
                            (s, seq![])
                        },
                        DragTarget::List => if s.list_pos != (tx, ty) {
                            (
                                AppView { list_pos: (tx, ty), drag: applied, ..s },
                                seq![Action::MarginChange { id: id, margin: (ty, 0, 0, tx) }],
                            )
                        } else {
                            (s, seq![])
                        },
                    }
                },
            }
        },
        None => match s.resize {
            Some(r) => if r.surface_id != id {
                (s, seq![])
            } else {
                match r.press {
                    None => (
                        AppView { resize: Some(ResizeState { press: Some((x, y)), ..r }), ..s },
                        seq![],
                    ),
                    Some(press) => if !step_due(r.last_apply, now) {
                        (s, seq![])
                    } else {
                        let p = s.settings.size_preset;
                        let w = resize_width(r.start_width, press.0, x, spec_min_note_width(p));
                        let n = r.note_id;
                        if s.notes.contains_key(n) && s.notes[n].width != w {
                            (
                                AppView {
                                    notes: s.notes.insert(n, Note { width: w, ..s.notes[n] }),
                                    resize: Some(ResizeState { last_apply: Some(now), ..r }),
                                    ..s
                                },
                                seq![
                                    Action::SizeChange {
                                        id: id,
                                        size: (w as u32, note_surface_height(s.menu_open.contains(n), p)),
                                    },
                                ],
                            )
                        } else {
                            (s, seq![])
                        }
                    },
                }
            },
            None => (s, seq![]),
        },
    }
}

/// Left button released: ends a drag (hopping to an adjacent output when
/// at an edge; a note is then saved) or a resize (saved).
pub open spec fn spec_left_released(s: AppView) -> (AppView, Seq<Action>) {
    match s.drag {
        Some(d) => {
            let s1 = AppView { drag: None, ..s };
            match d.target {
                DragTarget::Note(n) => {
                    let (t, acts) = spec_maybe_hop_output(s1, n);
                    (t, acts + seq![Action::SaveNotes])
                },
                DragTarget::List => spec_maybe_hop_list_output(s1),
            }
        },
        None => match s.resize {
            Some(_) => (AppView { resize: None, ..s }, seq![Action::SaveNotes]),
            None => (s, seq![]),
        },
    }
}

pub open spec fn spec_pointer_event(s: AppView, id: u64, ev: PointerEvent) -> (AppView, Seq<Action>) {
    match ev {
        PointerEvent::CursorMoved { x, y, now } => spec_cursor_moved(s, id, x, y, now),
        PointerEvent::LeftReleased => spec_left_released(s),
        PointerEvent::Other => (s, seq![]),
    }
}

pub open spec fn spec_show_toolbar(s: AppView) -> (AppView, Seq<Action>) {
    if s.toolbar_surface is Some {
        (s, seq![])
    } else {
        (
            AppView {
                toolbar_surface: Some(s.next_surface_id),
                next_surface_id: (s.next_surface_id + 1) as u64,
                ..s
            },
            seq![
                Action::NewLayerShell {
                    settings: spec_toolbar_layer_settings(),
                    id: s.next_surface_id,
                },
            ],
        )
    }
}

/// A transition given by a state function.
pub open spec fn is_step(r: (AppView, Seq<Action>), t: AppView, acts: Seq<Action>) -> bool {
    t == r.0 && acts == r.1
}

pub open spec fn tray_message_post(s: AppView, msg: TrayMessage, t: AppView, acts: Seq<Action>) -> bool {
    match msg {
        TrayMessage::Registered => t == s && acts == Seq::<Action>::empty(),
        TrayMessage::Unavailable => is_step(spec_show_toolbar(s), t, acts),
        TrayMessage::Event(e) => match e {
            TrayEvent::NewNote(color) => exists|id: u64| create_note_post(s, color, id, t, acts),
            TrayEvent::RefreshOutputs => t == s && acts == seq![Action::RefreshOutputs],
            TrayEvent::ShowList => is_step(spec_toggle_list(s), t, acts),
            TrayEvent::SetSizePreset(p) => is_step(spec_set_size_preset(s, p), t, acts),
            TrayEvent::SetOpacity(o) => t == spec_set_opacity(s, o) && acts == seq![Action::SaveSettings],
            TrayEvent::Quit => t == s && acts == seq![Action::SaveNotes, Action::Exit],
        },
    }
}

/// Some note of `t` has an id that no note of `s` had.
pub open spec fn adds_note(s: AppView, t: AppView) -> bool {
    exists|id: u64| t.notes.contains_key(id) && !s.notes.contains_key(id)
}

/// Whether `msg` creates a note.
pub open spec fn creates_note(msg: Message) -> bool {
    match msg {
        Message::CreateNote(_) => true,
        Message::TrayMessage(TrayMessage::Event(TrayEvent::NewNote(_))) => true,
        _ => false,
    }
}

/// The tray message `msg` creates a note.
pub open spec fn tray_creates_note(msg: TrayMessage) -> bool {
    msg matches TrayMessage::Event(TrayEvent::NewNote(_))
}

/// What one message does to the state, and the actions it asks for.
pub open spec fn update_post(s: AppView, msg: Message, t: AppView, acts: Seq<Action>) -> bool {
    match msg {
        Message::CreateNote(color) => exists|id: u64| create_note_post(s, color, id, t, acts),
        Message::TextChanged(n, text) => t == spec_text_changed(s, n, text) && acts == seq![Action::SaveNotes],
        Message::ToggleMenu(n) => is_step(spec_toggle_menu(s, n), t, acts),
        Message::ColorChanged(n, c) => is_step(spec_color_changed(s, n, c), t, acts),
        Message::ToggleAlwaysVisible(n) => edit_then_reconcile_post(pin_toggled(s, n), n, t, acts),
        Message::DeleteNote(n) => is_step(spec_delete_note(s, n), t, acts),
        Message::MoveToNextOutput(n) => is_step(spec_move_to_next_output(s, n), t, acts),
        Message::RebindApp(n) => edit_then_reconcile_post(rebound(s, n), n, t, acts),
        Message::DragStart(n) => t == spec_drag_start(s, n) && acts == Seq::<Action>::empty(),
        Message::ResizeStart(n) => t == spec_resize_start(s, n) && acts == Seq::<Action>::empty(),
        Message::WindowClosed(id) => window_closed_post(s, t, id) && acts == Seq::<Action>::empty(),
        Message::IcedEvent(id, ev) => is_step(spec_pointer_event(s, id, ev), t, acts),
        Message::ActiveAppChanged(app) => active_app_changed_post(s, app, t, acts),
        Message::TrayMessage(m) => tray_message_post(s, m, t, acts),
        Message::ToggleList => is_step(spec_toggle_list(s), t, acts),
        Message::MoveListToNextOutput => is_step(spec_move_list_to_next_output(s), t, acts),
        Message::ListDragStart => t == spec_list_drag_start(s) && acts == Seq::<Action>::empty(),
        Message::ImportNote(n) => is_step(spec_import_note(s, n), t, acts),
        Message::SetSizePreset(p) => is_step(spec_set_size_preset(s, p), t, acts),
        Message::SetOpacity(o) => t == spec_set_opacity(s, o) && acts == seq![Action::SaveSettings],
        Message::Quit => t == s && acts == seq![Action::SaveNotes, Action::Exit],
    }
}

// ---------------------------------------------------------------------------
// Note ids from the clock
// ---------------------------------------------------------------------------

#[verifier::external_type_specification]
#[verifier::external_body]
pub struct ExSystemTime(std::time::SystemTime);

#[verifier::external_type_specification]
#[verifier::external_body]
pub struct ExSystemTimeError(std::time::SystemTimeError);

/// `std::time::SystemTime::now`: the current wall-clock time. Nothing is
/// claimed of the value.
#[verifier::external_body]
fn system_time_now() -> std::time::SystemTime {
    std::time::SystemTime::now()
}

/// `SystemTime::duration_since(UNIX_EPOCH)`: the time elapsed since the
/// Unix epoch, or an error for a time before it. Nothing is claimed of the
/// value.
#[verifier::external_body]
fn duration_since_unix_epoch(t: &std::time::SystemTime) -> std::result::Result<
    core::time::Duration,
    std::time::SystemTimeError,
> {
    t.duration_since(std::time::UNIX_EPOCH)
}

/// `Duration::as_nanos`: the whole nanoseconds of a duration. Nothing is
/// claimed of the value.
#[verifier::external_body]
fn duration_as_nanos(d: &core::time::Duration) -> u128 {
    d.as_nanos()
}

/// A note id from a nanosecond timestamp: its low 64 bits, or 0 when there
/// is no timestamp.
pub fn note_id_from_nanos(nanos: Option<u128>) -> (id: u64)
    ensures
        id == match nanos {
            Some(n) => n as u64,
            None => 0,
        },
{
    match nanos {
        Some(n) => n as u64,
        None => 0,
    }
}

/// A fresh note id: nanoseconds since the Unix epoch (low 64 bits), or 0
/// when the clock reads before the epoch.
pub fn new_note_id() -> u64 {
    let now = system_time_now();
    let nanos = match duration_since_unix_epoch(&now) {
        Ok(d) => Some(duration_as_nanos(&d)),
        Err(_) => None,
    };
    note_id_from_nanos(nanos)
}

// ---------------------------------------------------------------------------
// Start-up
// ---------------------------------------------------------------------------

/// A note saved before outputs were recorded is placed on the leftmost
/// output (when any output is known).
pub open spec fn migrate_note(note: Note, outputs: Seq<OutputInfo>) -> Note {
    if outputs.len() > 0 && note.output is None {
        Note { output: Some(outputs[0].name), ..note }
    } else {
        note
    }
}

pub open spec fn migrate_notes(notes: Seq<Note>, outputs: Seq<OutputInfo>) -> Seq<Note> {
    notes.map_values(|n: Note| migrate_note(n, outputs))
}

/// Some loaded note has no recorded output while outputs are known.
pub open spec fn needs_migration(notes: Seq<Note>, outputs: Seq<OutputInfo>) -> bool {
    outputs.len() > 0 && exists|i: int| 0 <= i < notes.len() && (#[trigger] notes[i]).output is None
}

/// Notes by id; of two notes with one id the later wins.
pub open spec fn loaded_notes(ns: Seq<Note>) -> Map<u64, Note>
    decreases ns.len(),
{
    if ns.len() == 0 {
        Map::empty()
    } else {
        loaded_notes(ns.drop_last()).insert(ns.last().id, ns.last())
    }
}

/// The i-th loaded note gets surface id i.
pub open spec fn loaded_surfaces(ns: Seq<Note>) -> Map<u64, u64>
    decreases ns.len(),
{
    if ns.len() == 0 {
        Map::empty()
    } else {
        loaded_surfaces(ns.drop_last()).insert((ns.len() - 1) as u64, ns.last().id)
    }
}

pub open spec fn loaded_note_surfaces(ns: Seq<Note>) -> Map<u64, u64>
    decreases ns.len(),
{
    if ns.len() == 0 {
        Map::empty()
    } else {
        loaded_note_surfaces(ns.drop_last()).insert(ns.last().id, (ns.len() - 1) as u64)
    }
}

/// No two of the notes `ns` share an id.
pub open spec fn distinct_ids(ns: Seq<Note>) -> bool {
    forall|i: int, j: int| 0 <= i < j < ns.len() ==> ns[i].id != ns[j].id
}

/// The state right after start-up, with every loaded note shown.
pub open spec fn initial_state(settings: AppSettings, notes: Seq<Note>, outputs: Seq<OutputInfo>) -> AppView {
    let ns = migrate_notes(notes, outputs);
    AppView {
        notes: loaded_notes(ns),
        surfaces: loaded_surfaces(ns),
        note_surface: loaded_note_surfaces(ns),
        menu_open: Set::empty(),
        drag: None,
        resize: None,
        active_app: None,
        list_surface: None,
        list_output: None,
        list_pos: LIST_DEFAULT_POS,
        toolbar_surface: None,
        outputs: outputs,
        settings: settings,
        next_surface_id: ns.len() as u64,
    }
}

/// Start-up actions: save if notes were migrated, then one surface per
/// loaded note, in load order.
pub open spec fn initial_actions(settings: AppSettings, notes: Seq<Note>, outputs: Seq<OutputInfo>) -> Seq<Action> {
    let ns = migrate_notes(notes, outputs);
    (if needs_migration(notes, outputs) {
        seq![Action::SaveNotes]
    } else {
        seq![]
    }) + Seq::new(
        ns.len(),
        |j: int|
            Action::NewLayerShell {
                settings: spec_note_layer_settings(ns[j], false, outputs, settings.size_preset),
                id: j as u64,
            },
    )
}

/// Which view a surface shows.
#[derive(Clone, Copy, PartialEq, Eq, Debug, Structural)]
pub enum ViewTarget {
    List,
    Note(u64),
    Toolbar,
}

pub open spec fn spec_view_target(s: AppView, id: u64) -> ViewTarget {
    if s.list_surface == Some(id) {
        ViewTarget::List
    } else if s.surfaces.contains_key(id) && s.notes.contains_key(s.surfaces[id]) {
        ViewTarget::Note(s.surfaces[id])
    } else {
        ViewTarget::Toolbar
    }
}

/// The invariant survives an update that leaves every surface alone.
pub proof fn lemma_wf_same_surfaces(s: AppView, t: AppView)
    requires
        s.wf(),
        t.surfaces == s.surfaces,
        t.note_surface == s.note_surface,
        t.next_surface_id == s.next_surface_id,
        t.list_surface == s.list_surface,
        t.toolbar_surface == s.toolbar_surface,
        forall|n: u64| #[trigger] s.notes.contains_key(n) ==> t.notes.contains_key(n),
        forall|n: u64| #[trigger] t.notes.contains_key(n) ==> t.notes[n].id == n,
        forall|n: u64| #[trigger] t.menu_open.contains(n) ==> t.notes.contains_key(n),
        !(t.drag is Some && t.resize is Some),
        t.notes.dom().finite(),
    ensures
        t.wf(),
{
    assert forall|n: u64| #[trigger] t.note_surface.contains_key(n) implies {
        &&& t.surfaces.contains_key(t.note_surface[n])
        &&& t.surfaces[t.note_surface[n]] == n
        &&& t.notes.contains_key(n)
    } by {
        assert(s.note_surface.contains_key(n));
        assert(s.notes.contains_key(n));
    }
}

fn exec_hop_x(moving_right: bool, target_width: i32, width: i32) -> (x: i32)
    ensures
        x == hop_x(moving_right, target_width as int, width as int),
{
    if moving_right {
        8
    } else {
        let v: i64 = target_width as i64 - width as i64 - 8;
        if v < 0 {
            0
        } else if v > i32::MAX as i64 {
            i32::MAX
        } else {
            v as i32
        }
    }
}

fn exec_hop_y(y: i32, target_height: i32, height: i32) -> (r: i32)
    ensures
        r == hop_y(y as int, target_height as int, height as int),
{
    let room: i64 = target_height as i64 - height as i64;
    let max: i64 = if room < 0 {
        0
    } else {
        room
    };
    if y < 0 {
        0
    } else if y as i64 > max {
        max as i32
    } else {
        y
    }
}

/// The surfaces a visibility pass over the notes `ks` removes.
pub open spec fn removed_among(s: AppView, ks: Seq<u64>, sid: u64) -> bool {
    removed_by_reconcile(s, sid) && ks.contains(s.surfaces[sid])
}

pub proof fn lemma_index_of_increasing(ks: Seq<u64>, j: int)
    requires
        crate::keys::strictly_increasing(ks),
        0 <= j < ks.len(),
    ensures
        ks.index_of(ks[j]) == j,
{
    assert(ks.contains(ks[j]));
    let k = ks.index_of(ks[j]);
    assert(0 <= k < ks.len() && ks[k] == ks[j]);
    if k < j {
        assert(ks[k] < ks[j]);
    } else if k > j {
        assert(ks[j] < ks[k]);
    }
}

pub proof fn lemma_shown_count_bound(s: AppView, ks: Seq<u64>)
    ensures
        shown_count(s, ks) <= ks.len(),
    decreases ks.len(),
{
    if ks.len() > 0 {
        lemma_shown_count_bound(s, ks.drop_last());
    }
}

/// A prefix of `ks` gets no more new surfaces than the whole of it.
pub proof fn lemma_shown_count_prefix(s: AppView, ks: Seq<u64>, k: int)
    requires
        0 <= k <= ks.len(),
    ensures
        shown_count(s, ks.take(k)) <= shown_count(s, ks),
    decreases ks.len(),
{
    if k == ks.len() {
        assert(ks.take(k) =~= ks);
    } else {
        assert(ks.drop_last().take(k) =~= ks.take(k));
        lemma_shown_count_prefix(s, ks.drop_last(), k);
    }
}

/// The id headroom of an update covers a visibility pass.
pub proof fn lemma_headroom_fits_pass(s: AppView)
    requires
        s.wf(),
        s.has_id_headroom(),
    ensures
        s.pass_fits(),
{
    crate::keys::lemma_ascending_exists(s.notes.dom());
    lemma_shown_count_bound(s, ascending(s.notes.dom()));
}

/// A visibility pass uses at most one surface id per note.
pub proof fn lemma_pass_id_use(s: AppView, t: AppView, acts: Seq<Action>)
    requires
        s.notes.dom().finite(),
        reconcile_post(s, t, acts),
    ensures
        s.next_surface_id <= t.next_surface_id <= s.next_surface_id + s.notes.len(),
{
    crate::keys::lemma_ascending_exists(s.notes.dom());
    lemma_shown_count_bound(s, ascending(s.notes.dom()));
}

/// One update uses at most one surface id per note, plus one.
pub proof fn lemma_update_id_use(s: AppView, msg: Message, t: AppView, acts: Seq<Action>)
    requires
        s.wf(),
        s.has_id_headroom(),
        update_post(s, msg, t, acts),
    ensures
        s.next_surface_id <= t.next_surface_id <= s.next_surface_id + s.notes.len() + 1,
{
    match msg {
        Message::CreateNote(color) => {
            let id = choose|id: u64| create_note_post(s, color, id, t, acts);
        },
        Message::TrayMessage(TrayMessage::Event(TrayEvent::NewNote(color))) => {
            let id = choose|id: u64| create_note_post(s, color, id, t, acts);
        },
        Message::ToggleAlwaysVisible(n) => {
            let s2 = spec_close_menu(pin_toggled(s, n), n).0;
            assert(s2.notes.dom() =~= s.notes.dom());
            let head = seq![Action::SaveNotes] + spec_close_menu(pin_toggled(s, n), n).1;
            lemma_pass_id_use(s2, t, acts.skip(head.len() as int));
        },
        Message::RebindApp(n) => {
            let s2 = spec_close_menu(rebound(s, n), n).0;
            assert(s2.notes.dom() =~= s.notes.dom());
            let head = seq![Action::SaveNotes] + spec_close_menu(rebound(s, n), n).1;
            lemma_pass_id_use(s2, t, acts.skip(head.len() as int));
        },
        Message::ActiveAppChanged(app) => {
            if !ignores_active_app(s, app) {
                lemma_pass_id_use(AppView { active_app: Some(app), ..s }, t, acts);
            }
        },
        _ => {},
    }
}

impl PostitApp {
    fn alloc_surface_id(&mut self) -> (sid: u64)
        requires
            old(self)@.next_surface_id < u64::MAX,
        ensures
            sid == old(self)@.next_surface_id,
            final(self)@ == (AppView { next_surface_id: (sid + 1) as u64, ..old(self)@ }),
    {
        let sid = self.next_surface_id;
        self.next_surface_id = self.next_surface_id + 1;
        sid
    }

    /// Creates and removes note surfaces so that exactly the notes that
    /// should be visible have one. Notes are visited in ascending id order.
    pub fn reconcile_visibility(&mut self) -> (acts: Vec<Action>)
        requires
            old(self)@.wf(),
            old(self)@.pass_fits(),
        ensures
            final(self)@.wf(),
            reconcile_post(old(self)@, final(self)@, acts@),
            old(self)@.surfaces_paired() ==> final(self)@.surfaces_paired(),
    {
        let ghost s = self@;
        let ks = sorted_keys(&self.notes);
        let mut acts: Vec<Action> = Vec::new();
        let mut i: usize = 0;
        proof {
            assert(ks@.no_duplicates()) by {
                assert forall|a: int, b: int| 0 <= a < ks@.len() && 0 <= b < ks@.len() && a != b
                    implies ks@[a] != ks@[b] by {
                    if a < b {
                        assert(ks@[a] < ks@[b]);
                    } else {
                        assert(ks@[b] < ks@[a]);
                    }
                }
            }
            ks@.unique_seq_to_set();
        }
        while i < ks.len()
            invariant
                ks@ == ascending(s.notes.dom()),
                crate::keys::strictly_increasing(ks@),
                ks@.to_set() == s.notes.dom(),
                ks@.len() == s.notes.len(),
                0 <= i <= ks.len(),
                s.wf(),
                s.pass_fits(),
                self@.wf(),
                s.surfaces_paired() ==> self@.surfaces_paired(),
                acts@ == reconcile_actions(s, ks@.take(i as int)),
                self@.next_surface_id == s.next_surface_id + shown_count(s, ks@.take(i as int)),
                forall|j: int|
                    0 <= j < i ==> (self@.note_surface.contains_key(#[trigger] ks@[j])
                        <==> spec_should_be_visible(s.notes[ks@[j]], s.active_app)),
                forall|j: int|
                    0 <= j < i && self@.note_surface.contains_key(#[trigger] ks@[j])
                        ==> self@.note_surface[ks@[j]] == if s.note_surface.contains_key(ks@[j]) {
                        s.note_surface[ks@[j]]
                    } else {
                        (s.next_surface_id + shown_count(s, ks@.take(j))) as u64
                    },
                forall|j: int|
                    i <= j < ks@.len() ==> (self@.note_surface.contains_key(#[trigger] ks@[j])
                        <==> s.note_surface.contains_key(ks@[j])),
                forall|j: int|
                    i <= j < ks@.len() && s.note_surface.contains_key(#[trigger] ks@[j])
                        ==> self@.note_surface[ks@[j]] == s.note_surface[ks@[j]],
                forall|sid: u64| #[trigger]
                    self@.surfaces.contains_key(sid) <==> (s.surfaces.contains_key(sid)
                        && !removed_among(s, ks@.take(i as int), sid)) || (s.next_surface_id <= sid
                        < self@.next_surface_id),
                forall|sid: u64| #[trigger]
                    self@.surfaces.contains_key(sid) && sid < s.next_surface_id
                        ==> self@.surfaces[sid] == s.surfaces[sid],
                self@ == (AppView {
                    surfaces: self@.surfaces,
                    note_surface: self@.note_surface,
                    next_surface_id: self@.next_surface_id,
                    ..s
                }),
            decreases ks.len() - i,
        {
            let note_id = ks[i];
            let ghost pre = self@;
            let ghost ki = ks@.take(i as int);
            let ghost ki1 = ks@.take(i + 1);
            proof {
                assert(ki1.drop_last() =~= ki);
                assert(ki1.last() == note_id);
                assert(ks@.to_set().contains(note_id));
                lemma_shown_count_bound(s, ki);
                lemma_shown_count_prefix(s, ks@, i + 1);
            }
            let should_show = match self.notes.get(&note_id) {
                Some(note) => should_be_visible(note, &self.active_app),
                None => false,
            };
            let currently_shown = self.note_surface.contains_key(&note_id);
            if should_show && !currently_shown {
                let sid = self.alloc_surface_id();
                self.surfaces.insert(sid, note_id);
                self.note_surface.insert(note_id, sid);
                let expanded = self.menu_open.contains(&note_id);
                let settings = match self.notes.get(&note_id) {
                    Some(note) => note_layer_settings(
                        note,
                        expanded,
                        &self.outputs,
                        self.settings.size_preset,
                    ),
                    None => toolbar_layer_settings(),
                };
                acts.push(Action::NewLayerShell { settings, id: sid });
            } else if !should_show && currently_shown {
                if let Some(sid) = self.note_surface.remove(&note_id) {
                    self.surfaces.remove(&sid);
                    acts.push(Action::RemoveWindow(sid));
                }
            }
            proof {
                assert(self@.menu_open == s.menu_open);
                assert(self@.notes == s.notes);
                assert forall|n: u64| #[trigger] self@.note_surface.contains_key(n) implies {
                    &&& self@.surfaces.contains_key(self@.note_surface[n])
                    &&& self@.surfaces[self@.note_surface[n]] == n
                    &&& self@.notes.contains_key(n)
                } by {
                    if n != note_id {
                        assert(pre.note_surface.contains_key(n));
                        assert(pre.surfaces[pre.note_surface[n]] == n);
                    }
                }
                assert forall|n: u64| #[trigger] self@.menu_open.contains(n) implies self@.notes.contains_key(n) by {
                    assert(s.menu_open.contains(n));
                }
                if s.surfaces_paired() {
                    assert forall|sid: u64| #[trigger] self@.surfaces.contains_key(sid) implies {
                        &&& self@.note_surface.contains_key(self@.surfaces[sid])
                        &&& self@.note_surface[self@.surfaces[sid]] == sid
                    } by {
                        if pre.surfaces.contains_key(sid) {
                            assert(pre.note_surface.contains_key(pre.surfaces[sid]));
                        }
                    }
                }
                assert forall|j: int|
                    0 <= j < i + 1 && self@.note_surface.contains_key(#[trigger] ks@[j])
                        implies self@.note_surface[ks@[j]] == if s.note_surface.contains_key(ks@[j]) {
                        s.note_surface[ks@[j]]
                    } else {
                        (s.next_surface_id + shown_count(s, ks@.take(j))) as u64
                    } by {
                    if j < i {
                        assert(ks@[j] < ks@[i as int]);
                    }
                }
                assert forall|j: int|
                    i + 1 <= j < ks@.len() implies (self@.note_surface.contains_key(#[trigger] ks@[j])
                        <==> s.note_surface.contains_key(ks@[j])) by {
                    assert(ks@[i as int] < ks@[j]);
                }
                assert forall|j: int|
                    0 <= j < i + 1 implies (self@.note_surface.contains_key(#[trigger] ks@[j])
                        <==> spec_should_be_visible(s.notes[ks@[j]], s.active_app)) by {
                    if j < i {
                        assert(ks@[j] < ks@[i as int]);
                    }
                }
                assert forall|sid: u64| #[trigger]
                    self@.surfaces.contains_key(sid) <==> (s.surfaces.contains_key(sid)
                        && !removed_among(s, ki1, sid)) || (s.next_surface_id <= sid
                        < self@.next_surface_id) by {
                    if s.surfaces.contains_key(sid) && removed_among(s, ki1, sid) {
                        let k = ki1.index_of(s.surfaces[sid]);
                        if k < i {
                            assert(ki.contains(s.surfaces[sid]));
                        }
                    }
                    if s.surfaces.contains_key(sid) && removed_among(s, ki, sid) {
                        let k = ki.index_of(s.surfaces[sid]);
                        assert(ki1[k] == ki[k]);
                    }
                    if s.surfaces.contains_key(sid) && sid < s.next_surface_id && s.surfaces[sid] == note_id
                        && removed_by_reconcile(s, sid) {
                        assert(ki1[i as int] == note_id);
                    }
                }
                assert(self@ == (AppView {
                    surfaces: self@.surfaces,
                    note_surface: self@.note_surface,
                    next_surface_id: self@.next_surface_id,
                    ..s
                }));
            }
            i = i + 1;
        }
        proof {
            let ks_all = ks@;
            assert(ks_all.take(ks_all.len() as int) =~= ks_all);
            assert forall|n: u64| #[trigger] self@.note_surface.contains_key(n) implies self@.note_surface[n] == if s.note_surface.contains_key(n) {
                s.note_surface[n]
            } else {
                new_surface_of(s, ks_all, n)
            } by {
                assert(s.notes.contains_key(n));
                assert(ks_all.to_set().contains(n));
                let j = ks_all.index_of(n);
                lemma_index_of_increasing(ks_all, j);
            }
            assert forall|n: u64| #[trigger]
                self@.note_surface.contains_key(n) <==> s.notes.contains_key(n) && spec_should_be_visible(
                    s.notes[n],
                    s.active_app,
                ) by {
                if s.notes.contains_key(n) {
                    assert(ks_all.to_set().contains(n));
                    let j = ks_all.index_of(n);
                }
            }
            assert forall|sid: u64| #[trigger]
                self@.surfaces.contains_key(sid) <==> (s.surfaces.contains_key(sid) && !removed_by_reconcile(
                    s,
                    sid,
                )) || (s.next_surface_id <= sid < self@.next_surface_id) by {
                if s.surfaces.contains_key(sid) && removed_by_reconcile(s, sid) {
                    assert(s.notes.contains_key(s.surfaces[sid]));
                    assert(ks_all.to_set().contains(s.surfaces[sid]));
                }
            }
        }
        acts
    }

    /// Opens or closes note `n`'s inline menu and resizes its surface.
    pub fn toggle_menu(&mut self, n: u64) -> (acts: Vec<Action>)
        requires
            old(self)@.wf(),
        ensures
            final(self)@.wf(),
            old(self)@.surfaces_paired() ==> final(self)@.surfaces_paired(),
            final(self)@ == spec_toggle_menu(old(self)@, n).0,
            acts@ == spec_toggle_menu(old(self)@, n).1,
    {
        let ghost s = self@;
        let surface_id = match self.note_surface.get(&n) {
            Some(sid) => *sid,
            None => {
                return Vec::new();
            },
        };
        let expanded = if self.menu_open.contains(&n) {
            self.menu_open.remove(&n);
            false
        } else {
            self.menu_open.insert(n);
            true
        };
        let size = self.note_size(n, expanded);
        proof {
            assert(s.note_surface.contains_key(n));
            assert(s.notes.contains_key(n));
            lemma_wf_same_surfaces(s, self@);
        }
        let mut acts = Vec::new();
        acts.push(Action::SizeChange { id: surface_id, size });
        proof {
            assert(acts@ =~= spec_toggle_menu(s, n).1);
        }
        acts
    }

    fn note_size(&self, n: u64, expanded: bool) -> (size: (u32, u32))
        ensures
            size == note_surface_size(self@, n, expanded),
    {
        let preset = self.settings.size_preset;
        let w = match self.notes.get(&n) {
            Some(note) => note.width,
            None => preset.default_note_width(),
        };
        let min = preset.min_note_width();
        let width = if expanded && w < min {
            min
        } else {
            w
        };
        let height = if expanded {
            preset.note_expanded_height()
        } else {
            preset.note_height()
        };
        (width as u32, height)
    }

    /// Closes note `n`'s menu if it is open, shrinking the surface back.
    fn close_menu(&mut self, n: u64) -> (acts: Vec<Action>)
        requires
            old(self)@.wf(),
        ensures
            final(self)@.wf(),
            old(self)@.surfaces_paired() ==> final(self)@.surfaces_paired(),
            final(self)@ == spec_close_menu(old(self)@, n).0,
            acts@ == spec_close_menu(old(self)@, n).1,
    {
        let ghost s = self@;
        let mut acts = Vec::new();
        if let Some(sid) = self.note_surface.get(&n) {
            let sid = *sid;
            if self.menu_open.remove(&n) {
                let size = self.note_size(n, false);
                acts.push(Action::SizeChange { id: sid, size });
            }
        }
        proof {
            assert forall|m: u64| #[trigger] self@.menu_open.contains(m) implies self@.notes.contains_key(m) by {
                assert(s.menu_open.contains(m));
            }
            lemma_wf_same_surfaces(s, self@);
            assert(acts@ =~= spec_close_menu(s, n).1);
            if !(s.note_surface.contains_key(n) && s.menu_open.contains(n)) {
                assert(self@.menu_open =~= s.menu_open);
            }
        }
        acts
    }

    /// Replaces note `n`'s text.
    pub fn text_changed(&mut self, n: u64, text: String) -> (acts: Vec<Action>)
        requires
            old(self)@.wf(),
        ensures
            final(self)@.wf(),
            old(self)@.surfaces_paired() ==> final(self)@.surfaces_paired(),
            final(self)@ == spec_text_changed(old(self)@, n, text),
            acts@ == seq![Action::SaveNotes],
    {
        let ghost s = self@;
        if let Some(mut note) = self.notes.remove(&n) {
            note.text = text;
            self.notes.insert(n, note);
        }
        proof {
            if !s.notes.contains_key(n) {
                assert(self@.notes =~= s.notes);
            }
            assert(self@.menu_open == s.menu_open);
            lemma_wf_same_surfaces(s, self@);
        }
        let mut acts = Vec::new();
        acts.push(Action::SaveNotes);
        acts
    }

    /// Recolors note `n` and closes its menu.
    pub fn color_changed(&mut self, n: u64, color: NoteColor) -> (acts: Vec<Action>)
        requires
            old(self)@.wf(),
        ensures
            final(self)@.wf(),
            old(self)@.surfaces_paired() ==> final(self)@.surfaces_paired(),
            final(self)@ == spec_color_changed(old(self)@, n, color).0,
            acts@ == spec_color_changed(old(self)@, n, color).1,
    {
        let ghost s = self@;
        if let Some(mut note) = self.notes.remove(&n) {
            note.color = color;
            self.notes.insert(n, note);
        }
        proof {
            if !s.notes.contains_key(n) {
                assert(self@.notes =~= s.notes);
            }
            assert(self@.menu_open == s.menu_open);
            lemma_wf_same_surfaces(s, self@);
            assert(self@ == recolored(s, n, color));
        }
        let mut acts = Vec::new();
        acts.push(Action::SaveNotes);
        let mut closing = self.close_menu(n);
        acts.append(&mut closing);
        acts
    }

    /// Pins or unpins note `n`, closes its menu, and re-runs the visibility
    /// pass.
    pub fn toggle_always_visible(&mut self, n: u64) -> (acts: Vec<Action>)
        requires
            old(self)@.wf(),
            old(self)@.has_id_headroom(),
        ensures
            final(self)@.wf(),
            old(self)@.surfaces_paired() ==> final(self)@.surfaces_paired(),
            edit_then_reconcile_post(pin_toggled(old(self)@, n), n, final(self)@, acts@),
    {
        let ghost s = self@;
        if let Some(mut note) = self.notes.remove(&n) {
            note.always_visible = !note.always_visible;
            self.notes.insert(n, note);
        }
        proof {
            if !s.notes.contains_key(n) {
                assert(self@.notes =~= s.notes);
            }
            assert(self@.menu_open == s.menu_open);
            lemma_wf_same_surfaces(s, self@);
            assert(self@ == pin_toggled(s, n));
        }
        self.close_then_reconcile(n)
    }

    /// Rebinds note `n` to the active program, closes its menu, and re-runs
    /// the visibility pass.
    pub fn rebind_app(&mut self, n: u64) -> (acts: Vec<Action>)
        requires
            old(self)@.wf(),
            old(self)@.has_id_headroom(),
        ensures
            final(self)@.wf(),
            old(self)@.surfaces_paired() ==> final(self)@.surfaces_paired(),
            edit_then_reconcile_post(rebound(old(self)@, n), n, final(self)@, acts@),
    {
        let ghost s = self@;
        if let Some(mut note) = self.notes.remove(&n) {
            note.bound_app = copy_opt_string(&self.active_app);
            self.notes.insert(n, note);
        }
        proof {
            if !s.notes.contains_key(n) {
                assert(self@.notes =~= s.notes);
            }
            assert(self@.menu_open == s.menu_open);
            lemma_wf_same_surfaces(s, self@);
            assert(self@ == rebound(s, n));
        }
        self.close_then_reconcile(n)
    }

    fn close_then_reconcile(&mut self, n: u64) -> (acts: Vec<Action>)
        requires
            old(self)@.wf(),
            old(self)@.has_id_headroom(),
        ensures
            final(self)@.wf(),
            old(self)@.surfaces_paired() ==> final(self)@.surfaces_paired(),
            edit_then_reconcile_post(old(self)@, n, final(self)@, acts@),
    {
        let ghost s1 = self@;
        let mut acts = Vec::new();
        acts.push(Action::SaveNotes);
        let mut closing = self.close_menu(n);
        acts.append(&mut closing);
        let ghost head = acts@;
        proof {
            lemma_headroom_fits_pass(self@);
        }
        let mut rest = self.reconcile_visibility();
        let ghost rest_v = rest@;
        acts.append(&mut rest);
        proof {
            assert(head =~= seq![Action::SaveNotes] + spec_close_menu(s1, n).1);
            assert(acts@.take(head.len() as int) =~= head);
            assert(acts@.skip(head.len() as int) =~= rest_v);
        }
        acts
    }

    /// Deletes note `n` and its surface.
    pub fn delete_note(&mut self, n: u64) -> (acts: Vec<Action>)
        requires
            old(self)@.wf(),
        ensures
            final(self)@.wf(),
            old(self)@.surfaces_paired() ==> final(self)@.surfaces_paired(),
            final(self)@ == spec_delete_note(old(self)@, n).0,
            acts@ == spec_delete_note(old(self)@, n).1,
    {
        let ghost s = self@;
        self.menu_open.remove(&n);
        self.notes.remove(&n);
        let mut acts = Vec::new();
        if let Some(sid) = self.note_surface.remove(&n) {
            self.surfaces.remove(&sid);
            acts.push(Action::RemoveWindow(sid));
        }
        acts.push(Action::SaveNotes);
        proof {
            assert forall|m: u64| #[trigger] self@.note_surface.contains_key(m) implies {
                &&& self@.surfaces.contains_key(self@.note_surface[m])
                &&& self@.surfaces[self@.note_surface[m]] == m
                &&& self@.notes.contains_key(m)
            } by {
                assert(s.note_surface.contains_key(m));
                assert(s.surfaces[s.note_surface[m]] == m);
            }
            assert forall|m: u64| #[trigger] self@.menu_open.contains(m) implies self@.notes.contains_key(m) by {
                assert(s.menu_open.contains(m));
            }
            assert(forall|x: u64| #[trigger] self@.surfaces.contains_key(x) ==> s.surfaces.contains_key(x));
            assert(forall|m: u64| #[trigger] self@.notes.contains_key(m) ==> s.notes.contains_key(m));
            assert(acts@ =~= spec_delete_note(s, n).1);
        }
        acts
    }

    /// Starts dragging note `n` by its grip; ends any resize.
    pub fn drag_start(&mut self, n: u64)
        requires
            old(self)@.wf(),
        ensures
            final(self)@.wf(),
            old(self)@.surfaces_paired() ==> final(self)@.surfaces_paired(),
            final(self)@ == spec_drag_start(old(self)@, n),
    {
        let ghost s = self@;
        if let Some(sid) = self.note_surface.get(&n) {
            let sid = *sid;
            if let Some(note) = self.notes.get(&n) {
                let start = (note.x, note.y);
                self.resize = None;
                self.drag = Some(
                    DragState {
                        target: DragTarget::Note(n),
                        surface_id: sid,
                        start,
                        press: None,
                        last_apply: None,
                    },
                );
            }
        }
        proof {
            lemma_wf_same_surfaces(s, self@);
        }
    }

    /// Starts resizing note `n` by its handle; ends any drag.
    pub fn resize_start(&mut self, n: u64)
        requires
            old(self)@.wf(),
        ensures
            final(self)@.wf(),
            old(self)@.surfaces_paired() ==> final(self)@.surfaces_paired(),
            final(self)@ == spec_resize_start(old(self)@, n),
    {
        let ghost s = self@;
        if let Some(sid) = self.note_surface.get(&n) {
            let sid = *sid;
            if let Some(note) = self.notes.get(&n) {
                let start_width = note.width;
                self.drag = None;
                self.resize = Some(
                    ResizeState {
                        note_id: n,
                        surface_id: sid,
                        start_width,
                        press: None,
                        last_apply: None,
                    },
                );
            }
        }
        proof {
            lemma_wf_same_surfaces(s, self@);
        }
    }

    /// Starts dragging the list panel by its grip; ends any resize.
    pub fn list_drag_start(&mut self)
        requires
            old(self)@.wf(),
        ensures
            final(self)@.wf(),
            old(self)@.surfaces_paired() ==> final(self)@.surfaces_paired(),
            final(self)@ == spec_list_drag_start(old(self)@),
    {
        let ghost s = self@;
        if let Some(sid) = self.list_surface {
            self.resize = None;
            self.drag = Some(
                DragState {
                    target: DragTarget::List,
                    surface_id: sid,
                    start: self.list_pos,
                    press: None,
                    last_apply: None,
                },
            );
        }
        proof {
            lemma_wf_same_surfaces(s, self@);
        }
    }

    /// Opens or closes the note list panel.
    pub fn toggle_list(&mut self) -> (acts: Vec<Action>)
        requires
            old(self)@.wf(),
            old(self)@.has_id_headroom(),
        ensures
            final(self)@.wf(),
            old(self)@.surfaces_paired() ==> final(self)@.surfaces_paired(),
            final(self)@ == spec_toggle_list(old(self)@).0,
            acts@ == spec_toggle_list(old(self)@).1,
    {
        let ghost s = self@;
        let mut acts = Vec::new();
        match self.list_surface {
            Some(sid) => {
                self.list_surface = None;
                acts.push(Action::RemoveWindow(sid));
            },
            None => {
                let sid = self.alloc_surface_id();
                self.list_surface = Some(sid);
                let settings = list_layer_settings(&self.list_output, &self.outputs, self.list_pos);
                acts.push(Action::NewLayerShell { settings, id: sid });
            },
        }
        proof {
            assert(self@.menu_open == s.menu_open);
            assert forall|m: u64| #[trigger] self@.note_surface.contains_key(m) implies {
                &&& self@.surfaces.contains_key(self@.note_surface[m])
                &&& self@.surfaces[self@.note_surface[m]] == m
                &&& self@.notes.contains_key(m)
            } by {
                assert(s.note_surface.contains_key(m));
            }
            assert forall|m: u64| #[trigger] self@.menu_open.contains(m) implies self@.notes.contains_key(m) by {
                assert(s.menu_open.contains(m));
            }
            assert(acts@ =~= spec_toggle_list(s).1);
        }
        acts
    }

    /// Closes note `n`'s surface (if any) and creates a fresh one from its
    /// current fields.
    fn recreate_note_surface(&mut self, n: u64) -> (acts: Vec<Action>)
        requires
            old(self)@.wf(),
            old(self)@.next_surface_id < u64::MAX,
        ensures
            final(self)@.wf(),
            old(self)@.surfaces_paired() ==> final(self)@.surfaces_paired(),
            final(self)@ == spec_recreate_note_surface(old(self)@, n).0,
            acts@ == spec_recreate_note_surface(old(self)@, n).1,
    {
        let ghost s = self@;
        let mut acts = Vec::new();
        if let Some(old_sid) = self.note_surface.remove(&n) {
            self.surfaces.remove(&old_sid);
            acts.push(Action::RemoveWindow(old_sid));
        }
        let ghost s1 = self@;
        proof {
            assert(self@.menu_open == s.menu_open);
            assert forall|m: u64| #[trigger] self@.note_surface.contains_key(m) implies {
                &&& self@.surfaces.contains_key(self@.note_surface[m])
                &&& self@.surfaces[self@.note_surface[m]] == m
                &&& self@.notes.contains_key(m)
            } by {
                assert(s.note_surface.contains_key(m));
                assert(s.surfaces[s.note_surface[m]] == m);
            }
            assert forall|m: u64| #[trigger] self@.menu_open.contains(m) implies self@.notes.contains_key(m) by {
                assert(s.menu_open.contains(m));
            }
            assert(forall|x: u64| #[trigger] self@.surfaces.contains_key(x) ==> s.surfaces.contains_key(x));
            if !s.note_surface.contains_key(n) {
                assert(self@.note_surface =~= s.note_surface);
                assert(self@.surfaces =~= s.surfaces);
            }
        }
        if !self.notes.contains_key(&n) {
            proof {
                assert(acts@ =~= spec_recreate_note_surface(s, n).1);
            }
            return acts;
        }
        let sid = self.alloc_surface_id();
        self.surfaces.insert(sid, n);
        self.note_surface.insert(n, sid);
        let expanded = self.menu_open.contains(&n);
        let settings = match self.notes.get(&n) {
            Some(note) => note_layer_settings(note, expanded, &self.outputs, self.settings.size_preset),
            None => toolbar_layer_settings(),
        };
        let margin = settings.margin;
        acts.push(Action::NewLayerShell { settings, id: sid });
        acts.push(Action::MarginChange { id: sid, margin });
        proof {
            assert(self@.menu_open == s.menu_open);
            assert forall|m: u64| #[trigger] self@.note_surface.contains_key(m) implies {
                &&& self@.surfaces.contains_key(self@.note_surface[m])
                &&& self@.surfaces[self@.note_surface[m]] == m
                &&& self@.notes.contains_key(m)
            } by {
                if m != n {
                    assert(s1.note_surface.contains_key(m));
                    assert(s1.surfaces[s1.note_surface[m]] == m);
                }
            }
            assert forall|m: u64| #[trigger] self@.menu_open.contains(m) implies self@.notes.contains_key(m) by {
                assert(s.menu_open.contains(m));
            }
            assert(acts@ =~= spec_recreate_note_surface(s, n).1);
        }
        acts
    }

    /// Closes the list panel's surface and creates a fresh one from the
    /// panel's output and position; nothing if the panel is closed.
    fn recreate_list_surface(&mut self) -> (acts: Vec<Action>)
        requires
            old(self)@.wf(),
            old(self)@.next_surface_id < u64::MAX,
        ensures
            final(self)@.wf(),
            old(self)@.surfaces_paired() ==> final(self)@.surfaces_paired(),
            final(self)@ == spec_recreate_list_surface(old(self)@).0,
            acts@ == spec_recreate_list_surface(old(self)@).1,
    {
        let ghost s = self@;
        let mut acts = Vec::new();
        let old_sid = match self.list_surface {
            Some(sid) => sid,
            None => {
                return acts;
            },
        };
        acts.push(Action::RemoveWindow(old_sid));
        let sid = self.alloc_surface_id();
        self.list_surface = Some(sid);
        let settings = list_layer_settings(&self.list_output, &self.outputs, self.list_pos);
        let margin = (self.list_pos.1, 0, 0, self.list_pos.0);
        acts.push(Action::NewLayerShell { settings, id: sid });
        acts.push(Action::MarginChange { id: sid, margin });
        proof {
            assert(self@.menu_open == s.menu_open);
            assert forall|m: u64| #[trigger] self@.note_surface.contains_key(m) implies {
                &&& self@.surfaces.contains_key(self@.note_surface[m])
                &&& self@.surfaces[self@.note_surface[m]] == m
                &&& self@.notes.contains_key(m)
            } by {
                assert(s.note_surface.contains_key(m));
            }
            assert forall|m: u64| #[trigger] self@.menu_open.contains(m) implies self@.notes.contains_key(m) by {
                assert(s.menu_open.contains(m));
            }
            assert(acts@ =~= spec_recreate_list_surface(s).1);
        }
        acts
    }

    /// Cycles note `n` to the next output at position (160, 160), with its
    /// menu closed.
    pub fn move_to_next_output(&mut self, n: u64) -> (acts: Vec<Action>)
        requires
            old(self)@.wf(),
            old(self)@.has_id_headroom(),
        ensures
            final(self)@.wf(),
            old(self)@.surfaces_paired() ==> final(self)@.surfaces_paired(),
            final(self)@ == spec_move_to_next_output(old(self)@, n).0,
            acts@ == spec_move_to_next_output(old(self)@, n).1,
    {
        let ghost s = self@;
        if self.outputs.len() < 2 || !self.notes.contains_key(&n) {
            return Vec::new();
        }
        self.menu_open.remove(&n);
        let mut note = self.notes.remove(&n).unwrap();
        let cur = match &note.output {
            Some(name) => match find_output(&self.outputs, name) {
                Some(i) => i,
                None => 0,
            },
            None => 0,
        };
        let next_name = self.outputs[(cur + 1) % self.outputs.len()].name.clone();
        note.output = Some(next_name);
        note.x = 160;
        note.y = 160;
        self.notes.insert(n, note);
        proof {
            assert(self@.notes.dom() =~= s.notes.dom());
            assert forall|m: u64| #[trigger] self@.menu_open.contains(m) implies self@.notes.contains_key(m) by {
                assert(s.menu_open.contains(m));
            }
            lemma_wf_same_surfaces(s, self@);
        }
        let mut acts = self.recreate_note_surface(n);
        acts.push(Action::SaveNotes);
        acts
    }

    /// Cycles the open list panel to the next output at its default
    /// position; nothing if the panel is closed or there is only one output.
    pub fn move_list_to_next_output(&mut self) -> (acts: Vec<Action>)
        requires
            old(self)@.wf(),
            old(self)@.has_id_headroom(),
        ensures
            final(self)@.wf(),
            old(self)@.surfaces_paired() ==> final(self)@.surfaces_paired(),
            final(self)@ == spec_move_list_to_next_output(old(self)@).0,
            acts@ == spec_move_list_to_next_output(old(self)@).1,
    {
        let ghost s = self@;
        if self.outputs.len() < 2 || self.list_surface.is_none() {
            return Vec::new();
        }
        let cur = match &self.list_output {
            Some(name) => match find_output(&self.outputs, name) {
                Some(i) => i,
                None => 0,
            },
            None => 0,
        };
        let next_name = self.outputs[(cur + 1) % self.outputs.len()].name.clone();
        self.list_output = Some(next_name);
        self.list_pos = LIST_DEFAULT_POS;
        proof {
            assert(self@.menu_open == s.menu_open);
            lemma_wf_same_surfaces(s, self@);
        }
        self.recreate_list_surface()
    }

    /// After a note drag ends: if the note touches the left or right edge of
    /// its output and an output lies beyond that edge, moves the note there
    /// and recreates its surface.
    fn maybe_hop_output(&mut self, n: u64) -> (acts: Vec<Action>)
        requires
            old(self)@.wf(),
            old(self)@.has_id_headroom(),
        ensures
            final(self)@.wf(),
            old(self)@.surfaces_paired() ==> final(self)@.surfaces_paired(),
            final(self)@ == spec_maybe_hop_output(old(self)@, n).0,
            acts@ == spec_maybe_hop_output(old(self)@, n).1,
    {
        let ghost s = self@;
        if self.outputs.len() < 2 {
            return Vec::new();
        }
        let (cur, note_x, note_y, note_width) = match self.notes.get(&n) {
            None => {
                return Vec::new();
            },
            Some(note) => match &note.output {
                None => {
                    return Vec::new();
                },
                Some(name) => match find_output(&self.outputs, name) {
                    None => {
                        return Vec::new();
                    },
                    Some(i) => (i, note.x, note.y, note.width),
                },
            },
        };
        let current_width = self.outputs[cur].width;
        let at_left_edge = note_x <= 2;
        let at_right_edge = note_x as i64 + note_width as i64 >= current_width as i64 - 2;
        let target_index = if at_right_edge && cur + 1 < self.outputs.len() {
            cur + 1
        } else if at_left_edge && cur > 0 {
            cur - 1
        } else {
            return Vec::new();
        };
        let moving_right = target_index > cur;
        let target_width = self.outputs[target_index].width;
        let target_height = self.outputs[target_index].height;
        let new_x = exec_hop_x(moving_right, target_width, note_width);
        let new_y = exec_hop_y(note_y, target_height, self.settings.size_preset.note_height() as i32);
        let target_name = self.outputs[target_index].name.clone();
        let mut note = self.notes.remove(&n).unwrap();
        note.output = Some(target_name);
        note.x = new_x;
        note.y = new_y;
        self.notes.insert(n, note);
        proof {
            assert(self@.notes.dom() =~= s.notes.dom());
            assert(self@.menu_open == s.menu_open);
            lemma_wf_same_surfaces(s, self@);
        }
        self.recreate_note_surface(n)
    }

    /// After a list drag ends: the same edge hop as for notes, for the list
    /// panel (an unknown output counts as the first one).
    fn maybe_hop_list_output(&mut self) -> (acts: Vec<Action>)
        requires
            old(self)@.wf(),
            old(self)@.has_id_headroom(),
        ensures
            final(self)@.wf(),
            old(self)@.surfaces_paired() ==> final(self)@.surfaces_paired(),
            final(self)@ == spec_maybe_hop_list_output(old(self)@).0,
            acts@ == spec_maybe_hop_list_output(old(self)@).1,
    {
        let ghost s = self@;
        if self.outputs.len() < 2 {
            return Vec::new();
        }
        let cur = match &self.list_output {
            Some(name) => match find_output(&self.outputs, name) {
                Some(i) => i,
                None => 0,
            },
            None => 0,
        };
        let (list_x, list_y) = self.list_pos;
        let current_width = self.outputs[cur].width;
        let at_left_edge = list_x <= 2;
        let at_right_edge = list_x as i64 + LIST_SIZE.0 as i64 >= current_width as i64 - 2;
        let target_index = if at_right_edge && cur + 1 < self.outputs.len() {
            cur + 1
        } else if at_left_edge && cur > 0 {
            cur - 1
        } else {
            return Vec::new();
        };
        let moving_right = target_index > cur;
        let target_width = self.outputs[target_index].width;
        let target_height = self.outputs[target_index].height;
        let new_x = exec_hop_x(moving_right, target_width, LIST_SIZE.0 as i32);
        let new_y = exec_hop_y(list_y, target_height, LIST_SIZE.1 as i32);
        self.list_output = Some(self.outputs[target_index].name.clone());
        self.list_pos = (new_x, new_y);
        proof {
            assert(self@.menu_open == s.menu_open);
            lemma_wf_same_surfaces(s, self@);
        }
        self.recreate_list_surface()
    }

    /// Brings note `n` to a cascaded on-screen position; a note without a
    /// surface is moved to the leftmost output and shown.
    pub fn import_note(&mut self, n: u64) -> (acts: Vec<Action>)
        requires
            old(self)@.wf(),
            old(self)@.has_id_headroom(),
        ensures
            final(self)@.wf(),
            old(self)@.surfaces_paired() ==> final(self)@.surfaces_paired(),
            final(self)@ == spec_import_note(old(self)@, n).0,
            acts@ == spec_import_note(old(self)@, n).1,
    {
        let ghost s = self@;
        if !self.notes.contains_key(&n) {
            return Vec::new();
        }
        let step = (self.note_surface.len() as i32).wrapping_mul(24i32);
        let pos = 160i32.wrapping_add(step);
        let has_surface = self.note_surface.contains_key(&n);
        let mut note = self.notes.remove(&n).unwrap();
        note.x = pos;
        note.y = pos;
        if !has_surface && self.outputs.len() > 0 {
            note.output = Some(self.outputs[0].name.clone());
        }
        self.notes.insert(n, note);
        proof {
            assert(self@.notes.dom() =~= s.notes.dom());
            assert(self@.menu_open == s.menu_open);
            lemma_wf_same_surfaces(s, self@);
        }
        let ghost s1 = self@;
        let mut acts = Vec::new();
        acts.push(Action::SaveNotes);
        match self.note_surface.get(&n) {
            Some(sid) => {
                let sid = *sid;
                acts.push(Action::MarginChange { id: sid, margin: (pos, 0, 0, pos) });
            },
            None => {
                let sid = self.alloc_surface_id();
                self.surfaces.insert(sid, n);
                self.note_surface.insert(n, sid);
                let expanded = self.menu_open.contains(&n);
                let settings = match self.notes.get(&n) {
                    Some(note) => note_layer_settings(
                        note,
                        expanded,
                        &self.outputs,
                        self.settings.size_preset,
                    ),
                    None => toolbar_layer_settings(),
                };
                acts.push(Action::NewLayerShell { settings, id: sid });
                proof {
                    assert(self@.menu_open == s.menu_open);
                    assert forall|m: u64| #[trigger] self@.note_surface.contains_key(m) implies {
                        &&& self@.surfaces.contains_key(self@.note_surface[m])
                        &&& self@.surfaces[self@.note_surface[m]] == m
                        &&& self@.notes.contains_key(m)
                    } by {
                        if m != n {
                            assert(s1.note_surface.contains_key(m));
                            assert(s1.surfaces[s1.note_surface[m]] == m);
                        }
                    }
                    assert forall|m: u64| #[trigger] self@.menu_open.contains(m) implies self@.notes.contains_key(m) by {
                        assert(s.menu_open.contains(m));
                    }
                }
            },
        }
        proof {
            assert(acts@ =~= spec_import_note(s, n).1);
        }
        acts
    }

    /// Creates a note with the given id (see `create_note_post`).
    pub fn create_note_with_id(&mut self, color: NoteColor, id: u64) -> (acts: Vec<Action>)
        requires
            old(self)@.wf(),
            old(self)@.has_id_headroom(),
        ensures
            final(self)@.wf(),
            create_note_post(old(self)@, color, id, final(self)@, acts@),
            old(self)@.surfaces_paired() && !old(self)@.notes.contains_key(id)
                ==> final(self)@.surfaces_paired(),
    {
        let ghost s = self@;
        let step = ((self.notes.len() % 10) as i32) * 24;
        let pos = 120 + step;
        let bound_app = copy_opt_string(&self.active_app);
        let mut note = Note::new(id, color, pos, pos, bound_app);
        note.width = self.settings.size_preset.default_note_width();
        if self.outputs.len() > 0 {
            note.output = Some(self.outputs[0].name.clone());
        }
        let sid = self.alloc_surface_id();
        self.surfaces.insert(sid, id);
        self.note_surface.insert(id, sid);
        let settings = note_layer_settings(&note, false, &self.outputs, self.settings.size_preset);
        let ghost created = note;
        self.notes.insert(id, note);
        let mut acts = Vec::new();
        acts.push(Action::SaveNotes);
        acts.push(Action::NewLayerShell { settings, id: sid });
        acts.push(Action::FocusNoteInput(id));
        proof {
            assert(self@.notes[id] == created);
            assert(self@.menu_open == s.menu_open);
            assert forall|m: u64| #[trigger] self@.note_surface.contains_key(m) implies {
                &&& self@.surfaces.contains_key(self@.note_surface[m])
                &&& self@.surfaces[self@.note_surface[m]] == m
                &&& self@.notes.contains_key(m)
            } by {
                if m != id {
                    assert(s.note_surface.contains_key(m));
                    assert(s.surfaces[s.note_surface[m]] == m);
                }
            }
            assert forall|m: u64| #[trigger] self@.menu_open.contains(m) implies self@.notes.contains_key(m) by {
                assert(s.menu_open.contains(m));
            }
            assert forall|m: u64| #[trigger] self@.notes.contains_key(m) implies self@.notes[m].id == m by {
                if m != id {
                    assert(s.notes.contains_key(m));
                }
            }
            assert(acts@ =~= seq![
                Action::SaveNotes,
                Action::NewLayerShell {
                    settings: spec_note_layer_settings(created, false, s.outputs, s.settings.size_preset),
                    id: sid,
                },
                Action::FocusNoteInput(id),
            ]);
        }
        acts
    }

    /// Switches the size preset, saves the settings, and resizes every shown
    /// note.
    pub fn set_size_preset(&mut self, preset: SizePreset) -> (acts: Vec<Action>)
        requires
            old(self)@.wf(),
        ensures
            final(self)@.wf(),
            old(self)@.surfaces_paired() ==> final(self)@.surfaces_paired(),
            final(self)@ == spec_set_size_preset(old(self)@, preset).0,
            acts@ == spec_set_size_preset(old(self)@, preset).1,
    {
        let ghost s = self@;
        self.settings.size_preset = preset;
        proof {
            assert(self@.menu_open == s.menu_open);
            lemma_wf_same_surfaces(s, self@);
        }
        let ghost t = self@;
        let mut acts = Vec::new();
        acts.push(Action::SaveSettings);
        let ids = sorted_keys(&self.note_surface);
        let ghost expected = ascending(s.note_surface.dom()).map_values(
            |n: u64| preset_resize_action(t, n),
        );
        let mut i: usize = 0;
        while i < ids.len()
            invariant
                self@ == t,
                t.wf(),
                ids@ == ascending(s.note_surface.dom()),
                ids@.to_set() == t.note_surface.dom(),
                expected == ids@.map_values(|n: u64| preset_resize_action(t, n)),
                0 <= i <= ids.len(),
                acts@ == seq![Action::SaveSettings] + expected.take(i as int),
            decreases ids.len() - i,
        {
            let n = ids[i];
            proof {
                assert(ids@.to_set().contains(n));
            }
            let sid = *self.note_surface.get(&n).unwrap();
            let expanded = self.menu_open.contains(&n);
            let size = self.note_size(n, expanded);
            acts.push(Action::SizeChange { id: sid, size });
            proof {
                assert(expected.take(i + 1) =~= expected.take(i as int).push(expected[i as int]));
                assert(acts@ =~= seq![Action::SaveSettings] + expected.take(i + 1));
            }
            i = i + 1;
        }
        proof {
            assert(expected.take(ids@.len() as int) =~= expected);
            assert(self@.surfaces == s.surfaces && self@.note_surface == s.note_surface);
        }
        acts
    }

    /// Sets the note opacity (percent) and saves the settings.
    pub fn set_opacity(&mut self, opacity: u8) -> (acts: Vec<Action>)
        requires
            old(self)@.wf(),
        ensures
            final(self)@.wf(),
            old(self)@.surfaces_paired() ==> final(self)@.surfaces_paired(),
            final(self)@ == spec_set_opacity(old(self)@, opacity),
            acts@ == seq![Action::SaveSettings],
    {
        let ghost s = self@;
        self.settings.opacity = opacity;
        proof {
            assert(self@.menu_open == s.menu_open);
            lemma_wf_same_surfaces(s, self@);
        }
        let mut acts = Vec::new();
        acts.push(Action::SaveSettings);
        acts
    }

    /// Records a newly active program and re-runs the visibility pass;
    /// activations of this app itself, of an unknown program, or of the
    /// program already recorded change nothing.
    pub fn handle_active_app_changed(&mut self, app_id: String) -> (acts: Vec<Action>)
        requires
            old(self)@.wf(),
            old(self)@.has_id_headroom(),
        ensures
            final(self)@.wf(),
            old(self)@.surfaces_paired() ==> final(self)@.surfaces_paired(),
            active_app_changed_post(old(self)@, app_id, final(self)@, acts@),
    {
        let ghost s = self@;
        let own_id = String::from_str("postit");
        proof {
            reveal_strlit("postit");
        }
        if app_id.as_str().is_empty() || app_id == own_id {
            return Vec::new();
        }
        let same = match &self.active_app {
            Some(current) => *current == app_id,
            None => false,
        };
        if same {
            return Vec::new();
        }
        self.active_app = Some(app_id);
        proof {
            assert(self@.menu_open == s.menu_open);
            lemma_wf_same_surfaces(s, self@);
            lemma_headroom_fits_pass(self@);
        }
        self.reconcile_visibility()
    }

    /// Replaces the known outputs by a fresh enumeration, unless that came
    /// back empty.
    pub fn refresh_outputs(&mut self, fresh: Vec<OutputInfo>)
        requires
            old(self)@.wf(),
        ensures
            final(self)@.wf(),
            old(self)@.surfaces_paired() ==> final(self)@.surfaces_paired(),
            final(self)@ == spec_refresh_outputs(old(self)@, fresh@),
    {
        let ghost s = self@;
        if fresh.len() > 0 {
            self.outputs = fresh;
        }
        proof {
            assert(self@.menu_open == s.menu_open);
            lemma_wf_same_surfaces(s, self@);
        }
    }

    /// Reacts to a pointer event on surface `id`: moves a dragged note or
    /// list panel, resizes a note, or ends the drag or resize.
    pub fn handle_iced_event(&mut self, id: u64, event: PointerEvent) -> (acts: Vec<Action>)
        requires
            old(self)@.wf(),
            old(self)@.has_id_headroom(),
        ensures
            final(self)@.wf(),
            old(self)@.surfaces_paired() ==> final(self)@.surfaces_paired(),
            final(self)@ == spec_pointer_event(old(self)@, id, event).0,
            acts@ == spec_pointer_event(old(self)@, id, event).1,
    {
        match event {
            PointerEvent::CursorMoved { x, y, now } => self.cursor_moved(id, x, y, now),
            PointerEvent::LeftReleased => self.left_released(),
            PointerEvent::Other => Vec::new(),
        }
    }

    fn cursor_moved(&mut self, id: u64, x: i64, y: i64, now: u64) -> (acts: Vec<Action>)
        requires
            old(self)@.wf(),
        ensures
            final(self)@.wf(),
            old(self)@.surfaces_paired() ==> final(self)@.surfaces_paired(),
            final(self)@ == spec_cursor_moved(old(self)@, id, x, y, now).0,
            acts@ == spec_cursor_moved(old(self)@, id, x, y, now).1,
    {
        let ghost s = self@;
        let mut acts = Vec::new();
        if let Some(d) = self.drag {
            if d.surface_id != id {
                return acts;
            }
            let press = match d.press {
                None => {
                    self.drag = Some(DragState { press: Some((x, y)), ..d });
                    proof {
                        assert(self@.menu_open == s.menu_open);
                        lemma_wf_same_surfaces(s, self@);
                    }
                    return acts;
                },
                Some(p) => p,
            };
            if !exec_step_due(d.last_apply, now) {
                return acts;
            }
            let tx = exec_drag_coord(d.start.0, press.0, x);
            let ty = exec_drag_coord(d.start.1, press.1, y);
            match d.target {
                DragTarget::Note(n) => {
                    let differs = match self.notes.get(&n) {
                        Some(note) => note.x != tx || note.y != ty,
                        None => false,
                    };
                    if differs {
                        let mut note = self.notes.remove(&n).unwrap();
                        note.x = tx;
                        note.y = ty;
                        self.notes.insert(n, note);
                        self.drag = Some(DragState { last_apply: Some(now), ..d });
                        acts.push(Action::MarginChange { id, margin: (ty, 0, 0, tx) });
                        proof {
                            assert(self@.notes.dom() =~= s.notes.dom());
                        }
                    }
                },
                DragTarget::List => {
                    if self.list_pos.0 != tx || self.list_pos.1 != ty {
                        self.list_pos = (tx, ty);
                        self.drag = Some(DragState { last_apply: Some(now), ..d });
                        acts.push(Action::MarginChange { id, margin: (ty, 0, 0, tx) });
                    }
                },
            }
            proof {
                assert(self@.menu_open == s.menu_open);
                lemma_wf_same_surfaces(s, self@);
                assert(acts@ =~= spec_cursor_moved(s, id, x, y, now).1);
            }
            return acts;
        }
        if let Some(r) = self.resize {
            if r.surface_id != id {
                return acts;
            }
            let press = match r.press {
                None => {
                    self.resize = Some(ResizeState { press: Some((x, y)), ..r });
                    proof {
                        assert(self@.menu_open == s.menu_open);
                        lemma_wf_same_surfaces(s, self@);
                    }
                    return acts;
                },
                Some(p) => p,
            };
            if !exec_step_due(r.last_apply, now) {
                return acts;
            }
            let preset = self.settings.size_preset;
            let w = exec_resize_width(r.start_width, press.0, x, preset.min_note_width());
            let n = r.note_id;
            let expanded = self.menu_open.contains(&n);
            let differs = match self.notes.get(&n) {
                Some(note) => note.width != w,
                None => false,
            };
            if differs {
                let mut note = self.notes.remove(&n).unwrap();
                note.width = w;
                self.notes.insert(n, note);
                self.resize = Some(ResizeState { last_apply: Some(now), ..r });
                let height = if expanded {
                    preset.note_expanded_height()
                } else {
                    preset.note_height()
                };
                acts.push(Action::SizeChange { id, size: (w as u32, height) });
                proof {
                    assert(self@.notes.dom() =~= s.notes.dom());
                }
            }
            proof {
                assert(self@.menu_open == s.menu_open);
                lemma_wf_same_surfaces(s, self@);
                assert(acts@ =~= spec_cursor_moved(s, id, x, y, now).1);
            }
        }
        acts
    }

    fn left_released(&mut self) -> (acts: Vec<Action>)
        requires
            old(self)@.wf(),
            old(self)@.has_id_headroom(),
        ensures
            final(self)@.wf(),
            old(self)@.surfaces_paired() ==> final(self)@.surfaces_paired(),
            final(self)@ == spec_left_released(old(self)@).0,
            acts@ == spec_left_released(old(self)@).1,
    {
        let ghost s = self@;
        if let Some(d) = self.drag.take() {
            proof {
                assert(self@.menu_open == s.menu_open);
                lemma_wf_same_surfaces(s, self@);
            }
            match d.target {
                DragTarget::Note(n) => {
                    let mut acts = self.maybe_hop_output(n);
                    acts.push(Action::SaveNotes);
                    return acts;
                },
                DragTarget::List => {
                    return self.maybe_hop_list_output();
                },
            }
        }
        let mut acts = Vec::new();
        if self.resize.take().is_some() {
            acts.push(Action::SaveNotes);
        }
        proof {
            assert(self@.menu_open == s.menu_open);
            lemma_wf_same_surfaces(s, self@);
            assert(acts@ =~= spec_left_released(s).1);
        }
        acts
    }

    /// Shows the fallback toolbar, once.
    fn show_toolbar(&mut self) -> (acts: Vec<Action>)
        requires
            old(self)@.wf(),
            old(self)@.has_id_headroom(),
        ensures
            final(self)@.wf(),
            old(self)@.surfaces_paired() ==> final(self)@.surfaces_paired(),
            final(self)@ == spec_show_toolbar(old(self)@).0,
            acts@ == spec_show_toolbar(old(self)@).1,
    {
        let ghost s = self@;
        let mut acts = Vec::new();
        if self.toolbar_surface.is_some() {
            return acts;
        }
        let sid = self.alloc_surface_id();
        self.toolbar_surface = Some(sid);
        acts.push(Action::NewLayerShell { settings: toolbar_layer_settings(), id: sid });
        proof {
            assert(self@.menu_open == s.menu_open);
            assert forall|m: u64| #[trigger] self@.note_surface.contains_key(m) implies {
                &&& self@.surfaces.contains_key(self@.note_surface[m])
                &&& self@.surfaces[self@.note_surface[m]] == m
                &&& self@.notes.contains_key(m)
            } by {
                assert(s.note_surface.contains_key(m));
            }
            assert forall|m: u64| #[trigger] self@.menu_open.contains(m) implies self@.notes.contains_key(m) by {
                assert(s.menu_open.contains(m));
            }
            assert(acts@ =~= spec_show_toolbar(s).1);
        }
        acts
    }

    /// Creates a note of the given color, with an id taken from the clock.
    pub fn create_note(&mut self, color: NoteColor) -> (acts: Vec<Action>)
        requires
            old(self)@.wf(),
            old(self)@.has_id_headroom(),
        ensures
            final(self)@.wf(),
            exists|id: u64| create_note_post(old(self)@, color, id, final(self)@, acts@),
            old(self)@.surfaces_paired() && adds_note(old(self)@, final(self)@)
                ==> final(self)@.surfaces_paired(),
    {
        let id = new_note_id();
        let acts = self.create_note_with_id(color, id);
        acts
    }

    /// Reacts to a message of the tray icon.
    pub fn handle_tray_message(&mut self, msg: TrayMessage) -> (acts: Vec<Action>)
        requires
            old(self)@.wf(),
            old(self)@.has_id_headroom(),
        ensures
            final(self)@.wf(),
            tray_message_post(old(self)@, msg, final(self)@, acts@),
            old(self)@.surfaces_paired() && (tray_creates_note(msg) ==> adds_note(old(self)@, final(self)@))
                ==> final(self)@.surfaces_paired(),
    {
        match msg {
            TrayMessage::Registered => Vec::new(),
            TrayMessage::Unavailable => self.show_toolbar(),
            TrayMessage::Event(e) => match e {
                TrayEvent::NewNote(color) => self.create_note(color),
                TrayEvent::RefreshOutputs => {
                    let mut acts = Vec::new();
                    acts.push(Action::RefreshOutputs);
                    proof {
                        assert(acts@ =~= seq![Action::RefreshOutputs]);
                    }
                    acts
                },
                TrayEvent::ShowList => self.toggle_list(),
                TrayEvent::SetSizePreset(p) => self.set_size_preset(p),
                TrayEvent::SetOpacity(o) => self.set_opacity(o),
                TrayEvent::Quit => self.quit(),
            },
        }
    }

    /// Saves and exits.
    pub fn quit(&self) -> (acts: Vec<Action>)
        ensures
            acts@ == seq![Action::SaveNotes, Action::Exit],
    {
        let mut acts = Vec::new();
        acts.push(Action::SaveNotes);
        acts.push(Action::Exit);
        proof {
            assert(acts@ =~= seq![Action::SaveNotes, Action::Exit]);
        }
        acts
    }

    /// Applies one message to the state and returns the actions the runtime
    /// must carry out, in order.
    pub fn update(&mut self, message: Message) -> (acts: Vec<Action>)
        requires
            old(self)@.wf(),
            old(self)@.has_id_headroom(),
        ensures
            final(self)@.wf(),
            update_post(old(self)@, message, final(self)@, acts@),
            old(self)@.surfaces_paired() && (creates_note(message) ==> adds_note(old(self)@, final(self)@))
                ==> final(self)@.surfaces_paired(),
            old(self)@.next_surface_id <= final(self)@.next_surface_id <= old(self)@.next_surface_id
                + old(self)@.notes.len() + 1,
    {
        let ghost s = self@;
        let ghost m = message;
        let acts = match message {
            Message::CreateNote(color) => self.create_note(color),
            Message::TextChanged(n, text) => self.text_changed(n, text),
            Message::ToggleMenu(n) => self.toggle_menu(n),
            Message::ColorChanged(n, c) => self.color_changed(n, c),
            Message::ToggleAlwaysVisible(n) => self.toggle_always_visible(n),
            Message::DeleteNote(n) => self.delete_note(n),
            Message::MoveToNextOutput(n) => self.move_to_next_output(n),
            Message::RebindApp(n) => self.rebind_app(n),
            Message::DragStart(n) => {
                self.drag_start(n);
                Vec::new()
            },
            Message::ResizeStart(n) => {
                self.resize_start(n);
                Vec::new()
            },
            Message::WindowClosed(id) => {
                self.window_closed(id);
                Vec::new()
            },
            Message::IcedEvent(id, ev) => self.handle_iced_event(id, ev),
            Message::ActiveAppChanged(app) => self.handle_active_app_changed(app),
            Message::TrayMessage(m) => self.handle_tray_message(m),
            Message::ToggleList => self.toggle_list(),
            Message::MoveListToNextOutput => self.move_list_to_next_output(),
            Message::ListDragStart => {
                self.list_drag_start();
                Vec::new()
            },
            Message::ImportNote(n) => self.import_note(n),
            Message::SetSizePreset(p) => self.set_size_preset(p),
            Message::SetOpacity(o) => self.set_opacity(o),
            Message::Quit => self.quit(),
        };
        proof {
            lemma_update_id_use(s, m, self@, acts@);
        }
        acts
    }

    /// The application at start-up: legacy notes are migrated onto the
    /// leftmost output, and every loaded note is shown.
    pub fn new(settings: AppSettings, loaded: Vec<Note>, outputs: Vec<OutputInfo>) -> (r: (
        PostitApp,
        Vec<Action>,
    ))
        ensures
            r.0@.wf(),
            r.0@ == initial_state(settings, loaded@, outputs@),
            r.1@ == initial_actions(settings, loaded@, outputs@),
            distinct_ids(loaded@) ==> r.0@.surfaces_paired(),
    {
        let ghost ms = migrate_notes(loaded@, outputs@);
        let mut migrated_notes: Vec<Note> = Vec::new();
        let mut migrated = false;
        let mut i: usize = 0;
        while i < loaded.len()
            invariant
                0 <= i <= loaded.len(),
                ms == migrate_notes(loaded@, outputs@),
                migrated_notes@ =~= ms.take(i as int),
                migrated == (outputs@.len() > 0 && exists|k: int| 0 <= k < i && (#[trigger] loaded@[k]).output is None),
            decreases loaded.len() - i,
        {
            let mut note = loaded[i].duplicate();
            if outputs.len() > 0 && note.output.is_none() {
                note.output = Some(outputs[0].name.clone());
                migrated = true;
            }
            migrated_notes.push(note);
            proof {
                assert(ms.take(i + 1) =~= ms.take(i as int).push(ms[i as int]));
            }
            i = i + 1;
        }
        proof {
            assert(ms.take(loaded.len() as int) =~= ms);
        }
        let mut acts: Vec<Action> = Vec::new();
        if migrated {
            acts.push(Action::SaveNotes);
        }
        let ghost head = acts@;
        let preset = settings.size_preset;
        proof {
            if distinct_ids(loaded@) {
                assert forall|a: int, b: int| 0 <= a < b < ms.len() implies ms[a].id != ms[b].id by {
                    assert(ms[a] == migrate_note(loaded@[a], outputs@));
                    assert(ms[b] == migrate_note(loaded@[b], outputs@));
                }
            }
        }
        let mut notes: HashMap<u64, Note> = HashMap::new();
        let mut surfaces: HashMap<u64, u64> = HashMap::new();
        let mut note_surface: HashMap<u64, u64> = HashMap::new();
        let ghost all_new = Seq::new(
            ms.len(),
            |j: int|
                Action::NewLayerShell {
                    settings: spec_note_layer_settings(ms[j], false, outputs@, preset),
                    id: j as u64,
                },
        );
        let mut j: usize = 0;
        while j < migrated_notes.len()
            invariant
                0 <= j <= migrated_notes.len(),
                migrated_notes@ == ms,
                all_new.len() == ms.len(),
                forall|k: int| 0 <= k < ms.len() ==> #[trigger] all_new[k] == (Action::NewLayerShell {
                    settings: spec_note_layer_settings(ms[k], false, outputs@, preset),
                    id: k as u64,
                }),
                notes@ == loaded_notes(ms.take(j as int)),
                surfaces@ == loaded_surfaces(ms.take(j as int)),
                note_surface@ == loaded_note_surfaces(ms.take(j as int)),
                acts@ == head + all_new.take(j as int),
                forall|n: u64| #[trigger] note_surface@.contains_key(n) ==> {
                    &&& note_surface@[n] < j
                    &&& surfaces@.contains_key(note_surface@[n])
                    &&& surfaces@[note_surface@[n]] == n
                    &&& notes@.contains_key(n)
                },
                forall|sid: u64| #[trigger] surfaces@.contains_key(sid) ==> sid < j,
                forall|sid: u64| #[trigger] surfaces@.contains_key(sid) ==> surfaces@[sid] == ms[sid as int].id,
                distinct_ids(loaded@) ==> distinct_ids(ms),
                distinct_ids(ms) ==> forall|sid: u64| #[trigger] surfaces@.contains_key(sid) ==> {
                    &&& note_surface@.contains_key(surfaces@[sid])
                    &&& note_surface@[surfaces@[sid]] == sid
                },
                forall|n: u64| #[trigger] notes@.contains_key(n) ==> notes@[n].id == n,
                notes@.dom().finite(),
            decreases migrated_notes.len() - j,
        {
            let note = migrated_notes[j].duplicate();
            let id = note.id;
            let sid = j as u64;
            let ghost pre_ns = note_surface@;
            let ghost pre_sf = surfaces@;
            surfaces.insert(sid, id);
            note_surface.insert(id, sid);
            let layer = note_layer_settings(&note, false, &outputs, preset);
            acts.push(Action::NewLayerShell { settings: layer, id: sid });
            notes.insert(id, note);
            proof {
                let t = ms.take(j + 1);
                assert(t.drop_last() =~= ms.take(j as int));
                assert(t.last() == ms[j as int]);
                assert(all_new.take(j + 1) =~= all_new.take(j as int).push(all_new[j as int]));
                assert forall|n: u64| #[trigger] note_surface@.contains_key(n) implies {
                    &&& note_surface@[n] < j + 1
                    &&& surfaces@.contains_key(note_surface@[n])
                    &&& surfaces@[note_surface@[n]] == n
                    &&& notes@.contains_key(n)
                } by {
                    if n != id {
                        assert(pre_ns.contains_key(n));
                        assert(pre_sf[pre_ns[n]] == n);
                    }
                }
                if distinct_ids(ms) {
                    assert(!pre_ns.contains_key(id)) by {
                        if pre_ns.contains_key(id) {
                            let k = pre_ns[id];
                            assert(pre_sf.contains_key(k));
                            assert(pre_sf[k] == ms[k as int].id);
                            assert(ms[j as int].id == id);
                        }
                    }
                    assert forall|x: u64| #[trigger] surfaces@.contains_key(x) implies {
                        &&& note_surface@.contains_key(surfaces@[x])
                        &&& note_surface@[surfaces@[x]] == x
                    } by {
                        if x != sid {
                            assert(pre_sf.contains_key(x));
                            assert(pre_sf[x] == ms[x as int].id);
                            assert(ms[j as int].id == id);
                            assert(pre_sf[x] != id);
                        }
                    }
                }
            }
            j = j + 1;
        }
        proof {
            assert(ms.take(ms.len() as int) =~= ms);
            assert(all_new.take(ms.len() as int) =~= all_new);
            assert(needs_migration(loaded@, outputs@) == migrated);
        }
        let app = PostitApp {
            notes,
            surfaces,
            note_surface,
            menu_open: HashSet::new(),
            drag: None,
            resize: None,
            active_app: None,
            list_surface: None,
            list_output: None,
            list_pos: LIST_DEFAULT_POS,
            toolbar_surface: None,
            outputs,
            settings,
            next_surface_id: j as u64,
        };
        (app, acts)
    }

    /// The application's layer-shell namespace and app id.
    pub fn namespace() -> (s: String)
        ensures
            s@ == self_app_id(),
    {
        String::from_str("postit")
    }

    /// Which view surface `id` shows.
    pub fn view_target(&self, id: u64) -> (v: ViewTarget)
        ensures
            v == spec_view_target(self@, id),
    {
        if self.list_surface == Some(id) {
            return ViewTarget::List;
        }
        match self.surfaces.get(&id) {
            Some(n) => if self.notes.contains_key(n) {
                ViewTarget::Note(*n)
            } else {
                ViewTarget::Toolbar
            },
            None => ViewTarget::Toolbar,
        }
    }

    /// Whether enough unused surface ids remain for one more update.
    pub fn has_id_headroom(&self) -> (b: bool)
        ensures
            b == self@.has_id_headroom(),
    {
        let count = self.notes.len() as u64;
        match self.next_surface_id.checked_add(count) {
            Some(v) => v <= u64::MAX - 8,
            None => false,
        }
    }

    /// Note `n`, if it exists.
    pub fn note(&self, n: u64) -> (r: Option<&Note>)
        ensures
            match r {
                Some(note) => self@.notes.contains_key(n) && *note == self@.notes[n],
                None => !self@.notes.contains_key(n),
            },
    {
        self.notes.get(&n)
    }

    /// The ids of all notes, ascending.
    pub fn note_ids(&self) -> (ids: Vec<u64>)
        ensures
            ids@ == ascending(self@.notes.dom()),
            ids@.to_set() == self@.notes.dom(),
    {
        sorted_keys(&self.notes)
    }

    /// Copies of all notes, in ascending id order.
    pub fn notes_in_id_order(&self) -> (r: Vec<Note>)
        requires
            self@.wf(),
        ensures
            r@ == ascending(self@.notes.dom()).map_values(|n: u64| self@.notes[n]),
    {
        let ids = sorted_keys(&self.notes);
        let ghost expected = ascending(self@.notes.dom()).map_values(|n: u64| self@.notes[n]);
        let mut r: Vec<Note> = Vec::new();
        let mut i: usize = 0;
        while i < ids.len()
            invariant
                ids@ == ascending(self@.notes.dom()),
                ids@.to_set() == self@.notes.dom(),
                expected == ids@.map_values(|n: u64| self@.notes[n]),
                0 <= i <= ids.len(),
                r@ == expected.take(i as int),
            decreases ids.len() - i,
        {
            proof {
                assert(ids@.to_set().contains(ids@[i as int]));
            }
            let note = self.notes.get(&ids[i]).unwrap().duplicate();
            r.push(note);
            proof {
                assert(expected.take(i + 1) =~= expected.take(i as int).push(expected[i as int]));
            }
            i = i + 1;
        }
        proof {
            assert(expected.take(ids@.len() as int) =~= expected);
        }
        r
    }

    /// The surface of note `n`, if it is shown.
    pub fn surface_of(&self, n: u64) -> (r: Option<u64>)
        ensures
            match r {
                Some(sid) => self@.note_surface.contains_key(n) && sid == self@.note_surface[n],
                None => !self@.note_surface.contains_key(n),
            },
    {
        match self.note_surface.get(&n) {
            Some(sid) => Some(*sid),
            None => None,
        }
    }

    /// Whether note `n`'s inline menu is open.
    pub fn menu_is_open(&self, n: u64) -> (b: bool)
        ensures
            b == self@.menu_open.contains(n),
    {
        self.menu_open.contains(&n)
    }

    pub fn settings(&self) -> (s: AppSettings)
        ensures
            s == self@.settings,
    {
        self.settings
    }

    pub fn active_app(&self) -> (a: &Option<String>)
        ensures
            *a == self@.active_app,
    {
        &self.active_app
    }

    pub fn outputs(&self) -> (o: &Vec<OutputInfo>)
        ensures
            o@ == self@.outputs,
    {
        &self.outputs
    }

    pub fn list_surface(&self) -> (r: Option<u64>)
        ensures
            r == self@.list_surface,
    {
        self.list_surface
    }

    pub fn list_output(&self) -> (r: &Option<String>)
        ensures
            *r == self@.list_output,
    {
        &self.list_output
    }

    pub fn list_pos(&self) -> (r: (i32, i32))
        ensures
            r == self@.list_pos,
    {
        self.list_pos
    }

    pub fn toolbar_surface(&self) -> (r: Option<u64>)
        ensures
            r == self@.toolbar_surface,
    {
        self.toolbar_surface
    }

    pub fn drag(&self) -> (r: Option<DragState>)
        ensures
            r == self@.drag,
    {
        self.drag
    }

    pub fn resize(&self) -> (r: Option<ResizeState>)
        ensures
            r == self@.resize,
    {
        self.resize
    }

    /// The note shown on surface `sid`, if any.
    pub fn note_of_surface(&self, sid: u64) -> (r: Option<u64>)
        ensures
            match r {
                Some(n) => self@.surfaces.contains_key(sid) && n == self@.surfaces[sid],
                None => !self@.surfaces.contains_key(sid),
            },
    {
        match self.surfaces.get(&sid) {
            Some(n) => Some(*n),
            None => None,
        }
    }

    /// Forgets a surface that the compositor closed.
    pub fn window_closed(&mut self, id: u64)
        requires
            old(self)@.wf(),
        ensures
            final(self)@.wf(),
            old(self)@.surfaces_paired() ==> final(self)@.surfaces_paired(),
            window_closed_post(old(self)@, final(self)@, id),
    {
        let ghost s = self@;
        if let Some(note_id) = self.surfaces.remove(&id) {
            let matches = match self.note_surface.get(&note_id) {
                Some(s) => *s == id,
                None => false,
            };
            if matches {
                self.note_surface.remove(&note_id);
            }
        }
        if self.list_surface == Some(id) {
            self.list_surface = None;
        }
        if self.toolbar_surface == Some(id) {
            self.toolbar_surface = None;
        }
        proof {
            assert forall|n: u64| #[trigger] self@.note_surface.contains_key(n) implies {
                &&& self@.surfaces.contains_key(self@.note_surface[n])
                &&& self@.surfaces[self@.note_surface[n]] == n
                &&& self@.notes.contains_key(n)
            } by {
                assert(s.note_surface.contains_key(n));
                assert(s.surfaces[s.note_surface[n]] == n);
            }
            assert(forall|x: u64| #[trigger] self@.surfaces.contains_key(x) ==> s.surfaces.contains_key(x));
            assert(self@.menu_open == s.menu_open);
            assert(self@.notes == s.notes);
            assert forall|n: u64| #[trigger] self@.menu_open.contains(n) implies self@.notes.contains_key(n) by {
                assert(s.menu_open.contains(n));
            }
        }
    }
}

} // verus!
