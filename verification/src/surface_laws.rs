//! Properties of where surfaces are placed and which notes they show.

use vstd::prelude::*;
use crate::app::{
    AppView, Message, becomes_hidden, initial_actions, migrate_notes, needs_migration,
    reconcile_actions, reconcile_post, spec_maybe_hop_output, spec_recreate_note_surface,
    spec_recreate_list_surface,
    spec_should_be_visible, update_post,
};
use crate::keys::ascending;
use crate::layer::{Action, Anchor, LIST_SIZE, spec_note_layer_settings};
use crate::note::Note;
use crate::settings::{AppSettings, SizePreset, spec_note_height, spec_note_expanded_height};
use crate::outputs::OutputInfo;

verus! {

/// While the active program is unknown, every note is visible, whatever it
/// is bound to and whether or not it is pinned.
pub proof fn law_unknown_program_shows_every_note(note: Note)
    ensures
        spec_should_be_visible(note, None),
{
}

proof fn lemma_pass_removes_nothing(s: AppView, ks: Seq<u64>)
    requires
        forall|n: u64| !#[trigger] becomes_hidden(s, n),
    ensures
        forall|k: int| 0 <= k < reconcile_actions(s, ks).len() ==> !(#[trigger] reconcile_actions(
            s,
            ks,
        )[k] is RemoveWindow),
    decreases ks.len(),
{
    if ks.len() > 0 {
        lemma_pass_removes_nothing(s, ks.drop_last());
        assert(!becomes_hidden(s, ks.last()));
    }
}

/// A visibility pass while the active program is unknown shows every note,
/// keeps every existing note surface, and closes no surface.
pub proof fn law_pass_without_active_program_shows_all(s: AppView, t: AppView, acts: Seq<Action>)
    requires
        s.wf(),
        s.active_app is None,
        reconcile_post(s, t, acts),
    ensures
        forall|n: u64| #[trigger] t.note_surface.contains_key(n) <==> s.notes.contains_key(n),
        forall|n: u64| #[trigger]
            s.note_surface.contains_key(n) ==> t.note_surface[n] == s.note_surface[n],
        forall|k: int| 0 <= k < acts.len() ==> !(#[trigger] acts[k] is RemoveWindow),
{
    assert forall|n: u64| !#[trigger] becomes_hidden(s, n) by {
        if s.notes.contains_key(n) {
            law_unknown_program_shows_every_note(s.notes[n]);
        }
    }
    lemma_pass_removes_nothing(s, ascending(s.notes.dom()));
    assert forall|n: u64| #[trigger] t.note_surface.contains_key(n) <==> s.notes.contains_key(n) by {
        if s.notes.contains_key(n) {
            law_unknown_program_shows_every_note(s.notes[n]);
        }
    }
    assert forall|n: u64| #[trigger]
        s.note_surface.contains_key(n) implies t.note_surface[n] == s.note_surface[n] by {
        assert(s.notes.contains_key(n));
        law_unknown_program_shows_every_note(s.notes[n]);
        assert(t.note_surface.contains_key(n));
    }
}

/// A note's surface, when recreated, is created anchored to the top-left
/// corner at the note's position (top margin = y, left margin = x), and
/// that same margin is committed again right after; the note itself is
/// unchanged.
pub proof fn law_recreated_surface_at_note_position(s: AppView, n: u64)
    requires
        s.notes.contains_key(n),
    ensures
        ({
            let (t, acts) = spec_recreate_note_surface(s, n);
            let sid = t.note_surface[n];
            let margin = (s.notes[n].y, 0i32, 0i32, s.notes[n].x);
            &&& t.notes == s.notes
            &&& t.note_surface.contains_key(n)
            &&& t.surfaces.contains_key(sid) && t.surfaces[sid] == n
            &&& acts.len() >= 2
            &&& acts.last() == Action::MarginChange { id: sid, margin: margin }
            &&& acts[acts.len() - 2] matches Action::NewLayerShell { settings, id }
                && id == sid && settings.margin == margin && settings.anchor == Anchor::TopLeft
        }),
{
}

/// When a released note hops to the adjacent output, its new surface is
/// created and then moved to the note's new position on that output
/// (top margin = y, left margin = x).
pub proof fn law_hop_recommits_note_position(s: AppView, n: u64)
    ensures
        ({
            let (t, acts) = spec_maybe_hop_output(s, n);
            acts.len() > 0 ==> {
                let sid = t.note_surface[n];
                let margin = (t.notes[n].y, 0i32, 0i32, t.notes[n].x);
                &&& t.notes.contains_key(n)
                &&& acts.last() == Action::MarginChange { id: sid, margin: margin }
                &&& acts[acts.len() - 2] matches Action::NewLayerShell { settings, id }
                    && id == sid && settings.margin == margin && settings.anchor == Anchor::TopLeft
            }
        }),
{
    let (t, acts) = spec_maybe_hop_output(s, n);
    if acts.len() > 0 {
        let note = s.notes[n];
        let name = note.output->0;
        let cur = crate::outputs::index_of_name(s.outputs, name@)->0;
        let ti = crate::app::hop_target(s.outputs, cur, note.x as int, note.width as int)->0;
        let target = s.outputs[ti];
        let nx = crate::app::hop_x(ti > cur, target.width as int, note.width as int);
        let ny = crate::app::hop_y(
            note.y as int,
            target.height as int,
            spec_note_height(s.settings.size_preset) as int,
        );
        let s1 = crate::app::with_note(s, n, Note { output: Some(target.name), x: nx, y: ny, ..note });
        law_recreated_surface_at_note_position(s1, n);
    }
}

/// At start-up the j-th loaded note gets surface j, created at the note's
/// position and width, anchored top-left, at the collapsed height of the
/// loaded settings' size preset; a save comes first only when legacy notes
/// were migrated.
pub proof fn law_startup_surfaces_follow_settings(
    settings: AppSettings,
    notes: Seq<Note>,
    outputs: Seq<OutputInfo>,
)
    requires
        notes.len() <= usize::MAX,
    ensures
        ({
            let acts = initial_actions(settings, notes, outputs);
            let off: int = if needs_migration(notes, outputs) {
                1
            } else {
                0
            };
            &&& acts.len() == notes.len() + off
            &&& needs_migration(notes, outputs) ==> acts[0] == Action::SaveNotes
            &&& forall|j: int|
                0 <= j < notes.len() ==> (#[trigger] acts[j + off] matches Action::NewLayerShell {
                    settings: ls,
                    id,
                } && id == j && ls.size == (notes[j].width as u32, spec_note_height(
                    settings.size_preset,
                )) && ls.margin == (notes[j].y, 0i32, 0i32, notes[j].x) && ls.anchor
                    == Anchor::TopLeft)
        }),
{
    let acts = initial_actions(settings, notes, outputs);
    let ms = migrate_notes(notes, outputs);
    let off: int = if needs_migration(notes, outputs) {
        1
    } else {
        0
    };
    assert forall|j: int| 0 <= j < notes.len() implies (#[trigger] acts[j + off] matches Action::NewLayerShell {
        settings: ls,
        id,
    } && id == j && ls.size == (notes[j].width as u32, spec_note_height(settings.size_preset))
        && ls.margin == (notes[j].y, 0i32, 0i32, notes[j].x) && ls.anchor == Anchor::TopLeft) by {
        assert(ms[j] == crate::app::migrate_note(notes[j], outputs));
        let head: Seq<Action> = if needs_migration(notes, outputs) {
            seq![Action::SaveNotes]
        } else {
            seq![]
        };
        assert(head.len() == off);
        assert(acts[j + off] == Action::NewLayerShell {
            settings: crate::layer::spec_note_layer_settings(ms[j], false, outputs, settings.size_preset),
            id: j as u64,
        });
    }
}

/// Toggling a note's pin flips its `always_visible` flag and changes
/// nothing else of the note; the notes stay the same set.
pub proof fn law_pin_toggle_flips(s: AppView, n: u64, t: AppView, acts: Seq<Action>)
    requires
        s.notes.contains_key(n),
        update_post(s, Message::ToggleAlwaysVisible(n), t, acts),
    ensures
        t.notes.dom() == s.notes.dom(),
        t.notes[n].always_visible == !s.notes[n].always_visible,
        t.notes[n] == (Note { always_visible: !s.notes[n].always_visible, ..s.notes[n] }),
{
    assert(t.notes.dom() =~= s.notes.dom());
}

/// Opening the list panel creates exactly one surface, anchored to the top
/// and left edges at the panel's position (top margin = y, left margin =
/// x), at the panel's fixed size, and records it as the open panel.
pub proof fn law_list_panel_opens_at_its_position(s: AppView, t: AppView, acts: Seq<Action>)
    requires
        s.list_surface is None,
        update_post(s, Message::ToggleList, t, acts),
    ensures
        acts.len() == 1,
        acts[0] matches Action::NewLayerShell { settings, id } && settings.anchor == Anchor::TopLeft
            && settings.margin == (s.list_pos.1, 0i32, 0i32, s.list_pos.0) && settings.size
            == LIST_SIZE && t.list_surface == Some(id),
{
}

/// A note's surface sits at the note's position (top margin = y, left
/// margin = x), anchored top-left, as wide as the note and as tall as the
/// preset's collapsed or expanded note height.
pub proof fn law_note_surface_geometry(
    note: Note,
    expanded: bool,
    outputs: Seq<OutputInfo>,
    preset: SizePreset,
)
    ensures
        spec_note_layer_settings(note, expanded, outputs, preset).anchor == Anchor::TopLeft,
        spec_note_layer_settings(note, expanded, outputs, preset).margin == (
            note.y,
            0i32,
            0i32,
            note.x,
        ),
        spec_note_layer_settings(note, expanded, outputs, preset).size == (
            note.width as u32,
            if expanded {
                spec_note_expanded_height(preset)
            } else {
                spec_note_height(preset)
            },
        ),
{
}

/// A recreated list panel is created anchored top-left at the panel's
/// position, that margin is committed again right after, and the new
/// surface becomes the open panel.
pub proof fn law_recreated_list_at_its_position(s: AppView)
    requires
        s.list_surface is Some,
    ensures
        ({
            let (t, acts) = spec_recreate_list_surface(s);
            let margin = (s.list_pos.1, 0i32, 0i32, s.list_pos.0);
            &&& acts.len() == 3
            &&& acts[0] == Action::RemoveWindow(s.list_surface->0)
            &&& acts[1] matches Action::NewLayerShell { settings, id } && settings.anchor
                == Anchor::TopLeft && settings.margin == margin && t.list_surface == Some(id)
            &&& acts[2] == Action::MarginChange { id: t.list_surface->0, margin: margin }
        }),
{
}

} // verus!
