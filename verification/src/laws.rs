//! Properties of the application that span calls or hold in every state.

use vstd::prelude::*;
use crate::app::{
    AppView, create_note_post, becomes_hidden, becomes_visible, drag_coord, hop_y,
    ignores_active_app, active_app_changed_post, next_output_name, reconcile_actions,
    reconcile_post, resize_width, shown_count, spec_delete_note, spec_should_be_visible,
    spec_text_changed, spec_toggle_list, spec_toggle_menu, note_surface_size,
};
use crate::keys::ascending;
use crate::layer::Action;
use crate::settings::MAX_NOTE_WIDTH;

verus! {

/// In every valid state, distinct shown notes have distinct surfaces, and
/// neither the list panel nor the toolbar is a note surface.
pub proof fn law_surfaces_are_distinct(s: AppView, a: u64, b: u64)
    requires
        s.wf(),
        s.note_surface.contains_key(a),
        s.note_surface.contains_key(b),
        a != b,
    ensures
        s.note_surface[a] != s.note_surface[b],
        s.list_surface != Some(s.note_surface[a]),
        s.toolbar_surface != Some(s.note_surface[a]),
{
}

/// In every valid state at most one gesture is under way: a drag or a
/// resize, never both.
pub proof fn law_one_gesture_at_a_time(s: AppView)
    requires
        s.wf(),
    ensures
        !(s.drag is Some && s.resize is Some),
{
}

/// Opening and then closing a note's menu restores the state; the second
/// resize gives back the note's collapsed size.
pub proof fn law_toggle_menu_twice(s: AppView, n: u64)
    requires
        s.wf(),
    ensures
        spec_toggle_menu(spec_toggle_menu(s, n).0, n).0 == s,
        s.note_surface.contains_key(n) && !s.menu_open.contains(n) ==> spec_toggle_menu(
            spec_toggle_menu(s, n).0,
            n,
        ).1 == seq![
            Action::SizeChange {
                id: s.note_surface[n],
                size: note_surface_size(s, n, false),
            },
        ],
{
    let t = spec_toggle_menu(s, n).0;
    if s.note_surface.contains_key(n) {
        if s.menu_open.contains(n) {
            assert(t.menu_open.insert(n) =~= s.menu_open);
        } else {
            assert(t.menu_open.remove(n) =~= s.menu_open);
        }
    }
}

/// Opening and then closing the list panel leaves it closed, and the
/// surface closed is the one opened.
pub proof fn law_toggle_list_twice(s: AppView)
    requires
        s.wf(),
        s.list_surface is None,
    ensures
        spec_toggle_list(spec_toggle_list(s).0).0.list_surface is None,
        spec_toggle_list(spec_toggle_list(s).0).1 == seq![
            Action::RemoveWindow(s.next_surface_id),
        ],
        spec_toggle_list(s).1[0] matches Action::NewLayerShell { id, .. } && id
            == s.next_surface_id,
{
}

/// What a text edit writes, a read gives back.
pub proof fn law_text_read_back(s: AppView, n: u64, text: String)
    requires
        s.notes.contains_key(n),
    ensures
        spec_text_changed(s, n, text).notes[n].text == text,
        spec_text_changed(s, n, text).notes.dom() == s.notes.dom(),
{
    assert(spec_text_changed(s, n, text).notes.dom() =~= s.notes.dom());
}

/// A deleted note is gone everywhere: from the notes, the shown notes and
/// the open menus; a surface it had is closed.
pub proof fn law_delete_forgets_note(s: AppView, n: u64)
    requires
        s.wf(),
    ensures
        !spec_delete_note(s, n).0.notes.contains_key(n),
        !spec_delete_note(s, n).0.note_surface.contains_key(n),
        !spec_delete_note(s, n).0.menu_open.contains(n),
        s.note_surface.contains_key(n) ==> spec_delete_note(s, n).1[0] == Action::RemoveWindow(
            s.note_surface[n],
        ),
        spec_delete_note(s, n).0.wf(),
{
    let t = spec_delete_note(s, n).0;
    assert forall|m: u64| #[trigger] t.note_surface.contains_key(m) implies {
        &&& t.surfaces.contains_key(t.note_surface[m])
        &&& t.surfaces[t.note_surface[m]] == m
        &&& t.notes.contains_key(m)
    } by {
        assert(s.note_surface.contains_key(m));
        assert(s.surfaces[s.note_surface[m]] == m);
    }
}

/// Deleting a note right after creating it (under a fresh id) gives back
/// the notes and shown notes from before.
pub proof fn law_create_then_delete(s: AppView, color: crate::colors::NoteColor, id: u64, t: AppView, acts: Seq<Action>)
    requires
        s.wf(),
        !s.notes.contains_key(id),
        create_note_post(s, color, id, t, acts),
    ensures
        spec_delete_note(t, id).0.notes == s.notes,
        spec_delete_note(t, id).0.note_surface == s.note_surface,
        spec_delete_note(t, id).0.surfaces == s.surfaces,
        spec_delete_note(t, id).0.menu_open == s.menu_open,
{
    let u = spec_delete_note(t, id).0;
    assert(!s.note_surface.contains_key(id));
    assert(!s.surfaces.contains_key(s.next_surface_id));
    assert(!s.menu_open.contains(id));
    assert(u.notes =~= s.notes);
    assert(u.note_surface =~= s.note_surface);
    assert(u.surfaces =~= s.surfaces);
    assert(u.menu_open =~= s.menu_open);
}

/// Activations of this app itself, or of an unknown program, change
/// nothing: editing a note never hides it.
pub proof fn law_own_activation_changes_nothing(s: AppView, app: String, t: AppView, acts: Seq<Action>)
    requires
        app@ == crate::app::self_app_id() || app@.len() == 0,
        active_app_changed_post(s, app, t, acts),
    ensures
        t == s,
        acts.len() == 0,
{
}

/// After switching to another program, exactly the notes that are pinned,
/// unbound, or bound to that program are shown.
pub proof fn law_switching_program_shows_its_notes(s: AppView, app: String, t: AppView, acts: Seq<Action>)
    requires
        !ignores_active_app(s, app),
        active_app_changed_post(s, app, t, acts),
    ensures
        forall|n: u64| #[trigger] t.note_surface.contains_key(n) <==> s.notes.contains_key(n) && (
            s.notes[n].always_visible || match s.notes[n].bound_app {
                Some(b) => b@ == app@,
                None => true,
            }),
{
    assert forall|n: u64| #[trigger] t.note_surface.contains_key(n) <==> s.notes.contains_key(n) && (
        s.notes[n].always_visible || match s.notes[n].bound_app {
            Some(b) => b@ == app@,
            None => true,
        }) by {
        if s.notes.contains_key(n) {
            assert(spec_should_be_visible(s.notes[n], Some(app)) == (s.notes[n].always_visible
                || match s.notes[n].bound_app {
                Some(b) => b@ == app@,
                None => true,
            }));
        }
    }
}

proof fn lemma_settled_pass(t: AppView, ks: Seq<u64>)
    requires
        forall|n: u64| #[trigger] t.note_surface.contains_key(n) <==> t.notes.contains_key(n)
            && spec_should_be_visible(t.notes[n], t.active_app),
    ensures
        reconcile_actions(t, ks) == Seq::<Action>::empty(),
        shown_count(t, ks) == 0,
    decreases ks.len(),
{
    if ks.len() > 0 {
        lemma_settled_pass(t, ks.drop_last());
        assert(!becomes_hidden(t, ks.last()));
        assert(!becomes_visible(t, ks.last()));
    }
}

/// A visibility pass is idempotent: right after one, another changes
/// nothing and asks for nothing.
pub proof fn law_visibility_pass_idempotent(
    s: AppView,
    t: AppView,
    acts: Seq<Action>,
    u: AppView,
    acts2: Seq<Action>,
)
    requires
        s.wf(),
        t.wf(),
        reconcile_post(s, t, acts),
        reconcile_post(t, u, acts2),
    ensures
        acts2.len() == 0,
        u == t,
{
    assert forall|n: u64| #[trigger] t.note_surface.contains_key(n) <==> t.notes.contains_key(n)
        && spec_should_be_visible(t.notes[n], t.active_app) by {
    }
    lemma_settled_pass(t, ascending(t.notes.dom()));
    assert forall|n: u64| #[trigger] u.note_surface.contains_key(n) implies u.note_surface[n]
        == t.note_surface[n] by {
    }
    assert(u.note_surface =~= t.note_surface);
    assert forall|sid: u64| #[trigger] u.surfaces.contains_key(sid) <==> t.surfaces.contains_key(sid) by {
        if t.surfaces.contains_key(sid) && crate::app::removed_by_reconcile(t, sid) {
            assert(becomes_hidden(t, t.surfaces[sid]));
        }
    }
    assert forall|sid: u64| #[trigger] u.surfaces.contains_key(sid) implies u.surfaces[sid]
        == t.surfaces[sid] by {
    }
    assert(u.surfaces =~= t.surfaces);
}

/// Right after a visibility pass another pass creates no surface, so it is
/// admitted however few surface ids remain.
pub proof fn law_pass_leaves_room(s: AppView, t: AppView, acts: Seq<Action>)
    requires
        s.wf(),
        t.wf(),
        reconcile_post(s, t, acts),
    ensures
        shown_count(t, ascending(t.notes.dom())) == 0,
        t.pass_fits(),
{
    assert forall|n: u64| #[trigger] t.note_surface.contains_key(n) <==> t.notes.contains_key(n)
        && spec_should_be_visible(t.notes[n], t.active_app) by {
    }
    lemma_settled_pass(t, ascending(t.notes.dom()));
}

/// In every valid state whose surfaces are paired, the surface -> note and
/// note -> surface maps are inverse to each other.
pub proof fn law_surface_maps_are_inverse(s: AppView, sid: u64, n: u64)
    requires
        s.wf(),
        s.surfaces_paired(),
    ensures
        (s.surfaces.contains_key(sid) && s.surfaces[sid] == n) <==> (s.note_surface.contains_key(n)
            && s.note_surface[n] == sid),
{
}

/// A dragged item never ends up at a negative coordinate.
pub proof fn law_drag_stays_on_screen(start: i32, press: i64, pos: i64)
    ensures
        drag_coord(start, press, pos) >= 0,
{
}

/// A resized note's width stays within [minimum width, MAX_NOTE_WIDTH].
pub proof fn law_resize_within_bounds(start: i32, press: i64, pos: i64, min: i32)
    requires
        min <= MAX_NOTE_WIDTH,
    ensures
        min <= resize_width(start, press, pos, min) <= MAX_NOTE_WIDTH,
{
}

/// After an edge hop the item's top edge lies on the target output:
/// between 0 and the output's height less the item's height (or 0).
pub proof fn law_hop_lands_inside(y: int, target_height: int, height: int)
    requires
        i32::MIN <= y <= i32::MAX,
        i32::MIN <= target_height <= i32::MAX,
        0 <= height <= i32::MAX,
    ensures
        0 <= hop_y(y, target_height, height),
        target_height - height >= 0 ==> hop_y(y, target_height, height) <= target_height - height,
{
}

/// Cycling to the next output wraps from the rightmost to the leftmost.
pub proof fn law_next_output_wraps(outputs: Seq<crate::outputs::OutputInfo>)
    requires
        outputs.len() >= 2,
    ensures
        next_output_name(outputs, outputs.len() - 1) == outputs[0].name,
        forall|i: int| 0 <= i < outputs.len() - 1 ==> #[trigger] next_output_name(outputs, i)
            == outputs[i + 1].name,
{
    let len = outputs.len() as int;
    assert(len % len == 0) by (nonlinear_arith)
        requires
            len > 0,
    ;
    assert forall|i: int| 0 <= i < outputs.len() - 1 implies #[trigger] next_output_name(outputs, i)
        == outputs[i + 1].name by {
        vstd::arithmetic::div_mod::lemma_small_mod((i + 1) as nat, len as nat);
    }
}

} // verus!
