use postit::app::{DragTarget, Message, PointerEvent, PostitApp, ViewTarget, LIST_DEFAULT_POS};
use postit::colors::NoteColor;
use postit::layer::{Action, Anchor, KeyboardMode, OutputTarget, SurfaceRole};
use postit::note::Note;
use postit::outputs::OutputInfo;
use postit::settings::{AppSettings, SizePreset};
use postit::tray::{TrayEvent, TrayMessage};

fn output(name: &str, x: i32, width: i32, height: i32) -> OutputInfo {
    OutputInfo { name: name.to_string(), x, y: 0, width, height }
}

fn two_outputs() -> Vec<OutputInfo> {
    vec![output("DP-1", 0, 1920, 1080), output("HDMI-1", 1920, 1280, 720)]
}

fn note(id: u64, output: Option<&str>) -> Note {
    let mut n = Note::new(id, NoteColor::Yellow, 100, 100, None);
    n.output = output.map(|s| s.to_string());
    n
}

fn app_with(notes: Vec<Note>, outputs: Vec<OutputInfo>) -> PostitApp {
    PostitApp::new(AppSettings::default(), notes, outputs).0
}

fn moved(x: i64, y: i64, now: u64) -> PointerEvent {
    PointerEvent::CursorMoved { x: x * 256, y: y * 256, now }
}

#[test]
fn startup_shows_every_note_and_migrates_legacy_ones() {
    let notes = vec![note(1, None), note(2, Some("HDMI-1"))];
    let (app, acts) = PostitApp::new(AppSettings::default(), notes, two_outputs());
    assert!(matches!(acts[0], Action::SaveNotes));
    assert_eq!(acts.len(), 3);
    match &acts[1] {
        Action::NewLayerShell { settings, id } => {
            assert_eq!(*id, 0);
            assert!(matches!(&settings.output, OutputTarget::Named(n) if n == "DP-1"));
            assert_eq!(settings.size, (152, 40));
            assert_eq!(settings.margin, (100, 0, 0, 100));
            assert_eq!(settings.anchor, Anchor::TopLeft);
            assert_eq!(settings.keyboard, KeyboardMode::OnDemand);
            assert_eq!(settings.role, SurfaceRole::Note);
        }
        other => panic!("unexpected {:?}", other),
    }
    assert_eq!(app.note(1).unwrap().output.as_deref(), Some("DP-1"));
    assert_eq!(app.surface_of(1), Some(0));
    assert_eq!(app.surface_of(2), Some(1));
    assert_eq!(app.list_pos(), LIST_DEFAULT_POS);
}

#[test]
fn startup_without_outputs_does_not_migrate() {
    let (app, acts) = PostitApp::new(AppSettings::default(), vec![note(5, None)], vec![]);
    assert_eq!(acts.len(), 1);
    match &acts[0] {
        Action::NewLayerShell { settings, .. } => {
            assert!(matches!(settings.output, OutputTarget::Compositor))
        }
        other => panic!("unexpected {:?}", other),
    }
    assert_eq!(app.note(5).unwrap().output, None);
}

#[test]
fn create_note_cascades_and_focuses_input() {
    let mut app = app_with(vec![], two_outputs());
    let acts = app.create_note_with_id(NoteColor::Pink, 42);
    assert_eq!(acts.len(), 3);
    assert!(matches!(acts[0], Action::SaveNotes));
    assert!(matches!(acts[2], Action::FocusNoteInput(42)));
    let n = app.note(42).unwrap();
    assert_eq!((n.x, n.y), (120, 120));
    assert_eq!(n.output.as_deref(), Some("DP-1"));
    assert_eq!(n.color, NoteColor::Pink);
    let acts = app.create_note_with_id(NoteColor::Blue, 43);
    let n = app.note(43).unwrap();
    assert_eq!((n.x, n.y), (144, 144));
    match &acts[1] {
        Action::NewLayerShell { settings, .. } => assert_eq!(settings.margin, (144, 0, 0, 144)),
        other => panic!("unexpected {:?}", other),
    }
}

#[test]
fn cascade_wraps_every_ten_notes() {
    let mut app = app_with(vec![], vec![]);
    for id in 0..10 {
        app.create_note_with_id(NoteColor::Yellow, id);
    }
    app.create_note_with_id(NoteColor::Yellow, 100);
    let n = app.note(100).unwrap();
    assert_eq!((n.x, n.y), (120, 120));
}

#[test]
fn create_note_binds_to_active_program_and_uses_preset_width() {
    let mut app = app_with(vec![], vec![]);
    app.update(Message::SetSizePreset(SizePreset::Small));
    app.update(Message::ActiveAppChanged("firefox".to_string()));
    app.create_note_with_id(NoteColor::Gray, 9);
    let n = app.note(9).unwrap();
    assert_eq!(n.bound_app.as_deref(), Some("firefox"));
    assert_eq!(n.width, 120);
    assert_eq!(n.output, None);
}

#[test]
fn create_note_with_clock_id() {
    let mut app = app_with(vec![], vec![]);
    let acts = app.update(Message::CreateNote(NoteColor::Green));
    let id = match acts[2] {
        Action::FocusNoteInput(id) => id,
        ref other => panic!("unexpected {:?}", other),
    };
    assert!(id != 0);
    assert!(app.note(id).is_some());
}

#[test]
fn toggle_menu_twice_restores_size() {
    let mut app = app_with(vec![note(1, None)], vec![]);
    let sid = app.surface_of(1).unwrap();
    let open = app.update(Message::ToggleMenu(1));
    assert!(matches!(open[0], Action::SizeChange { id, size: (240, 76) } if id == sid));
    assert!(app.menu_is_open(1));
    let close = app.update(Message::ToggleMenu(1));
    assert!(matches!(close[0], Action::SizeChange { id, size: (152, 40) } if id == sid));
    assert!(!app.menu_is_open(1));
}

#[test]
fn toggle_menu_keeps_wider_notes_wide() {
    let mut n = note(1, None);
    n.width = 500;
    let mut app = app_with(vec![n], vec![]);
    let open = app.update(Message::ToggleMenu(1));
    assert!(matches!(open[0], Action::SizeChange { size: (500, 76), .. }));
}

#[test]
fn toggle_menu_of_hidden_note_does_nothing() {
    let mut app = app_with(vec![], vec![]);
    assert!(app.update(Message::ToggleMenu(77)).is_empty());
}

#[test]
fn text_change_is_read_back_and_saved() {
    let mut app = app_with(vec![note(1, None)], vec![]);
    let acts = app.update(Message::TextChanged(1, "buy milk".to_string()));
    assert_eq!(acts.len(), 1);
    assert!(matches!(acts[0], Action::SaveNotes));
    assert_eq!(app.note(1).unwrap().text, "buy milk");
}

#[test]
fn color_change_closes_open_menu() {
    let mut app = app_with(vec![note(1, None)], vec![]);
    app.update(Message::ToggleMenu(1));
    let acts = app.update(Message::ColorChanged(1, NoteColor::Orange));
    assert_eq!(acts.len(), 2);
    assert!(matches!(acts[0], Action::SaveNotes));
    assert!(matches!(acts[1], Action::SizeChange { size: (152, 40), .. }));
    assert_eq!(app.note(1).unwrap().color, NoteColor::Orange);
    assert!(!app.menu_is_open(1));
    let acts = app.update(Message::ColorChanged(1, NoteColor::Blue));
    assert_eq!(acts.len(), 1);
}

#[test]
fn notes_bound_to_other_programs_hide_and_come_back() {
    let mut a = note(1, None);
    a.bound_app = Some("firefox".to_string());
    let mut b = note(2, None);
    b.bound_app = Some("code".to_string());
    let c = note(3, None);
    let mut app = app_with(vec![a, b, c], vec![]);
    let s2 = app.surface_of(2).unwrap();
    let acts = app.update(Message::ActiveAppChanged("firefox".to_string()));
    assert_eq!(acts.len(), 1);
    assert!(matches!(acts[0], Action::RemoveWindow(id) if id == s2));
    assert!(app.surface_of(1).is_some());
    assert!(app.surface_of(2).is_none());
    assert!(app.surface_of(3).is_some());
    let acts = app.update(Message::ActiveAppChanged("code".to_string()));
    assert_eq!(acts.len(), 2);
    assert!(matches!(acts[0], Action::RemoveWindow(_)));
    assert!(matches!(acts[1], Action::NewLayerShell { id: 3, .. }));
    assert!(app.surface_of(1).is_none());
    assert_eq!(app.surface_of(2), Some(3));
}

#[test]
fn own_activation_and_repeats_change_nothing() {
    let mut a = note(1, None);
    a.bound_app = Some("firefox".to_string());
    let mut app = app_with(vec![a], vec![]);
    app.update(Message::ActiveAppChanged("code".to_string()));
    assert!(app.surface_of(1).is_none());
    assert!(app.update(Message::ActiveAppChanged("postit".to_string())).is_empty());
    assert!(app.update(Message::ActiveAppChanged(String::new())).is_empty());
    assert!(app.update(Message::ActiveAppChanged("code".to_string())).is_empty());
    assert_eq!(app.active_app().as_deref(), Some("code"));
    assert!(app.surface_of(1).is_none());
}

#[test]
fn pinned_note_stays_visible() {
    let mut a = note(1, None);
    a.bound_app = Some("firefox".to_string());
    let mut app = app_with(vec![a], vec![]);
    app.update(Message::ActiveAppChanged("code".to_string()));
    let acts = app.update(Message::ToggleAlwaysVisible(1));
    assert!(matches!(acts[0], Action::SaveNotes));
    assert!(matches!(acts.last().unwrap(), Action::NewLayerShell { .. }));
    assert!(app.note(1).unwrap().always_visible);
    assert!(app.surface_of(1).is_some());
    app.update(Message::ActiveAppChanged("gimp".to_string()));
    assert!(app.surface_of(1).is_some());
}

#[test]
fn rebind_moves_note_to_active_program() {
    let mut a = note(1, None);
    a.bound_app = Some("firefox".to_string());
    let mut app = app_with(vec![a], vec![]);
    app.update(Message::ActiveAppChanged("firefox".to_string()));
    app.update(Message::ActiveAppChanged("code".to_string()));
    assert!(app.surface_of(1).is_none());
    app.update(Message::ImportNote(1));
    assert!(app.surface_of(1).is_some());
    let acts = app.update(Message::RebindApp(1));
    assert_eq!(acts.len(), 1);
    assert_eq!(app.note(1).unwrap().bound_app.as_deref(), Some("code"));
}

#[test]
fn delete_removes_note_and_surface() {
    let mut app = app_with(vec![note(1, None), note(2, None)], vec![]);
    let sid = app.surface_of(1).unwrap();
    app.update(Message::ToggleMenu(1));
    let acts = app.update(Message::DeleteNote(1));
    assert_eq!(acts.len(), 2);
    assert!(matches!(acts[0], Action::RemoveWindow(id) if id == sid));
    assert!(matches!(acts[1], Action::SaveNotes));
    assert!(app.note(1).is_none());
    assert!(app.surface_of(1).is_none());
    assert!(!app.menu_is_open(1));
    assert_eq!(app.note_ids(), vec![2]);
}

#[test]
fn create_then_delete_restores_notes() {
    let mut app = app_with(vec![note(1, None)], vec![]);
    app.create_note_with_id(NoteColor::Yellow, 50);
    app.update(Message::DeleteNote(50));
    assert_eq!(app.note_ids(), vec![1]);
}

#[test]
fn move_to_next_output_cycles_and_resets_position() {
    let mut app = app_with(vec![note(1, Some("DP-1"))], two_outputs());
    let old = app.surface_of(1).unwrap();
    app.update(Message::ToggleMenu(1));
    let acts = app.update(Message::MoveToNextOutput(1));
    assert_eq!(acts.len(), 4);
    assert!(matches!(acts[0], Action::RemoveWindow(id) if id == old));
    let new_sid = app.surface_of(1).unwrap();
    match &acts[1] {
        Action::NewLayerShell { settings, id } => {
            assert_eq!(*id, new_sid);
            assert!(matches!(&settings.output, OutputTarget::Named(n) if n == "HDMI-1"));
            assert_eq!(settings.size, (152, 40));
        }
        other => panic!("unexpected {:?}", other),
    }
    assert!(matches!(acts[2], Action::MarginChange { margin: (160, 0, 0, 160), .. }));
    assert!(matches!(acts[3], Action::SaveNotes));
    assert!(!app.menu_is_open(1));
    app.update(Message::MoveToNextOutput(1));
    assert_eq!(app.note(1).unwrap().output.as_deref(), Some("DP-1"));
}

#[test]
fn move_to_next_output_needs_two_outputs() {
    let mut app = app_with(vec![note(1, Some("DP-1"))], vec![output("DP-1", 0, 1920, 1080)]);
    assert!(app.update(Message::MoveToNextOutput(1)).is_empty());
}

#[test]
fn drag_moves_note_by_whole_pixels_at_most_every_8ms() {
    let mut app = app_with(vec![note(1, Some("DP-1"))], two_outputs());
    let sid = app.surface_of(1).unwrap();
    app.update(Message::DragStart(1));
    assert!(matches!(app.drag().unwrap().target, DragTarget::Note(1)));
    assert!(app.update(Message::IcedEvent(sid, moved(10, 10, 1_000_000_000))).is_empty());
    let acts = app.update(Message::IcedEvent(sid, moved(30, 15, 1_001_000_000)));
    assert!(matches!(acts[0], Action::MarginChange { margin: (105, 0, 0, 120), .. }));
    assert!(app
        .update(Message::IcedEvent(sid, moved(40, 15, 1_005_000_000)))
        .is_empty());
    let acts = app.update(Message::IcedEvent(sid, moved(40, 15, 1_009_000_000)));
    assert!(matches!(acts[0], Action::MarginChange { margin: (105, 0, 0, 130), .. }));
    assert_eq!((app.note(1).unwrap().x, app.note(1).unwrap().y), (130, 105));
}

#[test]
fn drag_rounds_subpixels_half_away_from_zero() {
    let mut app = app_with(vec![note(1, None)], vec![]);
    let sid = app.surface_of(1).unwrap();
    app.update(Message::DragStart(1));
    app.update(Message::IcedEvent(sid, PointerEvent::CursorMoved { x: 0, y: 0, now: 0 }));
    let acts = app.update(Message::IcedEvent(
        sid,
        PointerEvent::CursorMoved { x: 128, y: -128, now: 10_000_000 },
    ));
    assert!(matches!(acts[0], Action::MarginChange { margin: (99, 0, 0, 101), .. }));
}

#[test]
fn drag_never_goes_negative() {
    let mut app = app_with(vec![note(1, None)], vec![]);
    let sid = app.surface_of(1).unwrap();
    app.update(Message::DragStart(1));
    app.update(Message::IcedEvent(sid, moved(500, 500, 0)));
    let acts = app.update(Message::IcedEvent(sid, moved(0, 0, 10_000_000)));
    assert!(matches!(acts[0], Action::MarginChange { margin: (0, 0, 0, 0), .. }));
}

#[test]
fn drag_ignores_other_surfaces_and_resize() {
    let mut app = app_with(vec![note(1, None), note(2, None)], vec![]);
    let s2 = app.surface_of(2).unwrap();
    app.update(Message::ResizeStart(1));
    assert!(app.resize().is_some());
    app.update(Message::DragStart(1));
    assert!(app.resize().is_none());
    assert!(app.drag().is_some());
    assert!(app.update(Message::IcedEvent(s2, moved(1, 1, 0))).is_empty());
    assert!(app.drag().unwrap().press.is_none());
}

#[test]
fn release_after_drag_saves() {
    let mut app = app_with(vec![note(1, Some("DP-1"))], two_outputs());
    let sid = app.surface_of(1).unwrap();
    app.update(Message::DragStart(1));
    let acts = app.update(Message::IcedEvent(sid, PointerEvent::LeftReleased));
    assert_eq!(acts.len(), 1);
    assert!(matches!(acts[0], Action::SaveNotes));
    assert!(app.drag().is_none());
}

#[test]
fn release_at_right_edge_hops_to_next_output() {
    let mut n = note(1, Some("DP-1"));
    n.x = 1920 - 152;
    n.y = 900;
    let mut app = app_with(vec![n], two_outputs());
    let sid = app.surface_of(1).unwrap();
    app.update(Message::DragStart(1));
    let acts = app.update(Message::IcedEvent(sid, PointerEvent::LeftReleased));
    assert_eq!(acts.len(), 4);
    assert!(matches!(acts[0], Action::RemoveWindow(id) if id == sid));
    assert!(matches!(acts[3], Action::SaveNotes));
    let n = app.note(1).unwrap();
    assert_eq!(n.output.as_deref(), Some("HDMI-1"));
    assert_eq!(n.x, 8);
    assert_eq!(n.y, 720 - 40);
}

#[test]
fn release_at_left_edge_hops_to_previous_output() {
    let mut n = note(1, Some("HDMI-1"));
    n.x = 1;
    n.y = 50;
    let mut app = app_with(vec![n], two_outputs());
    let sid = app.surface_of(1).unwrap();
    app.update(Message::DragStart(1));
    app.update(Message::IcedEvent(sid, PointerEvent::LeftReleased));
    let n = app.note(1).unwrap();
    assert_eq!(n.output.as_deref(), Some("DP-1"));
    assert_eq!(n.x, 1920 - 152 - 8);
    assert_eq!(n.y, 50);
}

#[test]
fn no_hop_from_outermost_edges() {
    let mut n = note(1, Some("DP-1"));
    n.x = 0;
    let mut app = app_with(vec![n], two_outputs());
    let sid = app.surface_of(1).unwrap();
    app.update(Message::DragStart(1));
    let acts = app.update(Message::IcedEvent(sid, PointerEvent::LeftReleased));
    assert_eq!(acts.len(), 1);
    assert_eq!(app.note(1).unwrap().output.as_deref(), Some("DP-1"));
}

#[test]
fn resize_clamps_width_and_saves_on_release() {
    let mut app = app_with(vec![note(1, None)], vec![]);
    let sid = app.surface_of(1).unwrap();
    app.update(Message::ResizeStart(1));
    app.update(Message::IcedEvent(sid, moved(0, 0, 0)));
    let acts = app.update(Message::IcedEvent(sid, moved(5, 0, 10_000_000)));
    assert!(matches!(acts[0], Action::SizeChange { size: (240, 40), .. }));
    let acts = app.update(Message::IcedEvent(sid, moved(2000, 0, 20_000_000)));
    assert!(matches!(acts[0], Action::SizeChange { size: (800, 40), .. }));
    let acts = app.update(Message::IcedEvent(sid, moved(300, 0, 30_000_000)));
    assert!(matches!(acts[0], Action::SizeChange { size: (452, 40), .. }));
    assert_eq!(app.note(1).unwrap().width, 452);
    let acts = app.update(Message::IcedEvent(sid, PointerEvent::LeftReleased));
    assert_eq!(acts.len(), 1);
    assert!(matches!(acts[0], Action::SaveNotes));
    assert!(app.resize().is_none());
}

#[test]
fn other_pointer_events_do_nothing() {
    let mut app = app_with(vec![note(1, None)], vec![]);
    let sid = app.surface_of(1).unwrap();
    app.update(Message::DragStart(1));
    assert!(app.update(Message::IcedEvent(sid, PointerEvent::Other)).is_empty());
}

#[test]
fn toggle_list_twice_closes_what_it_opened() {
    let mut app = app_with(vec![], two_outputs());
    let acts = app.update(Message::ToggleList);
    let id = match &acts[0] {
        Action::NewLayerShell { settings, id } => {
            assert_eq!(settings.size, (320, 300));
            assert_eq!(settings.margin, (48, 0, 0, 200));
            assert_eq!(settings.role, SurfaceRole::List);
            assert_eq!(settings.keyboard, KeyboardMode::NoFocus);
            *id
        }
        other => panic!("unexpected {:?}", other),
    };
    assert_eq!(app.view_target(id), ViewTarget::List);
    let acts = app.update(Message::ToggleList);
    assert!(matches!(acts[0], Action::RemoveWindow(x) if x == id));
    assert_eq!(app.list_surface(), None);
}

#[test]
fn list_moves_to_next_output_and_drags() {
    let mut app = app_with(vec![], two_outputs());
    assert!(app.update(Message::MoveListToNextOutput).is_empty());
    assert_eq!(app.list_output().as_deref(), None);
    app.update(Message::ToggleList);
    let acts = app.update(Message::MoveListToNextOutput);
    assert_eq!(acts.len(), 3);
    assert_eq!(app.list_output().as_deref(), Some("HDMI-1"));
    let sid = app.list_surface().unwrap();
    app.update(Message::ListDragStart);
    assert!(matches!(app.drag().unwrap().target, DragTarget::List));
    app.update(Message::IcedEvent(sid, moved(0, 0, 0)));
    let acts = app.update(Message::IcedEvent(sid, moved(-500, 10, 10_000_000)));
    assert!(matches!(acts[0], Action::MarginChange { margin: (58, 0, 0, 0), .. }));
    let acts = app.update(Message::IcedEvent(sid, PointerEvent::LeftReleased));
    assert_eq!(acts.len(), 3);
    assert_eq!(app.list_output().as_deref(), Some("DP-1"));
    assert_eq!(app.list_pos(), (1920 - 320 - 8, 58));
}

#[test]
fn import_brings_hidden_note_back_on_leftmost_output() {
    let mut a = note(1, Some("HDMI-1"));
    a.bound_app = Some("firefox".to_string());
    let mut app = app_with(vec![a, note(2, None)], two_outputs());
    app.update(Message::ActiveAppChanged("code".to_string()));
    assert!(app.surface_of(1).is_none());
    let acts = app.update(Message::ImportNote(1));
    assert_eq!(acts.len(), 2);
    assert!(matches!(acts[0], Action::SaveNotes));
    assert!(matches!(acts[1], Action::NewLayerShell { .. }));
    let n = app.note(1).unwrap();
    assert_eq!((n.x, n.y), (184, 184));
    assert_eq!(n.output.as_deref(), Some("DP-1"));
    assert!(app.surface_of(1).is_some());
}

#[test]
fn import_of_shown_note_only_moves_it() {
    let mut app = app_with(vec![note(1, Some("HDMI-1"))], two_outputs());
    let sid = app.surface_of(1).unwrap();
    let acts = app.update(Message::ImportNote(1));
    assert!(matches!(acts[1], Action::MarginChange { id, margin: (184, 0, 0, 184) } if id == sid));
    assert_eq!(app.note(1).unwrap().output.as_deref(), Some("HDMI-1"));
    assert!(app.update(Message::ImportNote(99)).is_empty());
}

#[test]
fn size_preset_resizes_every_shown_note() {
    let mut app = app_with(vec![note(1, None), note(2, None)], vec![]);
    app.update(Message::ToggleMenu(2));
    let acts = app.update(Message::SetSizePreset(SizePreset::Small));
    assert_eq!(acts.len(), 3);
    assert!(matches!(acts[0], Action::SaveSettings));
    assert!(matches!(acts[1], Action::SizeChange { size: (152, 30), .. }));
    assert!(matches!(acts[2], Action::SizeChange { size: (200, 60), .. }));
    assert_eq!(app.settings().size_preset, SizePreset::Small);
}

#[test]
fn opacity_is_saved() {
    let mut app = app_with(vec![], vec![]);
    let acts = app.update(Message::SetOpacity(70));
    assert!(matches!(acts[0], Action::SaveSettings));
    assert_eq!(app.settings().opacity, 70);
}

#[test]
fn quit_saves_then_exits() {
    let mut app = app_with(vec![], vec![]);
    let acts = app.update(Message::Quit);
    assert!(matches!(acts[0], Action::SaveNotes));
    assert!(matches!(acts[1], Action::Exit));
}

#[test]
fn window_closed_forgets_surface() {
    let mut app = app_with(vec![note(1, None)], vec![]);
    let sid = app.surface_of(1).unwrap();
    assert_eq!(app.view_target(sid), ViewTarget::Note(1));
    app.update(Message::WindowClosed(sid));
    assert!(app.surface_of(1).is_none());
    assert_eq!(app.note_of_surface(sid), None);
    assert_eq!(app.view_target(sid), ViewTarget::Toolbar);
}

#[test]
fn tray_unavailable_shows_toolbar_once() {
    let mut app = app_with(vec![], vec![]);
    assert!(app.update(Message::TrayMessage(TrayMessage::Registered)).is_empty());
    let acts = app.update(Message::TrayMessage(TrayMessage::Unavailable));
    match &acts[0] {
        Action::NewLayerShell { settings, .. } => {
            assert_eq!(settings.size, (300, 36));
            assert_eq!(settings.anchor, Anchor::Top);
            assert_eq!(settings.margin, (8, 0, 0, 0));
            assert_eq!(settings.role, SurfaceRole::Toolbar);
        }
        other => panic!("unexpected {:?}", other),
    }
    assert!(app.toolbar_surface().is_some());
    assert!(app.update(Message::TrayMessage(TrayMessage::Unavailable)).is_empty());
}

#[test]
fn tray_events_route_to_updates() {
    let mut app = app_with(vec![], vec![]);
    let acts = app.update(Message::TrayMessage(TrayMessage::Event(TrayEvent::RefreshOutputs)));
    assert!(matches!(acts[0], Action::RefreshOutputs));
    let acts = app.update(Message::TrayMessage(TrayMessage::Event(TrayEvent::ShowList)));
    assert!(matches!(acts[0], Action::NewLayerShell { .. }));
    let acts = app.update(Message::TrayMessage(TrayMessage::Event(TrayEvent::NewNote(
        NoteColor::Yellow,
    ))));
    assert_eq!(acts.len(), 3);
    let acts = app.update(Message::TrayMessage(TrayMessage::Event(TrayEvent::SetOpacity(60))));
    assert!(matches!(acts[0], Action::SaveSettings));
    assert_eq!(app.settings().opacity, 60);
    let acts = app.update(Message::TrayMessage(TrayMessage::Event(TrayEvent::Quit)));
    assert!(matches!(acts[1], Action::Exit));
}

#[test]
fn refresh_outputs_keeps_old_list_when_enumeration_fails() {
    let mut app = app_with(vec![], two_outputs());
    app.refresh_outputs(vec![]);
    assert_eq!(app.outputs().len(), 2);
    app.refresh_outputs(vec![output("eDP-1", 0, 1366, 768)]);
    assert_eq!(app.outputs().len(), 1);
    assert_eq!(app.outputs()[0].name, "eDP-1");
}

#[test]
fn notes_in_id_order_are_sorted() {
    let app = app_with(vec![note(9, None), note(3, None), note(5, None)], vec![]);
    let ids: Vec<u64> = app.notes_in_id_order().iter().map(|n| n.id).collect();
    assert_eq!(ids, vec![3, 5, 9]);
    assert_eq!(app.note_ids(), vec![3, 5, 9]);
}

#[test]
fn namespace_and_headroom() {
    assert_eq!(PostitApp::namespace(), "postit");
    let app = app_with(vec![note(1, None)], vec![]);
    assert!(app.has_id_headroom());
}

#[test]
fn note_id_from_nanos_keeps_low_bits() {
    assert_eq!(postit::app::note_id_from_nanos(None), 0);
    assert_eq!(postit::app::note_id_from_nanos(Some((1u128 << 64) + 5)), 5);
    assert_eq!(postit::app::note_id_from_nanos(Some(123)), 123);
    assert!(postit::app::new_note_id() > 0);
}

#[test]
fn surface_and_note_maps_stay_inverse() {
    let mut a = note(1, None);
    a.bound_app = Some("firefox".to_string());
    let b = note(2, None);
    let mut app = app_with(vec![a, b], two_outputs());
    app.update(Message::ActiveAppChanged("code".to_string()));
    app.update(Message::ActiveAppChanged("firefox".to_string()));
    app.update(Message::MoveToNextOutput(2));
    app.update(Message::ToggleList);
    for n in app.note_ids() {
        if let Some(sid) = app.surface_of(n) {
            assert_eq!(app.note_of_surface(sid), Some(n));
        }
    }
    for sid in 0..10u64 {
        if let Some(n) = app.note_of_surface(sid) {
            assert_eq!(app.surface_of(n), Some(sid));
        }
    }
    assert_eq!(app.surface_of(1), Some(2));
    assert_eq!(app.surface_of(2), Some(3));
    assert_eq!(app.note_of_surface(1), None);
}

#[test]
fn second_visibility_pass_asks_for_nothing() {
    let mut a = note(1, None);
    a.bound_app = Some("firefox".to_string());
    let mut app = app_with(vec![a, note(2, None)], vec![]);
    app.update(Message::ActiveAppChanged("code".to_string()));
    let first = app.reconcile_visibility();
    assert!(first.is_empty());
    assert!(app.reconcile_visibility().is_empty());
    assert!(app.surface_of(1).is_none());
    assert_eq!(app.surface_of(2), Some(1));
}
