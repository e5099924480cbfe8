use postit::colors::NoteColor;
use postit::focus::{state_is_activated, Backend, FocusState, ACTIVATED_STATE};
use postit::layer::{
    list_layer_settings, note_layer_settings, resolve_output_option, toolbar_layer_settings,
    OutputTarget, SurfaceRole,
};
use postit::list_view::{label_for, label_from_trimmed};
use postit::note::Note;
use postit::outputs::{find_output, OutputInfo, OutputsState};
use postit::settings::SizePreset;
use postit::tray::{activate_event, color_label, menu, note_icon, MenuEntry, TrayEvent};

fn state_bytes(words: &[u32]) -> Vec<u8> {
    words.iter().flat_map(|w| w.to_ne_bytes()).collect()
}

#[test]
fn activated_state_is_detected_in_native_byte_order() {
    assert!(state_is_activated(&state_bytes(&[1, ACTIVATED_STATE, 4])));
    assert!(!state_is_activated(&state_bytes(&[1, 3, 4])));
    assert!(!state_is_activated(&vec![]));
    let mut partial = state_bytes(&[1]);
    partial.extend_from_slice(&[2, 0]);
    assert!(!state_is_activated(&partial));
    let mut other_order: Vec<u8> = ACTIVATED_STATE.to_ne_bytes().to_vec();
    other_order.reverse();
    assert!(!state_is_activated(&other_order));
}

#[test]
fn focus_reports_active_app_on_done_once() {
    let mut f = FocusState::new();
    f.toplevel_created(Backend::Wlr, 10);
    f.toplevel_app_id(Backend::Wlr, 10, "firefox".to_string());
    f.toplevel_state(Backend::Wlr, 10, &state_bytes(&[ACTIVATED_STATE]));
    assert_eq!(f.toplevel_done(Backend::Wlr, 10).as_deref(), Some("firefox"));
    assert_eq!(f.toplevel_done(Backend::Wlr, 10), None);
    f.toplevel_created(Backend::Wlr, 11);
    f.toplevel_app_id(Backend::Wlr, 11, "code".to_string());
    f.toplevel_state(Backend::Wlr, 10, &state_bytes(&[]));
    assert_eq!(f.toplevel_done(Backend::Wlr, 10), None);
    f.toplevel_state(Backend::Wlr, 11, &state_bytes(&[ACTIVATED_STATE]));
    assert_eq!(f.toplevel_done(Backend::Wlr, 11).as_deref(), Some("code"));
    assert_eq!(f.toplevel_closed(Backend::Wlr, 11), None);
}

#[test]
fn focus_prefers_wlr_over_cosmic() {
    let mut f = FocusState::new();
    f.toplevel_created(Backend::Cosmic, 1);
    f.toplevel_app_id(Backend::Cosmic, 1, "term".to_string());
    f.toplevel_state(Backend::Cosmic, 1, &state_bytes(&[ACTIVATED_STATE]));
    assert_eq!(f.toplevel_done(Backend::Cosmic, 1).as_deref(), Some("term"));
    f.toplevel_created(Backend::Wlr, 2);
    f.toplevel_app_id(Backend::Wlr, 2, "mail".to_string());
    f.toplevel_state(Backend::Wlr, 2, &state_bytes(&[ACTIVATED_STATE]));
    assert_eq!(f.toplevel_done(Backend::Wlr, 2).as_deref(), Some("mail"));
    assert_eq!(f.toplevel_closed(Backend::Wlr, 2).as_deref(), Some("term"));
}

#[test]
fn reports_for_unknown_toplevels_are_ignored() {
    let mut f = FocusState::new();
    f.toplevel_app_id(Backend::Wlr, 5, "ghost".to_string());
    f.toplevel_state(Backend::Wlr, 5, &state_bytes(&[ACTIVATED_STATE]));
    assert_eq!(f.toplevel_done(Backend::Wlr, 5), None);
}

fn info(name: &str, x: i32) -> OutputInfo {
    OutputInfo { name: name.to_string(), x, y: 0, width: 100, height: 50 }
}

#[test]
fn outputs_are_assembled_and_sorted_left_to_right() {
    let mut st = OutputsState::new();
    st.set_name(1, "DP-2".to_string());
    st.set_logical_position(1, 1920, 0);
    st.set_logical_size(1, 2560, 1440);
    st.finalize(1);
    st.set_logical_position(2, 0, 0);
    st.set_name(2, "DP-1".to_string());
    st.set_logical_size(2, 1920, 1080);
    st.finalize(2);
    st.finalize(99);
    let out = st.finish();
    let names: Vec<&str> = out.iter().map(|o| o.name.as_str()).collect();
    assert_eq!(names, vec!["DP-1", "DP-2"]);
    assert_eq!((out[1].x, out[1].width, out[1].height), (1920, 2560, 1440));
}

#[test]
fn unfinished_outputs_count_only_with_a_name() {
    let mut st = OutputsState::new();
    st.set_name(7, "HDMI-1".to_string());
    st.set_logical_position(7, 500, 0);
    st.set_logical_size(8, 800, 600);
    st.set_name(3, "eDP-1".to_string());
    let out = st.finish();
    let names: Vec<&str> = out.iter().map(|o| o.name.as_str()).collect();
    assert_eq!(names, vec!["eDP-1", "HDMI-1"]);
}

#[test]
fn sorting_by_x_is_stable() {
    let mut st = OutputsState::new();
    for (id, name, x) in [(1u64, "A", 10), (2, "B", 0), (3, "C", 10), (4, "D", 0)] {
        st.set_name(id, name.to_string());
        st.set_logical_position(id, x, 0);
        st.finalize(id);
    }
    let names: Vec<String> = st.finish().into_iter().map(|o| o.name).collect();
    assert_eq!(names, vec!["B", "D", "A", "C"]);
}

#[test]
fn find_output_returns_first_match() {
    let outs = vec![info("A", 0), info("B", 1), info("B", 2)];
    assert_eq!(find_output(&outs, &"B".to_string()), Some(1));
    assert_eq!(find_output(&outs, &"Z".to_string()), None);
    let d = outs[2].duplicate();
    assert_eq!((d.name.as_str(), d.x), ("B", 2));
}

#[test]
fn note_surface_output_follows_recorded_output() {
    let outs = vec![info("DP-1", 0)];
    let mut n = Note::new(1, NoteColor::Yellow, 3, 4, None);
    assert!(matches!(resolve_output_option(&n, &outs), OutputTarget::Compositor));
    n.output = Some("DP-1".to_string());
    assert!(matches!(resolve_output_option(&n, &outs), OutputTarget::Named(ref s) if s == "DP-1"));
    n.output = Some("gone".to_string());
    assert!(matches!(resolve_output_option(&n, &outs), OutputTarget::Compositor));
    n.width = 300;
    let s = note_layer_settings(&n, true, &outs, SizePreset::Small);
    assert_eq!(s.size, (300, 60));
    assert_eq!(s.margin, (4, 0, 0, 3));
    assert_eq!(s.role.namespace(), "postit-note");
}

#[test]
fn toolbar_and_list_settings() {
    let t = toolbar_layer_settings();
    assert_eq!(t.size, (300, 36));
    assert_eq!(t.role, SurfaceRole::Toolbar);
    assert_eq!(t.role.namespace(), "postit-toolbar");
    let l = list_layer_settings(&Some("DP-1".to_string()), &vec![info("DP-1", 0)], (7, 9));
    assert_eq!(l.margin, (9, 0, 0, 7));
    assert!(matches!(l.output, OutputTarget::Named(ref s) if s == "DP-1"));
    assert_eq!(l.role.namespace(), "postit-list");
}

#[test]
fn tray_labels_menu_and_click() {
    assert_eq!(color_label(NoteColor::Yellow), "노랑");
    assert_eq!(color_label(NoteColor::Gray), "회색");
    assert!(matches!(activate_event(), TrayEvent::NewNote(NoteColor::Yellow)));
    let m = menu();
    assert_eq!(m.len(), 9);
    match &m[0] {
        MenuEntry::Submenu { label, items } => {
            assert_eq!(*label, "새 포스트잇");
            assert_eq!(items.len(), 6);
            assert_eq!(items[5].label, "회색");
            assert!(matches!(items[5].event, TrayEvent::NewNote(NoteColor::Gray)));
        }
        _ => panic!("first entry is the new-note submenu"),
    }
    assert!(matches!(m[1], MenuEntry::Separator));
    match &m[6] {
        MenuEntry::Submenu { label, items } => {
            assert_eq!(*label, "투명도");
            let levels: Vec<&str> = items.iter().map(|i| i.label).collect();
            assert_eq!(levels, vec!["100%", "90%", "80%", "70%", "60%"]);
            assert!(matches!(items[4].event, TrayEvent::SetOpacity(60)));
        }
        _ => panic!("opacity submenu"),
    }
    assert!(matches!(&m[8], MenuEntry::Item(i) if i.label == "종료" && matches!(i.event, TrayEvent::Quit)));
}

#[test]
fn tray_icon_pixels() {
    let icon = note_icon();
    assert_eq!((icon.width, icon.height), (22, 22));
    assert_eq!(icon.data.len(), 22 * 22 * 4);
    let px = |x: usize, y: usize| {
        let i = (y * 22 + x) * 4;
        [icon.data[i], icon.data[i + 1], icon.data[i + 2], icon.data[i + 3]]
    };
    assert_eq!(px(0, 0), [255, 196, 169, 10]);
    assert_eq!(px(5, 5), [255, 255, 241, 118]);
    assert_eq!(px(21, 15), [255, 170, 145, 20]);
    assert_eq!(px(15, 21), [255, 170, 145, 20]);
    assert_eq!(px(21, 21), [255, 222, 196, 64]);
    assert_eq!(px(15, 15), [255, 255, 241, 118]);
}

#[test]
fn list_labels() {
    let mut n = Note::new(1, NoteColor::Yellow, 0, 0, None);
    assert_eq!(label_for(&n), "(빈 메모)");
    n.text = "   \t ".to_string();
    assert_eq!(label_for(&n), "(빈 메모)");
    n.text = "  buy milk  ".to_string();
    assert_eq!(label_for(&n), "buy milk");
    n.text = "a".repeat(24);
    assert_eq!(label_for(&n), "a".repeat(24));
    n.text = "가".repeat(30);
    assert_eq!(label_for(&n), format!("{}…", "가".repeat(24)));
    assert_eq!(label_from_trimmed("x"), "x");
}

#[test]
fn list_labels_trim_unicode_white_space_only_at_the_ends() {
    let mut n = Note::new(2, NoteColor::Blue, 0, 0, None);
    n.text = "\u{3000}\u{a0}memo\u{2003}x\u{85}\n".to_string();
    assert_eq!(label_for(&n), "memo\u{2003}x");
    n.text = "\u{200b}memo".to_string();
    assert_eq!(label_for(&n), "\u{200b}memo");
}
