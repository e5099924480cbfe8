//! The tray icon: the events its menu sends, the menu's layout, and the
//! icon's pixels.

use vstd::prelude::*;
use crate::colors::NoteColor;
use crate::settings::SizePreset;

verus! {

/// Events a user can trigger from the tray icon or its menu.
#[derive(Clone, Copy, Debug)]
pub enum TrayEvent {
    NewNote(NoteColor),
    RefreshOutputs,
    ShowList,
    SetSizePreset(SizePreset),
    /// Note opacity, percent.
    SetOpacity(u8),
    Quit,
}

/// What the tray reports to the application.
#[derive(Clone, Copy, Debug)]
pub enum TrayMessage {
    /// The tray icon was registered.
    Registered,
    /// Registration failed; the floating toolbar takes over.
    Unavailable,
    Event(TrayEvent),
}

/// Menu label of each note color.
pub open spec fn spec_color_label(c: NoteColor) -> Seq<char> {
    match c {
        NoteColor::Yellow => "노랑"@,
        NoteColor::Pink => "핑크"@,
        NoteColor::Blue => "파랑"@,
        NoteColor::Green => "그린"@,
        NoteColor::Orange => "오렌지"@,
        NoteColor::Gray => "회색"@,
    }
}

pub fn color_label(color: NoteColor) -> (s: &'static str)
    ensures
        s@ == spec_color_label(color),
{
    proof {
        reveal_strlit("노랑");
        reveal_strlit("핑크");
        reveal_strlit("파랑");
        reveal_strlit("그린");
        reveal_strlit("오렌지");
        reveal_strlit("회색");
    }
    match color {
        NoteColor::Yellow => "노랑",
        NoteColor::Pink => "핑크",
        NoteColor::Blue => "파랑",
        NoteColor::Green => "그린",
        NoteColor::Orange => "오렌지",
        NoteColor::Gray => "회색",
    }
}

/// The event of a left click on the tray icon: a new yellow note.
pub fn activate_event() -> (e: TrayEvent)
    ensures
        e == TrayEvent::NewNote(NoteColor::Yellow),
{
    TrayEvent::NewNote(NoteColor::Yellow)
}

/// A clickable menu entry.
#[derive(Debug)]
pub struct MenuItem {
    pub label: &'static str,
    pub event: TrayEvent,
}

/// One entry of the tray menu.
#[derive(Debug)]
pub enum MenuEntry {
    Item(MenuItem),
    Submenu { label: &'static str, items: Vec<MenuItem> },
    Separator,
}

/// The opacity levels the menu offers, percent.
pub open spec fn opacity_levels() -> Seq<u8> {
    seq![100u8, 90u8, 80u8, 70u8, 60u8]
}

pub open spec fn is_item(m: MenuItem, label: Seq<char>, event: TrayEvent) -> bool {
    m.label@ == label && m.event == event
}

pub open spec fn is_item_entry(e: MenuEntry, label: Seq<char>, event: TrayEvent) -> bool {
    e matches MenuEntry::Item(m) && is_item(m, label, event)
}

/// The layout of the tray menu: a "new note" submenu with one item per
/// color; refresh-outputs and note-list items; a size submenu; an opacity
/// submenu; and quit, with separators between the groups.
pub open spec fn is_tray_menu(entries: Seq<MenuEntry>) -> bool {
    &&& entries.len() == 9
    &&& entries[0] matches MenuEntry::Submenu { label, items } && label@ == "새 포스트잇"@
        && items@.len() == 6 && forall|i: int|
        0 <= i < 6 ==> is_item(
            #[trigger] items@[i],
            spec_color_label(crate::colors::all_colors()[i]),
            TrayEvent::NewNote(crate::colors::all_colors()[i]),
        )
    &&& entries[1] is Separator
    &&& is_item_entry(entries[2], "모니터 새로읽기"@, TrayEvent::RefreshOutputs)
    &&& is_item_entry(entries[3], "포스트잇 목록"@, TrayEvent::ShowList)
    &&& entries[4] is Separator
    &&& entries[5] matches MenuEntry::Submenu { label, items } && label@ == "크기"@
        && items@.len() == 2 && is_item(
        items@[0],
        "기본"@,
        TrayEvent::SetSizePreset(SizePreset::Default),
    ) && is_item(items@[1], "스몰"@, TrayEvent::SetSizePreset(SizePreset::Small))
    &&& entries[6] matches MenuEntry::Submenu { label, items } && label@ == "투명도"@
        && items@.len() == 5 && is_item(items@[0], "100%"@, TrayEvent::SetOpacity(100))
        && is_item(items@[1], "90%"@, TrayEvent::SetOpacity(90)) && is_item(
        items@[2],
        "80%"@,
        TrayEvent::SetOpacity(80),
    ) && is_item(items@[3], "70%"@, TrayEvent::SetOpacity(70)) && is_item(
        items@[4],
        "60%"@,
        TrayEvent::SetOpacity(60),
    )
    &&& entries[7] is Separator
    &&& is_item_entry(entries[8], "종료"@, TrayEvent::Quit)
}

fn item(label: &'static str, event: TrayEvent) -> (m: MenuItem)
    ensures
        m.label == label,
        m.event == event,
{
    MenuItem { label, event }
}

/// The tray menu.
pub fn menu() -> (entries: Vec<MenuEntry>)
    ensures
        is_tray_menu(entries@),
{
    let mut colors: Vec<MenuItem> = Vec::new();
    let all = NoteColor::ALL;
    let mut i: usize = 0;
    proof {
        crate::colors::lemma_all_lists_every_color(NoteColor::Yellow);
    }
    while i < 6
        invariant
            0 <= i <= 6,
            all@ == crate::colors::all_colors(),
            colors@.len() == i,
            forall|k: int|
                0 <= k < i ==> is_item(
                    #[trigger] colors@[k],
                    spec_color_label(crate::colors::all_colors()[k]),
                    TrayEvent::NewNote(crate::colors::all_colors()[k]),
                ),
        decreases 6 - i,
    {
        let c = all[i];
        colors.push(item(color_label(c), TrayEvent::NewNote(c)));
        i = i + 1;
    }
    let mut sizes: Vec<MenuItem> = Vec::new();
    sizes.push(item("기본", TrayEvent::SetSizePreset(SizePreset::Default)));
    sizes.push(item("스몰", TrayEvent::SetSizePreset(SizePreset::Small)));
    let mut opacities: Vec<MenuItem> = Vec::new();
    opacities.push(item("100%", TrayEvent::SetOpacity(100)));
    opacities.push(item("90%", TrayEvent::SetOpacity(90)));
    opacities.push(item("80%", TrayEvent::SetOpacity(80)));
    opacities.push(item("70%", TrayEvent::SetOpacity(70)));
    opacities.push(item("60%", TrayEvent::SetOpacity(60)));
    let mut entries: Vec<MenuEntry> = Vec::new();
    entries.push(MenuEntry::Submenu { label: "새 포스트잇", items: colors });
    entries.push(MenuEntry::Separator);
    entries.push(MenuEntry::Item(item("모니터 새로읽기", TrayEvent::RefreshOutputs)));
    entries.push(MenuEntry::Item(item("포스트잇 목록", TrayEvent::ShowList)));
    entries.push(MenuEntry::Separator);
    entries.push(MenuEntry::Submenu { label: "크기", items: sizes });
    entries.push(MenuEntry::Submenu { label: "투명도", items: opacities });
    entries.push(MenuEntry::Separator);
    entries.push(MenuEntry::Item(item("종료", TrayEvent::Quit)));
    entries
}

/// Side length of the tray icon, px.
pub const ICON_SIZE: i32 = 22;

/// Side length of the folded corner, px.
pub const ICON_FOLD: i32 = 7;

pub open spec fn icon_bg() -> [u8; 3] {
    [255, 241, 118]
}

pub open spec fn icon_border() -> [u8; 3] {
    [196, 169, 10]
}

pub open spec fn icon_fold_face() -> [u8; 3] {
    [222, 196, 64]
}

pub open spec fn icon_fold_edge() -> [u8; 3] {
    [170, 145, 20]
}

/// Color of icon pixel (x, y): a yellow note with a one-pixel border whose
/// bottom-right 7x7 corner is folded along its anti-diagonal (the crease),
/// the flap beyond the crease drawn darker.
pub open spec fn icon_pixel(x: int, y: int) -> [u8; 3] {
    let in_fold = x >= ICON_SIZE - ICON_FOLD && y >= ICON_SIZE - ICON_FOLD;
    let lx = x - (ICON_SIZE - ICON_FOLD);
    let ly = y - (ICON_SIZE - ICON_FOLD);
    if in_fold && lx + ly == ICON_FOLD - 1 {
        icon_fold_edge()
    } else if in_fold && lx + ly > ICON_FOLD - 1 {
        icon_fold_face()
    } else if x == 0 || y == 0 || x == ICON_SIZE - 1 || y == ICON_SIZE - 1 {
        icon_border()
    } else {
        icon_bg()
    }
}

/// Byte `k` of pixel `p` (row-major) in A, R, G, B order.
pub open spec fn icon_byte(p: int, k: int) -> u8 {
    if k == 0 {
        255
    } else {
        icon_pixel(p % ICON_SIZE as int, p / ICON_SIZE as int)[k - 1]
    }
}

/// An ARGB32 pixmap (network byte order: A, R, G, B per pixel).
#[derive(Debug)]
pub struct IconPixmap {
    pub width: i32,
    pub height: i32,
    pub data: Vec<u8>,
}

fn pixel_color(x: i32, y: i32) -> (c: [u8; 3])
    requires
        0 <= x < ICON_SIZE,
        0 <= y < ICON_SIZE,
    ensures
        c == icon_pixel(x as int, y as int),
{
    let in_fold = x >= ICON_SIZE - ICON_FOLD && y >= ICON_SIZE - ICON_FOLD;
    let lx = x - (ICON_SIZE - ICON_FOLD);
    let ly = y - (ICON_SIZE - ICON_FOLD);
    if in_fold && lx + ly == ICON_FOLD - 1 {
        [170, 145, 20]
    } else if in_fold && lx + ly > ICON_FOLD - 1 {
        [222, 196, 64]
    } else if x == 0 || y == 0 || x == ICON_SIZE - 1 || y == ICON_SIZE - 1 {
        [196, 169, 10]
    } else {
        [255, 241, 118]
    }
}

/// The 22x22 tray icon: a yellow sticky note with a folded corner.
pub fn note_icon() -> (icon: IconPixmap)
    ensures
        icon.width == ICON_SIZE,
        icon.height == ICON_SIZE,
        icon.data@.len() == ICON_SIZE * ICON_SIZE * 4,
        forall|p: int, k: int|
            0 <= p < ICON_SIZE * ICON_SIZE && 0 <= k < 4 ==> #[trigger] icon.data@[p * 4 + k]
                == icon_byte(p, k),
{
    let mut data: Vec<u8> = Vec::new();
    let mut p: i32 = 0;
    while p < ICON_SIZE * ICON_SIZE
        invariant
            0 <= p <= ICON_SIZE * ICON_SIZE,
            data@.len() == p * 4,
            forall|q: int, k: int|
                0 <= q < p && 0 <= k < 4 ==> #[trigger] data@[q * 4 + k] == icon_byte(q, k),
        decreases ICON_SIZE * ICON_SIZE - p,
    {
        let x = p % ICON_SIZE;
        let y = p / ICON_SIZE;
        let rgb = pixel_color(x, y);
        let ghost before = data@;
        data.push(255);
        data.push(rgb[0]);
        data.push(rgb[1]);
        data.push(rgb[2]);
        proof {
            assert forall|q: int, k: int|
                0 <= q < p + 1 && 0 <= k < 4 implies #[trigger] data@[q * 4 + k] == icon_byte(q, k) by {
                if q < p {
                    assert(q * 4 + k < p * 4) by (nonlinear_arith)
                        requires
                            q < p,
                            0 <= k < 4,
                    ;
                    assert(data@[q * 4 + k] == before[q * 4 + k]);
                } else {
                    assert(q * 4 + k == p * 4 + k);
                }
            }
        }
        p = p + 1;
    }
    IconPixmap { width: ICON_SIZE, height: ICON_SIZE, data }
}

} // verus!
