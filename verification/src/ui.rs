//! Screen composition. The core decides what is drawn where — title,
//! status corner, breadcrumb, the windowed entry list, footer, and the
//! flash progress bar — as a list of drawing commands. The platform
//! adapter rasterizes the commands onto the back buffer it acquired from
//! the swapchain.
use vstd::prelude::*;
use vstd::string::*;
use vstd::utf8::encode_utf8;

use crate::launch::AppContext;
use crate::menu::{display_name, spec_display_name, spec_path_display, menu_path_display,
    MenuItem, MenuState};
use crate::progress::{percent_of, spec_percent_of};
use crate::status::StatusSnapshot;
use crate::textfmt::{fmt_u64, spec_texts, spec_u64_text};

verus! {

/// Top row of the entry list, in pixels.
pub const LIST_TOP: i32 = 48;

/// Vertical pitch of one text row, in pixels.
pub const ROW_HEIGHT: i32 = 12;

/// How many entries fit on screen at once.
pub const MAX_VISIBLE_ROWS: usize = 8;

/// Progress bar geometry, in pixels.
pub const BAR_X: i32 = 20;

/// Progress bar geometry, in pixels.
pub const BAR_Y: i32 = 90;

/// Progress bar geometry, in pixels.
pub const BAR_WIDTH: u32 = 180;

/// Progress bar geometry, in pixels.
pub const BAR_HEIGHT: u32 = 10;

/// The palette the loader screens use.
#[derive(Clone, Copy, Debug, PartialEq, Eq, Structural)]
pub enum Color {
    Black,
    White,
    Yellow,
    Cyan,
    Green,
}

/// One drawing command for the platform adapter: clear the buffer, draw a
/// text run, or draw a rectangle outline or fill.
#[derive(Clone, Debug)]
pub enum DrawCmd {
    Clear,
    Text { x: i32, y: i32, color: Color, content: String },
    RectOutline { x: i32, y: i32, width: u32, height: u32, color: Color },
    RectFill { x: i32, y: i32, width: u32, height: u32, color: Color },
}

/// The mathematical shape of a drawing command.
pub enum DrawCmdModel {
    Clear,
    Text { x: int, y: int, color: Color, content: Seq<char> },
    RectOutline { x: int, y: int, width: int, height: int, color: Color },
    RectFill { x: int, y: int, width: int, height: int, color: Color },
}

impl View for DrawCmd {
    type V = DrawCmdModel;

    open spec fn view(&self) -> DrawCmdModel {
        match self {
            DrawCmd::Clear => DrawCmdModel::Clear,
            DrawCmd::Text { x, y, color, content } => DrawCmdModel::Text {
                x: *x as int,
                y: *y as int,
                color: *color,
                content: content@,
            },
            DrawCmd::RectOutline { x, y, width, height, color } => DrawCmdModel::RectOutline {
                x: *x as int,
                y: *y as int,
                width: *width as int,
                height: *height as int,
                color: *color,
            },
            DrawCmd::RectFill { x, y, width, height, color } => DrawCmdModel::RectFill {
                x: *x as int,
                y: *y as int,
                width: *width as int,
                height: *height as int,
                color: *color,
            },
        }
    }
}

/// The models of a whole command list.
pub open spec fn spec_cmd_views(s: Seq<DrawCmd>) -> Seq<DrawCmdModel> {
    s.map_values(|c: DrawCmd| c@)
}

/// Progress shown while flashing: bytes written, and the total when known.
#[derive(Clone, Copy, Debug)]
pub struct FlashProgress {
    pub written: u64,
    pub total: Option<u64>,
}

/// The x position that right-aligns a text of this content against the
/// screen edge, at six pixels per byte plus a margin, floored at zero.
pub open spec fn spec_right_x(content: Seq<char>) -> int {
    let width = encode_utf8(content).len() * 6 + 2;
    if crate::SCREEN_WIDTH < width {
        0
    } else {
        crate::SCREEN_WIDTH - width
    }
}

/// Computes the right-aligned x position of a text.
pub fn right_x(text: &str) -> (x: i32)
    ensures
        x == spec_right_x(text@),
{
    broadcast use vstd::slice::axiom_spec_len;

    let width = text.as_bytes().len();
    proof {
        assert(width == encode_utf8(text@).len());
    }
    if width >= (crate::SCREEN_WIDTH - 2) / 6 + 1 {
        proof {
            assert(crate::SCREEN_WIDTH < width * 6 + 2);
        }
        0
    } else {
        proof {
            assert(crate::SCREEN_WIDTH >= width * 6 + 2);
        }
        (crate::SCREEN_WIDTH as i32) - ((width * 6 + 2) as i32)
    }
}

/// How many rows the list shows: the smaller of the row budget and the
/// list length, but at least one row (for the empty marker).
pub open spec fn spec_visible_rows(len: int, max_visible: int) -> int {
    let base = if len >= 1 {
        len
    } else {
        1
    };
    if max_visible <= base {
        max_visible
    } else {
        base
    }
}

/// The first row shown: the window is centered on the selection, clamped
/// to the ends of the list.
pub open spec fn spec_window_start(selected: int, len: int, max_visible: int) -> int {
    let mv = spec_visible_rows(len, max_visible);
    let half = mv / 2;
    let start = if selected > half {
        selected - half
    } else {
        0
    };
    if len > mv {
        if start <= len - mv {
            start
        } else {
            len - mv
        }
    } else {
        0
    }
}

/// Computes the first visible row so that the selection stays on screen:
/// the window never leaves the list, and the selected row is inside it.
pub fn window_start(selected: usize, len: usize, max_visible: usize) -> (start: usize)
    requires
        max_visible >= 1,
        len == 0 ==> selected == 0,
        len > 0 ==> selected < len,
    ensures
        start == spec_window_start(selected as int, len as int, max_visible as int),
        len > 0 ==> start <= selected < start + spec_visible_rows(len as int, max_visible as int),
        len > 0 ==> start + spec_visible_rows(len as int, max_visible as int) <= len,
{
    if len == 0 {
        return 0;
    }
    let mv = if max_visible <= len {
        max_visible
    } else {
        len
    };
    let half = mv / 2;
    let mut start = if selected > half {
        selected - half
    } else {
        0
    };
    if len > mv {
        if start > len - mv {
            start = len - mv;
        }
    } else {
        start = 0;
    }
    start
}

/// The footer hint: missing hardware first, otherwise the key help line.
pub open spec fn spec_footer(context: AppContext) -> Seq<char> {
    if !context.sd_ready {
        "SD not mounted"@
    } else if !context.ota_ready {
        "OTA partitions missing"@
    } else {
        "Up/Down: ;/.  Enter: load  Back: Backspace"@
    }
}

/// The list region: the empty marker on an empty list, otherwise one text
/// row per visible entry, the selected one highlighted and prefixed.
pub open spec fn spec_list_cmds(items: Seq<MenuItem>, selected: int) -> Seq<DrawCmdModel> {
    let len = items.len() as int;
    if len == 0 {
        seq![
            DrawCmdModel::Text { x: 2, y: LIST_TOP as int, color: Color::White, content: "(empty)"@ },
        ]
    } else {
        let start = spec_window_start(selected, len, MAX_VISIBLE_ROWS as int);
        let vis = spec_visible_rows(len, MAX_VISIBLE_ROWS as int);
        Seq::new(
            vis as nat,
            |i: int|
                DrawCmdModel::Text {
                    x: 2,
                    y: LIST_TOP as int + i * (ROW_HEIGHT as int),
                    color: if start + i == selected {
                        Color::Yellow
                    } else {
                        Color::White
                    },
                    content: (if start + i == selected {
                        "> "@
                    } else {
                        "  "@
                    }) + spec_display_name(items[start + i]),
                },
        )
    }
}

/// Composes the windowed, selection-highlighted entry list.
pub fn draw_selectable_list(items: &Vec<MenuItem>, selected: usize) -> (r: Vec<DrawCmd>)
    requires
        items@.len() == 0 ==> selected == 0,
        items@.len() > 0 ==> selected < items@.len(),
    ensures
        spec_cmd_views(r@) == spec_list_cmds(items@, selected as int),
{
    let mut r: Vec<DrawCmd> = Vec::new();
    let len = items.len();
    if len == 0 {
        r.push(
            DrawCmd::Text {
                x: 2,
                y: LIST_TOP,
                color: Color::White,
                content: String::from_str("(empty)"),
            },
        );
        proof {
            assert(spec_cmd_views(r@) =~= spec_list_cmds(items@, selected as int));
        }
        return r;
    }
    let start = window_start(selected, len, MAX_VISIBLE_ROWS);
    let vis = if MAX_VISIBLE_ROWS <= len {
        MAX_VISIBLE_ROWS
    } else {
        len
    };
    let ghost target = spec_list_cmds(items@, selected as int);
    proof {
        assert(vis as int == spec_visible_rows(items@.len() as int, MAX_VISIBLE_ROWS as int));
        assert(target.len() == vis as int);
    }
    let mut i: usize = 0;
    while i < vis
        invariant
            i <= vis,
            0 < len == items@.len(),
            selected < len,
            vis <= len,
            start + vis <= len,
            start as int == spec_window_start(
                selected as int,
                len as int,
                MAX_VISIBLE_ROWS as int,
            ),
            vis as int == spec_visible_rows(len as int, MAX_VISIBLE_ROWS as int),
            r@.len() == i,
            target == spec_list_cmds(items@, selected as int),
            forall|j: int| 0 <= j < i ==> spec_cmd_views(r@)[j] == target[j],
        decreases vis - i,
    {
        let idx = start + i;
        let is_selected = idx == selected;
        let prefix: &str = if is_selected {
            "> "
        } else {
            "  "
        };
        let content = String::from_str(prefix).concat(display_name(&items[idx]).as_str());
        let y = LIST_TOP + (i as i32) * ROW_HEIGHT;
        let cmd = DrawCmd::Text {
            x: 2,
            y,
            color: if is_selected {
                Color::Yellow
            } else {
                Color::White
            },
            content,
        };
        proof {
            assert(cmd@ == target[i as int]);
        }
        r.push(cmd);
        i = i + 1;
    }
    proof {
        assert(spec_cmd_views(r@) =~= target);
    }
    r
}

/// One whole menu screen: clear, title, the status corner right-aligned,
/// the breadcrumb, the entry list, and the footer hint.
pub open spec fn spec_menu_screen(
    menu: MenuState,
    context: AppContext,
    status: StatusSnapshot,
) -> Seq<DrawCmdModel> {
    seq![
        DrawCmdModel::Clear,
        DrawCmdModel::Text { x: 2, y: 10, color: Color::White, content: "Cardputer RustOS"@ },
        DrawCmdModel::Text {
            x: spec_right_x(status.clock_text@),
            y: 10,
            color: Color::Cyan,
            content: status.clock_text@,
        },
        DrawCmdModel::Text {
            x: spec_right_x(status.wifi_text@),
            y: 22,
            color: Color::Green,
            content: status.wifi_text@,
        },
        DrawCmdModel::Text {
            x: spec_right_x(status.battery_text@),
            y: 34,
            color: Color::Yellow,
            content: status.battery_text@,
        },
        DrawCmdModel::Text {
            x: 2,
            y: 22,
            color: Color::White,
            content: spec_path_display(menu.root@, menu.current@),
        },
    ] + spec_list_cmds(menu.items@, menu.selected as int) + seq![
        DrawCmdModel::Text {
            x: 2,
            y: crate::SCREEN_HEIGHT as int - 4,
            color: Color::White,
            content: spec_footer(context),
        },
    ]
}

/// Composes the menu screen.
pub fn render_menu(menu: &MenuState, context: &AppContext, status: &StatusSnapshot) -> (r: Vec<
    DrawCmd,
>)
    requires
        menu.well_formed(),
    ensures
        spec_cmd_views(r@) == spec_menu_screen(*menu, *context, *status),
{
    let mut r: Vec<DrawCmd> = Vec::new();
    r.push(DrawCmd::Clear);
    r.push(
        DrawCmd::Text {
            x: 2,
            y: 10,
            color: Color::White,
            content: String::from_str("Cardputer RustOS"),
        },
    );
    let clock_x = right_x(status.clock_text.as_str());
    r.push(
        DrawCmd::Text {
            x: clock_x,
            y: 10,
            color: Color::Cyan,
            content: status.clock_text.clone(),
        },
    );
    let wifi_x = right_x(status.wifi_text.as_str());
    r.push(
        DrawCmd::Text { x: wifi_x, y: 22, color: Color::Green, content: status.wifi_text.clone() },
    );
    let battery_x = right_x(status.battery_text.as_str());
    r.push(
        DrawCmd::Text {
            x: battery_x,
            y: 34,
            color: Color::Yellow,
            content: status.battery_text.clone(),
        },
    );
    r.push(DrawCmd::Text { x: 2, y: 22, color: Color::White, content: menu_path_display(menu) });
    let mut list = draw_selectable_list(&menu.items, menu.selected);
    let ghost list_views = spec_cmd_views(list@);
    let ghost head_views = spec_cmd_views(r@);
    r.append(&mut list);
    proof {
        assert(spec_cmd_views(r@) =~= head_views + list_views);
    }
    let footer: &str = if !context.sd_ready {
        "SD not mounted"
    } else if !context.ota_ready {
        "OTA partitions missing"
    } else {
        "Up/Down: ;/.  Enter: load  Back: Backspace"
    };
    let footer_y = crate::SCREEN_HEIGHT as i32 - 4;
    r.push(
        DrawCmd::Text { x: 2, y: footer_y, color: Color::White, content: String::from_str(footer) },
    );
    proof {
        assert(spec_cmd_views(r@) =~= spec_menu_screen(*menu, *context, *status));
    }
    r
}

/// The progress bar region: the outline always, and — when a non-zero
/// total is known — the proportional fill and the percentage label.
pub open spec fn spec_progress_bar_cmds(progress: FlashProgress) -> Seq<DrawCmdModel> {
    let outline = seq![
        DrawCmdModel::RectOutline {
            x: BAR_X as int,
            y: BAR_Y as int,
            width: BAR_WIDTH as int,
            height: BAR_HEIGHT as int,
            color: Color::White,
        },
    ];
    match progress.total {
        Some(total) => if total > 0 {
            let pct = spec_percent_of(progress.written, total) as int;
            let filled = (BAR_WIDTH - 2) * pct / 100;
            outline + (if filled > 0 {
                seq![
                    DrawCmdModel::RectFill {
                        x: BAR_X as int + 1,
                        y: BAR_Y as int + 1,
                        width: filled,
                        height: BAR_HEIGHT as int - 2,
                        color: Color::Yellow,
                    },
                ]
            } else {
                Seq::<DrawCmdModel>::empty()
            }) + seq![
                DrawCmdModel::Text {
                    x: BAR_X as int + BAR_WIDTH as int + 6,
                    y: BAR_Y as int + 8,
                    color: Color::White,
                    content: spec_u64_text(spec_percent_of(progress.written, total) as int) + "%"@,
                },
            ]
        } else {
            outline
        },
        None => outline,
    }
}

/// Composes the flash progress bar.
pub fn render_progress_bar(progress: FlashProgress) -> (r: Vec<DrawCmd>)
    ensures
        spec_cmd_views(r@) == spec_progress_bar_cmds(progress),
{
    let mut r: Vec<DrawCmd> = Vec::new();
    r.push(
        DrawCmd::RectOutline {
            x: BAR_X,
            y: BAR_Y,
            width: BAR_WIDTH,
            height: BAR_HEIGHT,
            color: Color::White,
        },
    );
    match progress.total {
        Some(total) if total > 0 => {
            let pct = percent_of(progress.written, total);
            let filled_wide: u64 = ((BAR_WIDTH - 2) as u64) * pct / 100;
            let filled: u32 = filled_wide as u32;
            if filled > 0 {
                r.push(
                    DrawCmd::RectFill {
                        x: BAR_X + 1,
                        y: BAR_Y + 1,
                        width: filled,
                        height: BAR_HEIGHT - 2,
                        color: Color::Yellow,
                    },
                );
            }
            let label = fmt_u64(pct).concat("%");
            r.push(
                DrawCmd::Text {
                    x: BAR_X + (BAR_WIDTH as i32) + 6,
                    y: BAR_Y + 8,
                    color: Color::White,
                    content: label,
                },
            );
            proof {
                reveal_strlit("%");
                assert(spec_cmd_views(r@) =~= spec_progress_bar_cmds(progress));
            }
        },
        _ => {
            proof {
                assert(spec_cmd_views(r@) =~= spec_progress_bar_cmds(progress));
            }
        },
    }
    r
}

/// One whole status screen: clear, title, the body lines at fixed pitch,
/// and the progress bar when progress is given.
/// The body region of a status screen: one text row per line, at fixed pitch.
pub open spec fn spec_status_rows(lines: Seq<Seq<char>>) -> Seq<DrawCmdModel> {
    Seq::new(
        lines.len(),
        |i: int|
            DrawCmdModel::Text {
                x: 2,
                y: 28 + i * (ROW_HEIGHT as int),
                color: Color::White,
                content: lines[i],
            },
    )
}

pub open spec fn spec_status_screen(
    title: Seq<char>,
    lines: Seq<Seq<char>>,
    progress: Option<FlashProgress>,
) -> Seq<DrawCmdModel> {
    seq![
        DrawCmdModel::Clear,
        DrawCmdModel::Text { x: 2, y: 10, color: Color::White, content: title },
    ] + spec_status_rows(lines) + (match progress {
        Some(p) => spec_progress_bar_cmds(p),
        None => Seq::<DrawCmdModel>::empty(),
    })
}

/// Composes a status screen with title, body lines and optional progress.
pub fn render_status(title: &str, lines: &Vec<String>, progress: Option<FlashProgress>) -> (r: Vec<
    DrawCmd,
>)
    requires
        lines@.len() <= 1000,
    ensures
        spec_cmd_views(r@) == spec_status_screen(title@, spec_texts(lines@), progress),
{
    let mut r: Vec<DrawCmd> = Vec::new();
    r.push(DrawCmd::Clear);
    r.push(DrawCmd::Text { x: 2, y: 10, color: Color::White, content: String::from_str(title) });
    let ghost body = spec_status_rows(spec_texts(lines@));
    let mut i: usize = 0;
    while i < lines.len()
        invariant
            i <= lines@.len(),
            lines@.len() <= 1000,
            r@.len() == i + 2,
            body == spec_status_rows(spec_texts(lines@)),
            spec_cmd_views(r@) =~= seq![
                DrawCmdModel::Clear,
                DrawCmdModel::Text { x: 2, y: 10, color: Color::White, content: title@ },
            ] + body.take(i as int),
        decreases lines@.len() - i,
    {
        let y = 28 + (i as i32) * ROW_HEIGHT;
        let cmd = DrawCmd::Text { x: 2, y, color: Color::White, content: lines[i].clone() };
        proof {
            assert(spec_texts(lines@)[i as int] == lines@[i as int]@);
            assert(cmd@ == body[i as int]);
        }
        let ghost r_before = r@;
        r.push(cmd);
        proof {
            assert(spec_cmd_views(r@) =~= spec_cmd_views(r_before).push(cmd@));
            assert(body.take(i + 1) =~= body.take(i as int).push(body[i as int]));
            assert(spec_cmd_views(r@) =~= seq![
                DrawCmdModel::Clear,
                DrawCmdModel::Text { x: 2, y: 10, color: Color::White, content: title@ },
            ] + body.take(i + 1));
        }
        i = i + 1;
    }
    proof {
        assert(body.take(lines@.len() as int) =~= body);
    }
    match progress {
        Some(p) => {
            let mut bar = render_progress_bar(p);
            let ghost head_views = spec_cmd_views(r@);
            let ghost bar_views = spec_cmd_views(bar@);
            r.append(&mut bar);
            proof {
                assert(spec_cmd_views(r@) =~= head_views + bar_views);
                assert(spec_cmd_views(r@) =~= spec_status_screen(
                    title@,
                    spec_texts(lines@),
                    progress,
                ));
            }
        },
        None => {
            proof {
                assert(spec_cmd_views(r@) =~= spec_status_screen(
                    title@,
                    spec_texts(lines@),
                    progress,
                ));
            }
        },
    }
    r
}

} // verus!
