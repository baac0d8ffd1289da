//! Plain values exchanged with the native display: what it is asked to do and
//! what it reports back.

use vstd::prelude::*;

verus! {

/// An X11 resource identifier.
pub type Xid = u32;

/// A native window, named by the display that owns it.
#[derive(Debug, Clone, Copy, PartialEq, Eq, Structural)]
pub struct NativeWindowHandle {
    pub id: u64,
}

/// One drawing operation on a surface.
#[derive(Debug)]
#[allow(inconsistent_fields)]
pub enum RenderCommand {
    FillRectangle { x: i16, y: i16, width: u16, height: u16, color: u32, gc_function: u8 },
    ClearArea { x: i16, y: i16, width: u16, height: u16, bg_color: u32 },
    DrawLine {
        x1: i16,
        y1: i16,
        x2: i16,
        y2: i16,
        color: u32,
        line_width: u16,
        gc_function: u8,
    },
    FillArc {
        x: i16,
        y: i16,
        width: u16,
        height: u16,
        angle1: i16,
        angle2: i16,
        color: u32,
        gc_function: u8,
    },
    DrawArc {
        x: i16,
        y: i16,
        width: u16,
        height: u16,
        angle1: i16,
        angle2: i16,
        color: u32,
        line_width: u16,
        gc_function: u8,
    },
    DrawRectangle {
        x: i16,
        y: i16,
        width: u16,
        height: u16,
        color: u32,
        line_width: u16,
        gc_function: u8,
    },
    PutImage {
        x: i16,
        y: i16,
        width: u16,
        height: u16,
        depth: u8,
        format: u8,
        data: Vec<u8>,
        gc_function: u8,
    },
    DrawText {
        x: i16,
        y: i16,
        text: Vec<u8>,
        font_id: u32,
        color: u32,
        bg_color: Option<u32>,
        gc_function: u8,
    },
    CopyArea {
        src_x: i16,
        src_y: i16,
        dst_x: i16,
        dst_y: i16,
        width: u16,
        height: u16,
        gc_function: u8,
    },
    FillPolygon { points: Vec<(i16, i16)>, color: u32, gc_function: u8 },
}

/// What a drawing operation says, with sequences in place of vectors.
#[allow(inconsistent_fields)]
pub enum RenderModel {
    FillRectangle { x: i16, y: i16, width: u16, height: u16, color: u32, gc_function: u8 },
    ClearArea { x: i16, y: i16, width: u16, height: u16, bg_color: u32 },
    DrawLine {
        x1: i16,
        y1: i16,
        x2: i16,
        y2: i16,
        color: u32,
        line_width: u16,
        gc_function: u8,
    },
    FillArc {
        x: i16,
        y: i16,
        width: u16,
        height: u16,
        angle1: i16,
        angle2: i16,
        color: u32,
        gc_function: u8,
    },
    DrawArc {
        x: i16,
        y: i16,
        width: u16,
        height: u16,
        angle1: i16,
        angle2: i16,
        color: u32,
        line_width: u16,
        gc_function: u8,
    },
    DrawRectangle {
        x: i16,
        y: i16,
        width: u16,
        height: u16,
        color: u32,
        line_width: u16,
        gc_function: u8,
    },
    PutImage {
        x: i16,
        y: i16,
        width: u16,
        height: u16,
        depth: u8,
        format: u8,
        data: Seq<u8>,
        gc_function: u8,
    },
    DrawText {
        x: i16,
        y: i16,
        text: Seq<u8>,
        font_id: u32,
        color: u32,
        bg_color: Option<u32>,
        gc_function: u8,
    },
    CopyArea {
        src_x: i16,
        src_y: i16,
        dst_x: i16,
        dst_y: i16,
        width: u16,
        height: u16,
        gc_function: u8,
    },
    FillPolygon { points: Seq<(i16, i16)>, color: u32, gc_function: u8 },
}

impl View for RenderCommand {
    type V = RenderModel;

    open spec fn view(&self) -> RenderModel {
        match *self {
            RenderCommand::FillRectangle { x, y, width, height, color, gc_function } =>
                RenderModel::FillRectangle { x, y, width, height, color, gc_function },
            RenderCommand::ClearArea { x, y, width, height, bg_color } =>
                RenderModel::ClearArea { x, y, width, height, bg_color },
            RenderCommand::DrawLine { x1, y1, x2, y2, color, line_width, gc_function } =>
                RenderModel::DrawLine { x1, y1, x2, y2, color, line_width, gc_function },
            RenderCommand::FillArc { x, y, width, height, angle1, angle2, color, gc_function } =>
                RenderModel::FillArc { x, y, width, height, angle1, angle2, color, gc_function },
            RenderCommand::DrawArc {
                x,
                y,
                width,
                height,
                angle1,
                angle2,
                color,
                line_width,
                gc_function,
            } => RenderModel::DrawArc {
                x,
                y,
                width,
                height,
                angle1,
                angle2,
                color,
                line_width,
                gc_function,
            },
            RenderCommand::DrawRectangle { x, y, width, height, color, line_width, gc_function } =>
                RenderModel::DrawRectangle { x, y, width, height, color, line_width, gc_function },
            RenderCommand::PutImage { x, y, width, height, depth, format, data, gc_function } =>
                RenderModel::PutImage {
                x,
                y,
                width,
                height,
                depth,
                format,
                data: data@,
                gc_function,
            },
            RenderCommand::DrawText { x, y, text, font_id, color, bg_color, gc_function } =>
                RenderModel::DrawText { x, y, text: text@, font_id, color, bg_color, gc_function },
            RenderCommand::CopyArea { src_x, src_y, dst_x, dst_y, width, height, gc_function } =>
                RenderModel::CopyArea { src_x, src_y, dst_x, dst_y, width, height, gc_function },
            RenderCommand::FillPolygon { points, color, gc_function } => RenderModel::FillPolygon {
                points: points@,
                color,
                gc_function,
            },
        }
    }
}

/// The models of a list of drawing operations.
pub open spec fn render_models(s: Seq<RenderCommand>) -> Seq<RenderModel> {
    Seq::new(s.len(), |i: int| s[i]@)
}

/// The models of a list that grew by one.
pub proof fn lemma_render_push(s: Seq<RenderCommand>, c: RenderCommand)
    ensures
        render_models(s.push(c)) == render_models(s).push(c@),
        render_models(Seq::empty()) == Seq::<RenderModel>::empty(),
{
    assert(render_models(s.push(c)) =~= render_models(s).push(c@));
    assert(render_models(Seq::empty()) =~= Seq::<RenderModel>::empty());
}

/// A command for the native display.
#[derive(Debug)]
#[allow(inconsistent_fields)]
pub enum DisplayCommand {
    CreateWindow {
        x11_id: Xid,
        x: i16,
        y: i16,
        width: u16,
        height: u16,
        title: String,
        override_redirect: bool,
    },
    SetWindowTitle { handle: NativeWindowHandle, title: String },
    SetWindowBackgroundPixel { handle: NativeWindowHandle, pixel: u32 },
    SetWindowCursor { handle: NativeWindowHandle, cursor_type: u8 },
    SetWindowIcon { handle: NativeWindowHandle, width: u32, height: u32, argb_data: Vec<u32> },
    ShowWindow { handle: NativeWindowHandle, visible: bool },
    HideWindow { handle: NativeWindowHandle },
    MoveResizeWindow { handle: NativeWindowHandle, x: i16, y: i16, width: u16, height: u16 },
    DestroyWindow { handle: NativeWindowHandle },
    ReadPixels { handle: NativeWindowHandle, x: i16, y: i16, width: u16, height: u16 },
}

/// What a display command says, with sequences in place of vectors and strings.
#[allow(inconsistent_fields)]
pub enum DisplayModel {
    CreateWindow {
        x11_id: Xid,
        x: i16,
        y: i16,
        width: u16,
        height: u16,
        title: Seq<char>,
        override_redirect: bool,
    },
    SetWindowTitle { handle: NativeWindowHandle, title: Seq<char> },
    SetWindowBackgroundPixel { handle: NativeWindowHandle, pixel: u32 },
    SetWindowCursor { handle: NativeWindowHandle, cursor_type: u8 },
    SetWindowIcon { handle: NativeWindowHandle, width: u32, height: u32, argb_data: Seq<u32> },
    ShowWindow { handle: NativeWindowHandle, visible: bool },
    HideWindow { handle: NativeWindowHandle },
    MoveResizeWindow { handle: NativeWindowHandle, x: i16, y: i16, width: u16, height: u16 },
    DestroyWindow { handle: NativeWindowHandle },
    ReadPixels { handle: NativeWindowHandle, x: i16, y: i16, width: u16, height: u16 },
}

impl View for DisplayCommand {
    type V = DisplayModel;

    open spec fn view(&self) -> DisplayModel {
        match *self {
            DisplayCommand::CreateWindow { x11_id, x, y, width, height, title, override_redirect } =>
                DisplayModel::CreateWindow {
                x11_id,
                x,
                y,
                width,
                height,
                title: title@,
                override_redirect,
            },
            DisplayCommand::SetWindowTitle { handle, title } => DisplayModel::SetWindowTitle {
                handle,
                title: title@,
            },
            DisplayCommand::SetWindowBackgroundPixel { handle, pixel } =>
                DisplayModel::SetWindowBackgroundPixel { handle, pixel },
            DisplayCommand::SetWindowCursor { handle, cursor_type } =>
                DisplayModel::SetWindowCursor { handle, cursor_type },
            DisplayCommand::SetWindowIcon { handle, width, height, argb_data } =>
                DisplayModel::SetWindowIcon { handle, width, height, argb_data: argb_data@ },
            DisplayCommand::ShowWindow { handle, visible } => DisplayModel::ShowWindow {
                handle,
                visible,
            },
            DisplayCommand::HideWindow { handle } => DisplayModel::HideWindow { handle },
            DisplayCommand::MoveResizeWindow { handle, x, y, width, height } =>
                DisplayModel::MoveResizeWindow { handle, x, y, width, height },
            DisplayCommand::DestroyWindow { handle } => DisplayModel::DestroyWindow { handle },
            DisplayCommand::ReadPixels { handle, x, y, width, height } =>
                DisplayModel::ReadPixels { handle, x, y, width, height },
        }
    }
}

/// Input and window events reported by the native display.
#[derive(Debug)]
#[allow(inconsistent_fields)]
pub enum DisplayEvent {
    ButtonPress {
        window: Xid,
        button: u8,
        x: i16,
        y: i16,
        root_x: i16,
        root_y: i16,
        state: u16,
        time: u32,
    },
    ButtonRelease {
        window: Xid,
        button: u8,
        x: i16,
        y: i16,
        root_x: i16,
        root_y: i16,
        state: u16,
        time: u32,
    },
    MotionNotify {
        window: Xid,
        x: i16,
        y: i16,
        root_x: i16,
        root_y: i16,
        state: u16,
        time: u32,
    },
    KeyPress { window: Xid, keycode: u8, state: u16, time: u32 },
    KeyRelease { window: Xid, keycode: u8, state: u16, time: u32 },
    ImeCommit { window: Xid, text: String },
    ImePreeditDraw { window: Xid, text: String },
    ImeReplace { window: Xid, erase_chars: usize, text: String },
    ImePreeditDone { window: Xid },
    Expose { window: Xid, x: u16, y: u16, width: u16, height: u16, count: u16 },
    ConfigureNotify { window: Xid, x: i16, y: i16, width: u16, height: u16 },
    GlobalPointerUpdate { root_x: i16, root_y: i16 },
    ClipboardCopyRequest { window: Xid },
    FocusIn { window: Xid },
}

} // verus!
