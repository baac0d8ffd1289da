//! The server: its state, the errors it reports and the actions it asks for.

pub mod aim;
pub mod answers;
pub mod atoms;
pub mod blends;
pub mod blits;
pub mod clip;
pub mod colors;
pub mod compose;
pub mod connection;
pub mod conversing;
pub mod cursors;
pub mod delivery;
pub mod dispatch;
pub mod drawing;
pub mod events;
pub mod extensions;
pub mod fonts;
pub mod framing;
pub mod gadgets;
pub mod greeting;
pub mod ime;
pub mod input;
pub mod insets;
pub mod keeping;
pub mod keyboard;
pub mod labels;
pub mod layout;
pub mod lettering;
pub mod making;
pub mod mapping;
pub mod notify;
pub mod palette;
pub mod parse;
pub mod pasting;
pub mod pixels;
pub mod placement;
pub mod pointer;
pub mod pointing;
pub mod predefined;
pub mod properties;
pub mod protocol;
pub mod pruning;
pub mod readings;
pub mod recall;
pub mod replies;
pub mod requests;
pub mod resources;
pub mod search;
pub mod selections;
pub mod sessions;
pub mod strokes;
pub mod tables;
pub mod text;
pub mod tidings;
pub mod typing;
pub mod values;
pub mod windows;
pub mod wire;
pub mod xim;
pub mod xim_notify;
pub mod xim_protocol;

use vstd::prelude::*;

use crate::display::{render_models, DisplayCommand, DisplayModel, RenderCommand, RenderModel, Xid};

use self::atoms::{initial_atoms, AtomModel, AtomTable};
use self::colors::{color_models, NamedColor, NamedColorModel};
use self::connection::{ClientConnection, EventData};
use self::resources::{
    fresh_window, CursorState, FontModel, FontState, GContextState, PixmapModel, PixmapState,
    Resource, ResourceModel, WindowClass, WindowModel, WindowState,
};
use self::text::{lowercase_all, lowercase_list, strings};
use self::xim::{with_xim_atoms, xim_atoms_of, XimModel, XimServer};

verus! {

/// A point in time, in milliseconds.
pub type Timestamp = u32;

/// Why a request was refused.
#[derive(Debug, Clone, Copy, PartialEq, Eq, Structural)]
pub enum ServerError {
    /// The connection failed.
    Io,
    /// The request is malformed.
    Protocol,
    /// The request names a resource that does not exist.
    ResourceNotFound(Xid),
    /// The request names an atom that does not exist.
    AtomNotFound,
    /// The request is not one the server knows.
    NotImplemented,
}

impl ServerError {
    /// The protocol's code for the error.
    pub open spec fn code(self) -> u8 {
        match self {
            ServerError::Protocol => 1,
            ServerError::ResourceNotFound(_) => 9,
            ServerError::AtomNotFound => 5,
            ServerError::NotImplemented => 17,
            ServerError::Io => 17,
        }
    }

    /// The protocol's code for the error.
    pub fn x11_error_code(&self) -> (r: u8)
        ensures
            r == self.code(),
    {
        match self {
            ServerError::Protocol => 1,
            ServerError::ResourceNotFound(_) => 9,
            ServerError::AtomNotFound => 5,
            ServerError::NotImplemented => 17,
            ServerError::Io => 17,
        }
    }
}

/// A visual type.
#[derive(Debug, Clone, Copy)]
pub struct Visual {
    pub id: u32,
    /// 4 is TrueColor.
    pub class: u8,
    pub bits_per_rgb: u8,
    pub colormap_entries: u16,
    pub red_mask: u32,
    pub green_mask: u32,
    pub blue_mask: u32,
}

/// A screen.
#[derive(Debug, Clone, Copy)]
pub struct Screen {
    pub root_window: Xid,
    pub default_colormap: Xid,
    pub white_pixel: u32,
    pub black_pixel: u32,
    pub width_in_pixels: u16,
    pub height_in_pixels: u16,
    pub width_in_mm: u16,
    pub height_in_mm: u16,
    pub root_depth: u8,
    pub root_visual: Visual,
}

/// Something the server asks its surroundings to do.
#[derive(Debug)]
#[allow(inconsistent_fields)]
pub enum Action {
    /// Write bytes to a client, after whatever was written before.
    Reply { conn: u32, data: Vec<u8> },
    /// Queue an event for a client.
    Event { conn: u32, data: EventData },
    /// Hand a command to the native display.
    Display(DisplayCommand),
    /// Add drawing operations to those waiting for a native window.
    Render { window: u64, commands: Vec<RenderCommand> },
    /// Draw into a pixmap's pixels.
    RenderPixmap { pixmap: Xid, commands: Vec<RenderCommand> },
    /// Place the input method's candidate window.
    ImeSpot { x: i16, y: i16 },
    /// Ignore the resize events that the next native resize causes.
    SuppressResizeEvents,
    /// Put a text on the native clipboard.
    Clipboard { text: String },
}

/// What an action says.
#[allow(inconsistent_fields)]
pub enum ActionModel {
    Reply { conn: u32, data: Seq<u8> },
    Event { conn: u32, data: Seq<u8> },
    Display(DisplayModel),
    Render { window: u64, commands: Seq<RenderModel> },
    RenderPixmap { pixmap: Xid, commands: Seq<RenderModel> },
    ImeSpot { x: i16, y: i16 },
    SuppressResizeEvents,
    Clipboard { text: Seq<char> },
}

impl View for Action {
    type V = ActionModel;

    open spec fn view(&self) -> ActionModel {
        match *self {
            Action::Reply { conn, data } => ActionModel::Reply { conn, data: data@ },
            Action::Event { conn, data } => ActionModel::Event { conn, data: data@ },
            Action::Display(c) => ActionModel::Display(c@),
            Action::Render { window, commands } => ActionModel::Render {
                window,
                commands: render_models(commands@),
            },
            Action::RenderPixmap { pixmap, commands } => ActionModel::RenderPixmap {
                pixmap,
                commands: render_models(commands@),
            },
            Action::ImeSpot { x, y } => ActionModel::ImeSpot { x, y },
            Action::SuppressResizeEvents => ActionModel::SuppressResizeEvents,
            Action::Clipboard { text } => ActionModel::Clipboard { text: text@ },
        }
    }
}

/// What a list of actions says.
pub open spec fn action_models(s: Seq<Action>) -> Seq<ActionModel> {
    Seq::new(s.len(), |i: int| s[i]@)
}

/// The state shared by all connections.
pub struct XServer {
    pub connections: dashmap::DashMap<u32, ClientConnection>,
    pub resources: dashmap::DashMap<u32, Resource>,
    pub atoms: AtomTable,
    pub screens: [Screen; 1],
    pub next_conn_id: u32,
    /// Resource identifiers of the next connection start here.
    pub next_resource_id_base: u32,
    pub startup_time: Timestamp,
    /// The clock, as last set by the caller.
    pub now: Timestamp,
    pub display_number: u32,
    /// Selections: owner window and time, by atom.
    pub selections: dashmap::DashMap<u32, (u32, u32)>,
    /// Pictures: drawable and format.
    pub pictures: dashmap::DashMap<u32, (u32, u32)>,
    /// Pointer position in root coordinates.
    pub pointer_x: i32,
    pub pointer_y: i32,
    /// Last pointer position seen in a window.
    pub window_pointer: dashmap::DashMap<u32, (i16, i16)>,
    /// The window with the keyboard focus; 0 is none, 1 follows the pointer.
    pub focus_window: u32,
    /// Where focus goes when its window vanishes: none, pointer root or parent.
    pub focus_revert_to: u32,
    /// Keysyms lent to spare keycodes for input method text.
    pub virtual_keysyms: Vec<u32>,
    /// The keyboard layout the display reported, if it did.
    pub keyboard_map: Option<[(u32, u32); 128]>,
    pub pending_clipboard_copy: bool,
    pub modifier_state: u16,
    pub font_names: Vec<String>,
    pub font_names_lower: Vec<String>,
    /// Colors by name.
    pub colors: Vec<NamedColor>,
    /// The native cursor of each glyph of the cursor font; the arrow for those
    /// that are missing.
    pub glyph_cursors: Vec<u8>,
    pub xim: XimServer,
    /// The pointer grab: window, owner events, event mask and connection.
    pub pointer_grab: Option<(Xid, bool, u32, u32)>,
    /// Actions asked for and not yet carried out.
    pub outbox: Vec<Action>,
}

/// What the server's state holds.
pub struct ServerModel {
    pub connections: Map<u32, ClientConnection>,
    pub resources: Map<u32, ResourceModel>,
    pub atoms: AtomModel,
    pub screen: Screen,
    pub next_conn_id: u32,
    pub next_resource_id_base: u32,
    pub startup_time: Timestamp,
    pub now: Timestamp,
    pub display_number: u32,
    pub selections: Map<u32, (u32, u32)>,
    pub pictures: Map<u32, (u32, u32)>,
    pub pointer_x: i32,
    pub pointer_y: i32,
    pub window_pointer: Map<u32, (i16, i16)>,
    pub focus_window: u32,
    pub focus_revert_to: u32,
    pub virtual_keysyms: Seq<u32>,
    pub keyboard_map: Option<Seq<(u32, u32)>>,
    pub pending_clipboard_copy: bool,
    pub modifier_state: u16,
    pub font_names: Seq<Seq<char>>,
    pub font_names_lower: Seq<Seq<char>>,
    pub colors: Seq<NamedColorModel>,
    pub glyph_cursors: Seq<u8>,
    pub xim: XimModel,
    pub pointer_grab: Option<(Xid, bool, u32, u32)>,
    pub outbox: Seq<ActionModel>,
}

/// The layout table behind an optional array.
pub open spec fn layout_of(m: Option<[(u32, u32); 128]>) -> Option<Seq<(u32, u32)>> {
    match m {
        Some(a) => Some(a@),
        None => None,
    }
}

impl View for XServer {
    type V = ServerModel;

    open spec fn view(&self) -> ServerModel {
        ServerModel {
            connections: tables::connections_in(self.connections),
            resources: tables::resources_in(self.resources),
            atoms: self.atoms@,
            screen: self.screens@[0],
            next_conn_id: self.next_conn_id,
            next_resource_id_base: self.next_resource_id_base,
            startup_time: self.startup_time,
            now: self.now,
            display_number: self.display_number,
            selections: tables::pairs_in(self.selections),
            pictures: tables::pairs_in(self.pictures),
            pointer_x: self.pointer_x,
            pointer_y: self.pointer_y,
            window_pointer: tables::positions_in(self.window_pointer),
            focus_window: self.focus_window,
            focus_revert_to: self.focus_revert_to,
            virtual_keysyms: self.virtual_keysyms@,
            keyboard_map: layout_of(self.keyboard_map),
            pending_clipboard_copy: self.pending_clipboard_copy,
            modifier_state: self.modifier_state,
            font_names: strings(self.font_names@),
            font_names_lower: strings(self.font_names_lower@),
            colors: color_models(self.colors@),
            glyph_cursors: self.glyph_cursors@,
            xim: self.xim@,
            pointer_grab: self.pointer_grab,
            outbox: action_models(self.outbox@),
        }
    }
}

/// What a request leads to: the state after it, and whether it was refused.
pub type Outcome = (ServerModel, Result<(), ServerError>);

/// A request that was carried out.
pub open spec fn done(s: ServerModel) -> Outcome {
    (s, Ok(()))
}

/// A request that was refused and changed nothing.
pub open spec fn refused(s: ServerModel, e: ServerError) -> Outcome {
    (s, Err(e))
}

/// The window under an identifier, if there is one.
pub open spec fn window_in(m: Map<u32, ResourceModel>, id: u32) -> Option<WindowModel> {
    if m.dom().contains(id) {
        match m[id] {
            ResourceModel::Window(w) => Some(w),
            _ => None,
        }
    } else {
        None
    }
}

/// The graphics context under an identifier, if there is one.
pub open spec fn gc_in(m: Map<u32, ResourceModel>, id: u32) -> Option<GContextState> {
    if m.dom().contains(id) {
        match m[id] {
            ResourceModel::GContext(g) => Some(g),
            _ => None,
        }
    } else {
        None
    }
}

/// The pixmap under an identifier, if there is one.
pub open spec fn pixmap_in(m: Map<u32, ResourceModel>, id: u32) -> Option<PixmapModel> {
    if m.dom().contains(id) {
        match m[id] {
            ResourceModel::Pixmap(p) => Some(p),
            _ => None,
        }
    } else {
        None
    }
}

/// The font under an identifier, if there is one.
pub open spec fn font_in(m: Map<u32, ResourceModel>, id: u32) -> Option<FontModel> {
    if m.dom().contains(id) {
        match m[id] {
            ResourceModel::Font(f) => Some(f),
            _ => None,
        }
    } else {
        None
    }
}

/// The cursor under an identifier, if there is one.
pub open spec fn cursor_in(m: Map<u32, ResourceModel>, id: u32) -> Option<CursorState> {
    if m.dom().contains(id) {
        match m[id] {
            ResourceModel::Cursor(c) => Some(c),
            _ => None,
        }
    } else {
        None
    }
}

impl ServerModel {
    /// The root window.
    pub open spec fn root(self) -> u32 {
        self.screen.root_window
    }

    /// The window under an identifier, if there is one.
    pub open spec fn window(self, id: u32) -> Option<WindowModel> {
        window_in(self.resources, id)
    }

    /// The state with a window put in place.
    pub open spec fn with_window(self, id: u32, w: WindowModel) -> ServerModel {
        self.with_resource(id, ResourceModel::Window(w))
    }

    /// The state with a resource put in place.
    pub open spec fn with_resource(self, id: u32, r: ResourceModel) -> ServerModel {
        ServerModel { resources: self.resources.insert(id, r), ..self }
    }

    /// The state with a resource gone.
    pub open spec fn without_resource(self, id: u32) -> ServerModel {
        ServerModel { resources: self.resources.remove(id), ..self }
    }

    /// The state with one more action asked for.
    pub open spec fn doing(self, a: ActionModel) -> ServerModel {
        ServerModel { outbox: self.outbox.push(a), ..self }
    }

    /// The state with bytes to be written to a client.
    pub open spec fn replying(self, conn: ClientConnection, data: Seq<u8>) -> ServerModel {
        self.doing(ActionModel::Reply { conn: conn.id, data })
    }

    /// The state with an event queued for a client.
    pub open spec fn sending(self, conn: u32, data: Seq<u8>) -> ServerModel {
        self.doing(ActionModel::Event { conn, data })
    }

    /// The state with a command for the native display.
    pub open spec fn showing(self, c: DisplayModel) -> ServerModel {
        self.doing(ActionModel::Display(c))
    }

    /// The connection under an identifier, if there is one.
    pub open spec fn connection(self, id: u32) -> Option<ClientConnection> {
        if self.connections.dom().contains(id) {
            Some(self.connections[id])
        } else {
            None
        }
    }

    /// Milliseconds since the server started.
    pub open spec fn time(self) -> u32 {
        self.now.wrapping_sub(self.startup_time)
    }

    /// The state after the atom of a name was interned.
    pub open spec fn interning(self, name: Seq<char>) -> ServerModel {
        ServerModel { atoms: self.atoms.with(name), ..self }
    }
}

/// The names of the fonts the server offers.
pub open spec fn offered_fonts() -> Seq<Seq<char>> {
    seq![
        "fixed"@,
        "cursor"@,
        "-misc-fixed-medium-r-normal--13-120-75-75-c-70-iso10646-1"@,
        "-misc-fixed-medium-r-semicondensed--13-120-75-75-c-60-iso10646-1"@,
        "-misc-fixed-medium-r-normal--14-130-75-75-c-70-iso10646-1"@,
        "-misc-fixed-medium-r-normal--13-120-75-75-c-70-iso10646-1"@,
    ]
}

/// The keysyms lent out at the start: basic hiragana.
pub open spec fn initial_keysyms() -> Seq<u32> {
    seq![
        0x01003042u32, 0x01003044u32, 0x01003046u32, 0x01003048u32, 0x0100304Au32,
        0x0100304Bu32, 0x0100304Du32, 0x0100304Fu32, 0x01003051u32, 0x01003053u32,
        0x01003055u32, 0x01003057u32, 0x01003059u32, 0x0100305Bu32, 0x0100305Du32,
        0x0100305Fu32, 0x01003061u32, 0x01003064u32, 0x01003066u32, 0x01003068u32,
        0x0100306Au32, 0x0100306Bu32, 0x0100306Cu32, 0x0100306Du32, 0x0100306Eu32,
        0x0100306Fu32, 0x01003072u32, 0x01003075u32, 0x01003078u32, 0x0100307Bu32,
        0x0100307Eu32, 0x0100307Fu32, 0x01003080u32, 0x01003081u32, 0x01003082u32,
        0x01003084u32, 0x01003086u32, 0x01003088u32,
        0x01003089u32, 0x0100308Au32, 0x0100308Bu32, 0x0100308Cu32, 0x0100308Du32,
        0x0100308Fu32, 0x01003092u32, 0x01003093u32,
        0x0100304Cu32, 0x01003060u32,
    ]
}

/// The screen of a given size.
pub open spec fn screen_of(width: u16, height: u16) -> Screen {
    Screen {
        root_window: 1,
        default_colormap: 2,
        white_pixel: 0x00FFFFFF,
        black_pixel: 0x00000000,
        width_in_pixels: width,
        height_in_pixels: height,
        width_in_mm: (width * 254 / 960) as u16,
        height_in_mm: (height * 254 / 960) as u16,
        root_depth: 24,
        root_visual: Visual {
            id: 0x21,
            class: 4,
            bits_per_rgb: 8,
            colormap_entries: 256,
            red_mask: 0x00FF0000,
            green_mask: 0x0000FF00,
            blue_mask: 0x000000FF,
        },
    }
}

/// The root window of a screen of a given size.
pub open spec fn root_window_of(width: u16, height: u16) -> WindowModel {
    WindowModel {
        background_pixel: Some(0),
        border_pixel: Some(0),
        win_gravity: 0,
        colormap: 2,
        mapped: true,
        viewable: true,
        ..fresh_window(1, 0, 0, 0, width, height, 0, 24, WindowClass::InputOutput, 0x21)
    }
}

/// The state a server starts with.
pub open spec fn initial_server(
    display_number: u32,
    width: u16,
    height: u16,
    startup_time: u32,
) -> ServerModel {
    ServerModel {
        connections: Map::empty(),
        resources: Map::empty().insert(1u32, ResourceModel::Window(root_window_of(width, height))),
        atoms: with_xim_atoms(initial_atoms()),
        screen: screen_of(width, height),
        next_conn_id: 1,
        next_resource_id_base: 0x00200000,
        startup_time,
        now: startup_time,
        display_number,
        selections: Map::empty(),
        pictures: Map::empty(),
        pointer_x: 0,
        pointer_y: 0,
        window_pointer: Map::empty(),
        focus_window: 1,
        focus_revert_to: 1,
        virtual_keysyms: initial_keysyms(),
        keyboard_map: None,
        pending_clipboard_copy: false,
        modifier_state: 0,
        font_names: offered_fonts(),
        font_names_lower: lowercase_all(offered_fonts()),
        colors: Seq::empty(),
        glyph_cursors: Seq::empty(),
        xim: XimModel {
            atoms: xim_atoms_of(initial_atoms()),
            connections: Map::empty(),
            comm_to_im: Map::empty(),
            server_comm_window: 1,
            next_im_id: 1,
            next_ic_id: 1,
        },
        pointer_grab: None,
        outbox: Seq::empty(),
    }
}

impl XServer {
    /// A server without clients.
    pub fn new(
        display_number: u32,
        screen_width: u16,
        screen_height: u16,
        startup_time: Timestamp,
    ) -> (r: XServer)
        ensures
            r@ == initial_server(display_number, screen_width, screen_height, startup_time),
    {
        let mut atoms = AtomTable::new();
        let root_visual = Visual {
            id: 0x21,
            class: 4,
            bits_per_rgb: 8,
            colormap_entries: 256,
            red_mask: 0x00FF0000,
            green_mask: 0x0000FF00,
            blue_mask: 0x000000FF,
        };
        let screen = Screen {
            root_window: 1,
            default_colormap: 2,
            white_pixel: 0x00FFFFFF,
            black_pixel: 0x00000000,
            width_in_pixels: screen_width,
            height_in_pixels: screen_height,
            width_in_mm: (screen_width as u32 * 254 / 960) as u16,
            height_in_mm: (screen_height as u32 * 254 / 960) as u16,
            root_depth: 24,
            root_visual,
        };
        let mut root = WindowState::new(
            1,
            0,
            0,
            0,
            screen_width,
            screen_height,
            0,
            24,
            WindowClass::InputOutput,
            0x21,
        );
        root.background_pixel = Some(0);
        root.border_pixel = Some(0);
        root.win_gravity = 0;
        root.colormap = 2;
        root.mapped = true;
        root.viewable = true;
        let mut resources = tables::new_resources();
        tables::put_resource(&mut resources, 1, Resource::Window(root));
        let xim = XimServer::new(&mut atoms, 1);
        let font_names = Self::load_font_names();
        let font_names_lower = lowercase_list(&font_names);
        let virtual_keysyms: Vec<u32> = vec![
            0x01003042, 0x01003044, 0x01003046, 0x01003048, 0x0100304A,
            0x0100304B, 0x0100304D, 0x0100304F, 0x01003051, 0x01003053,
            0x01003055, 0x01003057, 0x01003059, 0x0100305B, 0x0100305D,
            0x0100305F, 0x01003061, 0x01003064, 0x01003066, 0x01003068,
            0x0100306A, 0x0100306B, 0x0100306C, 0x0100306D, 0x0100306E,
            0x0100306F, 0x01003072, 0x01003075, 0x01003078, 0x0100307B,
            0x0100307E, 0x0100307F, 0x01003080, 0x01003081, 0x01003082,
            0x01003084, 0x01003086, 0x01003088,
            0x01003089, 0x0100308A, 0x0100308B, 0x0100308C, 0x0100308D,
            0x0100308F, 0x01003092, 0x01003093,
            0x0100304C, 0x01003060,
        ];
        assert(virtual_keysyms@ =~= initial_keysyms());
        let r = XServer {
            connections: tables::new_connections(),
            resources,
            atoms,
            screens: [screen],
            next_conn_id: 1,
            next_resource_id_base: 0x00200000,
            startup_time,
            now: startup_time,
            display_number,
            selections: tables::new_pairs(),
            pictures: tables::new_pairs(),
            pointer_x: 0,
            pointer_y: 0,
            window_pointer: tables::new_positions(),
            focus_window: 1,
            focus_revert_to: 1,
            virtual_keysyms,
            keyboard_map: None,
            pending_clipboard_copy: false,
            modifier_state: 0,
            font_names,
            font_names_lower,
            colors: Vec::new(),
            glyph_cursors: Vec::new(),
            xim,
            pointer_grab: None,
            outbox: Vec::new(),
        };
        assert(r@.outbox =~= Seq::empty());
        assert(r@.colors =~= Seq::empty());
        r
    }

    /// The fonts the server offers. Text is drawn by the native display, so these
    /// are only names that clients may open.
    fn load_font_names() -> (r: Vec<String>)
        ensures
            strings(r@) == offered_fonts(),
    {
        let mut r: Vec<String> = Vec::new();
        r.push("fixed".to_owned());
        r.push("cursor".to_owned());
        r.push("-misc-fixed-medium-r-normal--13-120-75-75-c-70-iso10646-1".to_owned());
        r.push("-misc-fixed-medium-r-semicondensed--13-120-75-75-c-60-iso10646-1".to_owned());
        r.push("-misc-fixed-medium-r-normal--14-130-75-75-c-70-iso10646-1".to_owned());
        r.push("-misc-fixed-medium-r-normal--13-120-75-75-c-70-iso10646-1".to_owned());
        assert(strings(r@) =~= offered_fonts());
        r
    }

    /// Reserves resource identifiers for a new connection.
    pub fn alloc_resource_id_base(&mut self) -> (r: u32)
        ensures
            r == old(self)@.next_resource_id_base,
            final(self)@ == (ServerModel {
                next_resource_id_base: old(self)@.next_resource_id_base.wrapping_add(0x00200000),
                ..old(self)@
            }),
    {
        let r: u32 = self.next_resource_id_base;
        self.next_resource_id_base = r.wrapping_add(0x00200000);
        r
    }

    /// The number of the next connection.
    pub fn next_conn_id(&mut self) -> (r: u32)
        ensures
            r == old(self)@.next_conn_id,
            final(self)@ == (ServerModel {
                next_conn_id: old(self)@.next_conn_id.wrapping_add(1),
                ..old(self)@
            }),
    {
        let r: u32 = self.next_conn_id;
        self.next_conn_id = r.wrapping_add(1);
        r
    }

    /// Milliseconds since the server started.
    pub fn current_time(&self) -> (r: Timestamp)
        ensures
            r == self@.time(),
    {
        self.now.wrapping_sub(self.startup_time)
    }

    /// The root window.
    pub fn root(&self) -> (r: Xid)
        ensures
            r == self@.root(),
    {
        self.screens[0].root_window
    }

    /// A copy of the window under an identifier.
    pub fn window(&self, id: Xid) -> (r: Option<WindowState>)
        ensures
            match self@.window(id) {
                Some(w) => r is Some && r->0@ == w,
                None => r is None,
            },
    {
        match tables::get_resource(&self.resources, id) {
            Some(Resource::Window(w)) => Some(w),
            _ => None,
        }
    }

    /// Puts a window in place.
    pub fn set_window(&mut self, id: Xid, w: WindowState)
        ensures
            final(self)@ == old(self)@.with_window(id, w@),
    {
        tables::put_resource(&mut self.resources, id, Resource::Window(w));
    }

    /// Puts a resource in place.
    pub fn set_resource(&mut self, id: Xid, r: Resource)
        ensures
            final(self)@ == old(self)@.with_resource(id, r@),
    {
        tables::put_resource(&mut self.resources, id, r);
    }

    /// Removes a resource.
    pub fn remove_resource(&mut self, id: Xid)
        ensures
            final(self)@ == old(self)@.without_resource(id),
    {
        tables::drop_resource(&mut self.resources, id);
    }

    /// The graphics context under an identifier.
    pub fn gc(&self, id: Xid) -> (r: Option<GContextState>)
        ensures
            r == gc_in(self@.resources, id),
    {
        match tables::get_resource(&self.resources, id) {
            Some(Resource::GContext(g)) => Some(g),
            _ => None,
        }
    }

    /// A copy of the pixmap under an identifier.
    pub fn pixmap(&self, id: Xid) -> (r: Option<PixmapState>)
        ensures
            match pixmap_in(self@.resources, id) {
                Some(p) => r is Some && r->0@ == p,
                None => r is None,
            },
    {
        match tables::get_resource(&self.resources, id) {
            Some(Resource::Pixmap(p)) => Some(p),
            _ => None,
        }
    }

    /// A copy of the font under an identifier.
    pub fn font(&self, id: Xid) -> (r: Option<FontState>)
        ensures
            match font_in(self@.resources, id) {
                Some(f) => r is Some && r->0@ == f,
                None => r is None,
            },
    {
        match tables::get_resource(&self.resources, id) {
            Some(Resource::Font(f)) => Some(f),
            _ => None,
        }
    }

    /// The cursor under an identifier.
    pub fn cursor(&self, id: Xid) -> (r: Option<CursorState>)
        ensures
            r == cursor_in(self@.resources, id),
    {
        match tables::get_resource(&self.resources, id) {
            Some(Resource::Cursor(c)) => Some(c),
            _ => None,
        }
    }

    /// The connection under an identifier.
    pub fn connection(&self, id: u32) -> (r: Option<ClientConnection>)
        ensures
            r == self@.connection(id),
    {
        tables::get_connection(&self.connections, id)
    }

    /// Asks for an action.
    pub fn act(&mut self, a: Action)
        ensures
            final(self)@ == old(self)@.doing(a@),
    {
        let ghost m = a@;
        self.outbox.push(a);
        assert(self@.outbox =~= old(self)@.outbox.push(m));
    }

    /// Asks for bytes to be written to a client.
    pub fn reply(&mut self, conn: &ClientConnection, data: Vec<u8>)
        ensures
            final(self)@ == old(self)@.replying(*conn, data@),
    {
        self.act(Action::Reply { conn: conn.id, data });
    }

    /// Queues an event for a client.
    pub fn send(&mut self, conn: u32, data: EventData)
        ensures
            final(self)@ == old(self)@.sending(conn, data@),
    {
        self.act(Action::Event { conn, data });
    }

    /// Asks for a command to be handed to the native display.
    pub fn show(&mut self, c: DisplayCommand)
        ensures
            final(self)@ == old(self)@.showing(c@),
    {
        self.act(Action::Display(c));
    }

    /// Hands out the actions asked for so far.
    pub fn take_actions(&mut self) -> (r: Vec<Action>)
        ensures
            action_models(r@) == old(self)@.outbox,
            final(self)@ == (ServerModel { outbox: Seq::empty(), ..old(self)@ }),
    {
        let mut r: Vec<Action> = Vec::new();
        std::mem::swap(&mut r, &mut self.outbox);
        assert(self@.outbox =~= Seq::empty());
        r
    }
}

/// Resource identifiers that two connections own never coincide: the blocks
/// handed out one after the other do not overlap until numbers run out.
pub proof fn law_resource_blocks_disjoint(a: u32, b: u32, id: u32)
    requires
        a % 0x00200000 == 0,
        b % 0x00200000 == 0,
        a != b,
    ensures
        !((id & !0x001FFFFFu32) == a && (id & !0x001FFFFFu32) == b),
        (id & !0x001FFFFFu32) == id - id % 0x00200000,
{
    assert((id & !0x001FFFFFu32) == id - id % 0x00200000) by (bit_vector);
}

/// Two allocations in a row differ by one block.
pub proof fn law_blocks_in_steps(s: ServerModel)
    requires
        s.next_resource_id_base % 0x00200000 == 0,
    ensures
        s.next_resource_id_base.wrapping_add(0x00200000) % 0x00200000 == 0,
        s.next_resource_id_base < 0xFFE00000 ==> s.next_resource_id_base.wrapping_add(0x00200000)
            == s.next_resource_id_base + 0x00200000,
{
}

} // verus!
