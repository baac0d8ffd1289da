//! Resources managed by the server: windows, pixmaps, graphics contexts,
//! fonts and cursors.

use vstd::prelude::*;

use super::wire::copy_vec;
use crate::display::{NativeWindowHandle, Xid};
use crate::util::coord::X11Point;

verus! {

/// A resource in the server's table.
#[derive(Debug)]
pub enum Resource {
    Window(WindowState),
    Pixmap(PixmapState),
    GContext(GContextState),
    Font(FontState),
    Cursor(CursorState),
}

/// What a resource holds, with sequences in place of vectors and strings.
pub enum ResourceModel {
    Window(WindowModel),
    Pixmap(PixmapModel),
    GContext(GContextState),
    Font(FontModel),
    Cursor(CursorState),
}

impl View for Resource {
    type V = ResourceModel;

    open spec fn view(&self) -> ResourceModel {
        match *self {
            Resource::Window(w) => ResourceModel::Window(w@),
            Resource::Pixmap(p) => ResourceModel::Pixmap(p@),
            Resource::GContext(g) => ResourceModel::GContext(g),
            Resource::Font(f) => ResourceModel::Font(f@),
            Resource::Cursor(c) => ResourceModel::Cursor(c),
        }
    }
}

impl Clone for Resource {
    fn clone(&self) -> (r: Resource)
        ensures
            r@ == self@,
    {
        match self {
            Resource::Window(w) => Resource::Window(w.clone()),
            Resource::Pixmap(p) => Resource::Pixmap(p.clone()),
            Resource::GContext(g) => Resource::GContext(*g),
            Resource::Font(f) => Resource::Font(f.clone()),
            Resource::Cursor(c) => Resource::Cursor(*c),
        }
    }
}

/// State of a window.
#[derive(Debug)]
pub struct WindowState {
    pub id: Xid,
    pub parent: Xid,
    pub children: Vec<Xid>,
    // Geometry, in physical pixels from the top left.
    pub x: i16,
    pub y: i16,
    pub width: u16,
    pub height: u16,
    pub border_width: u16,
    pub depth: u8,
    pub class: WindowClass,
    pub visual: u32,
    // Attributes.
    pub background_pixel: Option<u32>,
    pub border_pixel: Option<u32>,
    pub event_mask: u32,
    pub do_not_propagate_mask: u32,
    pub override_redirect: bool,
    pub backing_store: u8,
    pub colormap: Xid,
    pub cursor: Xid,
    pub bit_gravity: u8,
    pub win_gravity: u8,
    /// Event selections: connection and event mask.
    pub event_selections: Vec<(u32, u32)>,
    /// XI2 event selections: connection, device and mask.
    pub xi2_event_selections: Vec<(u32, u16, u32)>,
    pub mapped: bool,
    pub viewable: bool,
    pub properties: Vec<Property>,
    /// The native window behind a top-level window.
    pub native_window: Option<NativeWindowHandle>,
    /// Backing store pixels.
    pub backing_buffer: Option<Vec<u8>>,
    pub ime_spot: Option<X11Point>,
    pub ime_focus: bool,
}

/// What a window holds.
#[verifier::ext_equal]
pub struct WindowModel {
    pub id: Xid,
    pub parent: Xid,
    pub children: Seq<Xid>,
    pub x: i16,
    pub y: i16,
    pub width: u16,
    pub height: u16,
    pub border_width: u16,
    pub depth: u8,
    pub class: WindowClass,
    pub visual: u32,
    pub background_pixel: Option<u32>,
    pub border_pixel: Option<u32>,
    pub event_mask: u32,
    pub do_not_propagate_mask: u32,
    pub override_redirect: bool,
    pub backing_store: u8,
    pub colormap: Xid,
    pub cursor: Xid,
    pub bit_gravity: u8,
    pub win_gravity: u8,
    pub event_selections: Seq<(u32, u32)>,
    pub xi2_event_selections: Seq<(u32, u16, u32)>,
    pub mapped: bool,
    pub viewable: bool,
    pub properties: Seq<PropertyModel>,
    pub native_window: Option<NativeWindowHandle>,
    pub backing_buffer: Option<Seq<u8>>,
    pub ime_spot: Option<X11Point>,
    pub ime_focus: bool,
}

/// The contents of an optional byte buffer.
pub open spec fn buffer_model(b: Option<Vec<u8>>) -> Option<Seq<u8>> {
    match b {
        Some(v) => Some(v@),
        None => None,
    }
}

impl View for WindowState {
    type V = WindowModel;

    open spec fn view(&self) -> WindowModel {
        WindowModel {
            id: self.id,
            parent: self.parent,
            children: self.children@,
            x: self.x,
            y: self.y,
            width: self.width,
            height: self.height,
            border_width: self.border_width,
            depth: self.depth,
            class: self.class,
            visual: self.visual,
            background_pixel: self.background_pixel,
            border_pixel: self.border_pixel,
            event_mask: self.event_mask,
            do_not_propagate_mask: self.do_not_propagate_mask,
            override_redirect: self.override_redirect,
            backing_store: self.backing_store,
            colormap: self.colormap,
            cursor: self.cursor,
            bit_gravity: self.bit_gravity,
            win_gravity: self.win_gravity,
            event_selections: self.event_selections@,
            xi2_event_selections: self.xi2_event_selections@,
            mapped: self.mapped,
            viewable: self.viewable,
            properties: property_models(self.properties@),
            native_window: self.native_window,
            backing_buffer: buffer_model(self.backing_buffer),
            ime_spot: self.ime_spot,
            ime_focus: self.ime_focus,
        }
    }
}

impl Clone for WindowState {
    fn clone(&self) -> (r: WindowState)
        ensures
            r@ == self@,
    {
        let backing: Option<Vec<u8>> = match &self.backing_buffer {
            Some(v) => Some(copy_vec(v)),
            None => None,
        };
        WindowState {
            id: self.id,
            parent: self.parent,
            children: copy_vec(&self.children),
            x: self.x,
            y: self.y,
            width: self.width,
            height: self.height,
            border_width: self.border_width,
            depth: self.depth,
            class: self.class,
            visual: self.visual,
            background_pixel: self.background_pixel,
            border_pixel: self.border_pixel,
            event_mask: self.event_mask,
            do_not_propagate_mask: self.do_not_propagate_mask,
            override_redirect: self.override_redirect,
            backing_store: self.backing_store,
            colormap: self.colormap,
            cursor: self.cursor,
            bit_gravity: self.bit_gravity,
            win_gravity: self.win_gravity,
            event_selections: copy_vec(&self.event_selections),
            xi2_event_selections: copy_vec(&self.xi2_event_selections),
            mapped: self.mapped,
            viewable: self.viewable,
            properties: clone_properties(&self.properties),
            native_window: self.native_window,
            backing_buffer: backing,
            ime_spot: self.ime_spot,
            ime_focus: self.ime_focus,
        }
    }
}

/// A window as it is right after creation.
pub open spec fn fresh_window(
    id: Xid,
    parent: Xid,
    x: i16,
    y: i16,
    width: u16,
    height: u16,
    border_width: u16,
    depth: u8,
    class: WindowClass,
    visual: u32,
) -> WindowModel {
    WindowModel {
        id,
        parent,
        children: Seq::empty(),
        x,
        y,
        width,
        height,
        border_width,
        depth,
        class,
        visual,
        background_pixel: None,
        border_pixel: None,
        event_mask: 0,
        do_not_propagate_mask: 0,
        override_redirect: false,
        backing_store: 0,
        colormap: 0,
        cursor: 0,
        bit_gravity: 0,
        win_gravity: 1,
        event_selections: Seq::empty(),
        xi2_event_selections: Seq::empty(),
        mapped: false,
        viewable: false,
        properties: Seq::empty(),
        native_window: None,
        backing_buffer: None,
        ime_spot: None,
        ime_focus: false,
    }
}

/// Where a property of the given name stands in a list, if anywhere.
pub open spec fn property_index(props: Seq<PropertyModel>, name: u32) -> Option<int>
    decreases props.len(),
{
    if props.len() == 0 {
        None
    } else if props[0].name == name {
        Some(0)
    } else {
        match property_index(props.drop_first(), name) {
            Some(i) => Some(i + 1),
            None => None,
        }
    }
}

/// The property of the given name, if the list has one.
pub open spec fn property_named(props: Seq<PropertyModel>, name: u32) -> Option<PropertyModel> {
    match property_index(props, name) {
        Some(i) => Some(props[i]),
        None => None,
    }
}

/// A property list after a property was set: it replaces the one of the same
/// name in place, or is added at the end.
pub open spec fn with_property(props: Seq<PropertyModel>, p: PropertyModel) -> Seq<PropertyModel> {
    match property_index(props, p.name) {
        Some(i) => props.update(i, p),
        None => props.push(p),
    }
}

/// A property list after every property of the given name was deleted.
pub open spec fn without_property(props: Seq<PropertyModel>, name: u32) -> Seq<PropertyModel> {
    props.filter(|p: PropertyModel| p.name != name)
}

/// Facts about the position of a property.
pub proof fn lemma_property_index(props: Seq<PropertyModel>, name: u32)
    ensures
        match property_index(props, name) {
            Some(i) => 0 <= i < props.len() && props[i].name == name && forall|j: int|
                0 <= j < i ==> (#[trigger] props[j]).name != name,
            None => forall|j: int| 0 <= j < props.len() ==> (#[trigger] props[j]).name != name,
        },
    decreases props.len(),
{
    if props.len() > 0 && props[0].name != name {
        let rest = props.drop_first();
        lemma_property_index(rest, name);
        match property_index(rest, name) {
            Some(i) => {
                assert forall|j: int| 0 <= j < i + 1 implies (#[trigger] props[j]).name != name by {
                    if j > 0 {
                        assert(props[j] == rest[j - 1]);
                    }
                }
            },
            None => {
                assert forall|j: int| 0 <= j < props.len() implies (#[trigger] props[j]).name
                    != name by {
                    if j > 0 {
                        assert(props[j] == rest[j - 1]);
                    }
                }
            },
        }
    }
}

/// The first index with a name is the one `property_index` gives.
pub proof fn lemma_property_index_is(props: Seq<PropertyModel>, name: u32, at: int)
    requires
        0 <= at < props.len(),
        props[at].name == name,
        forall|j: int| 0 <= j < at ==> (#[trigger] props[j]).name != name,
    ensures
        property_index(props, name) == Some(at),
{
    lemma_property_index(props, name);
    match property_index(props, name) {
        Some(i) => {
            if i < at {
                assert(props[i].name != name);
            }
            if at < i {
                assert(props[at].name != name);
            }
        },
        None => {
            assert(props[at].name != name);
        },
    }
}

/// A list without the name has no index for it.
pub proof fn lemma_property_index_none(props: Seq<PropertyModel>, name: u32)
    requires
        forall|j: int| 0 <= j < props.len() ==> (#[trigger] props[j]).name != name,
    ensures
        property_index(props, name) is None,
{
    lemma_property_index(props, name);
}

impl WindowState {
    pub fn new(
        id: Xid,
        parent: Xid,
        x: i16,
        y: i16,
        width: u16,
        height: u16,
        border_width: u16,
        depth: u8,
        class: WindowClass,
        visual: u32,
    ) -> (r: WindowState)
        ensures
            r@ == fresh_window(id, parent, x, y, width, height, border_width, depth, class, visual),
    {
        let r = WindowState {
            id,
            parent,
            children: Vec::new(),
            x,
            y,
            width,
            height,
            border_width,
            depth,
            class,
            visual,
            background_pixel: None,
            border_pixel: None,
            event_mask: 0,
            do_not_propagate_mask: 0,
            override_redirect: false,
            backing_store: 0,
            colormap: 0,
            cursor: 0,
            bit_gravity: 0,
            win_gravity: 1,
            event_selections: Vec::new(),
            xi2_event_selections: Vec::new(),
            mapped: false,
            viewable: false,
            properties: Vec::new(),
            native_window: None,
            backing_buffer: None,
            ime_spot: None,
            ime_focus: false,
        };
        assert(r@.properties =~= Seq::empty());
        r
    }

    /// Whether a client selected events of the given kind on this window.
    pub fn should_deliver_event(&self, conn_id: u32, event_mask_bit: u32) -> (r: bool)
        ensures
            r <==> exists|i: int|
                0 <= i < self@.event_selections.len() && (
                #[trigger] self@.event_selections[i]).0 == conn_id && (self@.event_selections[i].1
                    & event_mask_bit) != 0,
    {
        for i in 0..self.event_selections.len()
            invariant
                forall|j: int|
                    0 <= j < i ==> !((#[trigger] self@.event_selections[j]).0 == conn_id && (
                    self@.event_selections[j].1 & event_mask_bit) != 0),
        {
            let (cid, mask) = self.event_selections[i];
            if cid == conn_id && (mask & event_mask_bit) != 0 {
                assert(self@.event_selections[i as int] == (cid, mask));
                return true;
            }
        }
        false
    }

    /// Where the property of the given name stands.
    fn find_property(&self, atom: u32) -> (r: Option<usize>)
        ensures
            match property_index(self@.properties, atom) {
                Some(i) => r is Some && r->0 == i && 0 <= i < self.properties@.len(),
                None => r is None,
            },
    {
        for i in 0..self.properties.len()
            invariant
                forall|j: int| 0 <= j < i ==> (#[trigger] self@.properties[j]).name != atom,
        {
            if self.properties[i].name == atom {
                proof {
                    assert(self@.properties[i as int].name == atom);
                    lemma_property_index_is(self@.properties, atom, i as int);
                }
                return Some(i);
            }
        }
        proof {
            lemma_property_index_none(self@.properties, atom);
        }
        None
    }

    /// The property of the given name, if there is one.
    pub fn get_property(&self, atom: u32) -> (r: Option<&Property>)
        ensures
            match property_named(self@.properties, atom) {
                Some(p) => r is Some && r->0@ == p,
                None => r is None,
            },
    {
        match self.find_property(atom) {
            Some(i) => Some(&self.properties[i]),
            None => None,
        }
    }

    /// Sets a property: it takes the place of the one with the same name, or is
    /// added at the end.
    pub fn set_property(&mut self, prop: Property)
        ensures
            final(self)@ == (WindowModel {
                properties: with_property(old(self)@.properties, prop@),
                ..old(self)@
            }),
    {
        let ghost p = prop@;
        match self.find_property(prop.name) {
            Some(i) => {
                self.properties.set(i, prop);
                assert(self@.properties =~= old(self)@.properties.update(i as int, p));
            },
            None => {
                self.properties.push(prop);
                assert(self@.properties =~= old(self)@.properties.push(p));
            },
        }
    }

    /// Deletes every property of the given name.
    pub fn delete_property(&mut self, atom: u32)
        ensures
            final(self)@ == (WindowModel {
                properties: without_property(old(self)@.properties, atom),
                ..old(self)@
            }),
    {
        let ghost before = self@;
        let mut kept: Vec<Property> = Vec::new();
        let ghost keep = |p: PropertyModel| p.name != atom;
        for i in 0..self.properties.len()
            invariant
                keep == (|p: PropertyModel| p.name != atom),
                before == self@,
                property_models(kept@) == before.properties.take(i as int).filter(keep),
        {
            let p = &self.properties[i];
            proof {
                lemma_filter_take(before.properties, i as int, keep);
                assert(before.properties[i as int] == p@);
            }
            if p.name != atom {
                let copy = p.clone();
                let ghost m = copy@;
                let ghost kept_before = kept@;
                kept.push(copy);
                assert(property_models(kept@) =~= property_models(kept_before).push(m));
            }
        }
        assert(before.properties.take(before.properties.len() as int) =~= before.properties);
        self.properties = kept;
    }
}

/// Filtering one element more of a sequence.
pub proof fn lemma_filter_take<T>(s: Seq<T>, i: int, f: spec_fn(T) -> bool)
    requires
        0 <= i < s.len(),
    ensures
        s.take(i + 1).filter(f) == (if f(s[i]) {
            s.take(i).filter(f).push(s[i])
        } else {
            s.take(i).filter(f)
        }),
{
    reveal(Seq::filter);
    let t = s.take(i + 1);
    assert(t.drop_last() =~= s.take(i));
    assert(t.last() == s[i]);
}

/// The kind of a window.
#[derive(Debug, Clone, Copy, PartialEq, Eq, Structural)]
pub enum WindowClass {
    CopyFromParent,
    InputOutput,
    InputOnly,
}

impl From<u16> for WindowClass {
    fn from(v: u16) -> (r: WindowClass) {
        match v {
            0 => WindowClass::CopyFromParent,
            1 => WindowClass::InputOutput,
            2 => WindowClass::InputOnly,
            _ => WindowClass::CopyFromParent,
        }
    }
}

impl vstd::std_specs::convert::FromSpecImpl<u16> for WindowClass {
    open spec fn obeys_from_spec() -> bool {
        true
    }

    open spec fn from_spec(v: u16) -> WindowClass {
        if v == 1 {
            WindowClass::InputOutput
        } else if v == 2 {
            WindowClass::InputOnly
        } else {
            WindowClass::CopyFromParent
        }
    }
}

/// A window property.
#[derive(Debug)]
pub struct Property {
    /// Atom of the property.
    pub name: u32,
    /// Atom of the property's type.
    pub type_atom: u32,
    /// Bits per item: 8, 16 or 32.
    pub format: u8,
    pub data: Vec<u8>,
}

/// What a property holds.
pub struct PropertyModel {
    pub name: u32,
    pub type_atom: u32,
    pub format: u8,
    pub data: Seq<u8>,
}

impl View for Property {
    type V = PropertyModel;

    open spec fn view(&self) -> PropertyModel {
        PropertyModel {
            name: self.name,
            type_atom: self.type_atom,
            format: self.format,
            data: self.data@,
        }
    }
}

impl Clone for Property {
    fn clone(&self) -> (r: Property)
        ensures
            r@ == self@,
    {
        Property {
            name: self.name,
            type_atom: self.type_atom,
            format: self.format,
            data: copy_vec(&self.data),
        }
    }
}

/// What a list of properties holds.
pub open spec fn property_models(s: Seq<Property>) -> Seq<PropertyModel> {
    Seq::new(s.len(), |i: int| s[i]@)
}

/// Copies a list of properties.
fn clone_properties(v: &Vec<Property>) -> (r: Vec<Property>)
    ensures
        property_models(r@) == property_models(v@),
{
    let mut r: Vec<Property> = Vec::with_capacity(v.len());
    for i in 0..v.len()
        invariant
            r@.len() == i,
            forall|j: int| 0 <= j < i ==> (#[trigger] r@[j])@ == v@[j]@,
    {
        r.push(v[i].clone());
    }
    assert(property_models(r@) =~= property_models(v@));
    r
}

/// State of a pixmap.
#[derive(Debug)]
pub struct PixmapState {
    pub id: Xid,
    pub drawable: Xid,
    pub width: u16,
    pub height: u16,
    pub depth: u8,
    /// Four bytes per pixel, row after row.
    pub data: Vec<u8>,
}

/// What a pixmap holds.
pub struct PixmapModel {
    pub id: Xid,
    pub drawable: Xid,
    pub width: u16,
    pub height: u16,
    pub depth: u8,
    pub data: Seq<u8>,
}

impl View for PixmapState {
    type V = PixmapModel;

    open spec fn view(&self) -> PixmapModel {
        PixmapModel {
            id: self.id,
            drawable: self.drawable,
            width: self.width,
            height: self.height,
            depth: self.depth,
            data: self.data@,
        }
    }
}

impl Clone for PixmapState {
    fn clone(&self) -> (r: PixmapState)
        ensures
            r@ == self@,
    {
        PixmapState {
            id: self.id,
            drawable: self.drawable,
            width: self.width,
            height: self.height,
            depth: self.depth,
            data: copy_vec(&self.data),
        }
    }
}

/// State of a graphics context.
#[derive(Debug, Clone, Copy)]
pub struct GContextState {
    pub id: Xid,
    pub drawable: Xid,
    pub function: GcFunction,
    pub plane_mask: u32,
    pub foreground: u32,
    pub background: u32,
    pub line_width: u16,
    pub line_style: u8,
    pub cap_style: u8,
    pub join_style: u8,
    pub fill_style: u8,
    pub fill_rule: u8,
    pub arc_mode: u8,
    pub font: Xid,
    pub subwindow_mode: u8,
    pub graphics_exposures: bool,
    pub clip_x_origin: i16,
    pub clip_y_origin: i16,
    pub clip_mask: Xid,
    pub dash_offset: u16,
    pub dashes: u8,
}

/// A graphics context as it is right after creation.
pub open spec fn fresh_gc(id: Xid, drawable: Xid) -> GContextState {
    GContextState {
        id,
        drawable,
        function: GcFunction::Copy,
        plane_mask: 0xFFFFFFFF,
        foreground: 0x00000000,
        background: 0x00FFFFFF,
        line_width: 0,
        line_style: 0,
        cap_style: 1,
        join_style: 0,
        fill_style: 0,
        fill_rule: 0,
        arc_mode: 1,
        font: 0,
        subwindow_mode: 0,
        graphics_exposures: true,
        clip_x_origin: 0,
        clip_y_origin: 0,
        clip_mask: 0,
        dash_offset: 0,
        dashes: 4,
    }
}

impl GContextState {
    pub fn new(id: Xid, drawable: Xid) -> (r: GContextState)
        ensures
            r == fresh_gc(id, drawable),
    {
        GContextState {
            id,
            drawable,
            function: GcFunction::Copy,
            plane_mask: 0xFFFFFFFF,
            foreground: 0x00000000,
            background: 0x00FFFFFF,
            line_width: 0,
            line_style: 0,
            cap_style: 1,
            join_style: 0,
            fill_style: 0,
            fill_rule: 0,
            arc_mode: 1,
            font: 0,
            subwindow_mode: 0,
            graphics_exposures: true,
            clip_x_origin: 0,
            clip_y_origin: 0,
            clip_mask: 0,
            dash_offset: 0,
            dashes: 4,
        }
    }
}

/// The sixteen raster operations.
#[derive(Debug, Clone, Copy, PartialEq, Eq, Structural)]
pub enum GcFunction {
    Clear,
    And,
    AndReverse,
    Copy,
    AndInverted,
    Noop,
    Xor,
    Or,
    Nor,
    Equiv,
    Invert,
    OrReverse,
    CopyInverted,
    OrInverted,
    Nand,
    SetBits,
}

impl GcFunction {
    /// The protocol's number for the operation.
    pub open spec fn number(self) -> u8 {
        match self {
            GcFunction::Clear => 0,
            GcFunction::And => 1,
            GcFunction::AndReverse => 2,
            GcFunction::Copy => 3,
            GcFunction::AndInverted => 4,
            GcFunction::Noop => 5,
            GcFunction::Xor => 6,
            GcFunction::Or => 7,
            GcFunction::Nor => 8,
            GcFunction::Equiv => 9,
            GcFunction::Invert => 10,
            GcFunction::OrReverse => 11,
            GcFunction::CopyInverted => 12,
            GcFunction::OrInverted => 13,
            GcFunction::Nand => 14,
            GcFunction::SetBits => 15,
        }
    }

    /// The protocol's number for the operation.
    pub fn code(self) -> (r: u8)
        ensures
            r == self.number(),
    {
        match self {
            GcFunction::Clear => 0,
            GcFunction::And => 1,
            GcFunction::AndReverse => 2,
            GcFunction::Copy => 3,
            GcFunction::AndInverted => 4,
            GcFunction::Noop => 5,
            GcFunction::Xor => 6,
            GcFunction::Or => 7,
            GcFunction::Nor => 8,
            GcFunction::Equiv => 9,
            GcFunction::Invert => 10,
            GcFunction::OrReverse => 11,
            GcFunction::CopyInverted => 12,
            GcFunction::OrInverted => 13,
            GcFunction::Nand => 14,
            GcFunction::SetBits => 15,
        }
    }
}

/// The operation with the given number; numbers past the last mean `Copy`.
pub open spec fn gc_function_of(v: u8) -> GcFunction {
    match v {
        0u8 => GcFunction::Clear,
        1u8 => GcFunction::And,
        2u8 => GcFunction::AndReverse,
        4u8 => GcFunction::AndInverted,
        5u8 => GcFunction::Noop,
        6u8 => GcFunction::Xor,
        7u8 => GcFunction::Or,
        8u8 => GcFunction::Nor,
        9u8 => GcFunction::Equiv,
        10u8 => GcFunction::Invert,
        11u8 => GcFunction::OrReverse,
        12u8 => GcFunction::CopyInverted,
        13u8 => GcFunction::OrInverted,
        14u8 => GcFunction::Nand,
        15u8 => GcFunction::SetBits,
        _ => GcFunction::Copy,
    }
}

impl From<u8> for GcFunction {
    fn from(v: u8) -> (r: GcFunction) {
        match v {
            0 => GcFunction::Clear,
            1 => GcFunction::And,
            2 => GcFunction::AndReverse,
            3 => GcFunction::Copy,
            4 => GcFunction::AndInverted,
            5 => GcFunction::Noop,
            6 => GcFunction::Xor,
            7 => GcFunction::Or,
            8 => GcFunction::Nor,
            9 => GcFunction::Equiv,
            10 => GcFunction::Invert,
            11 => GcFunction::OrReverse,
            12 => GcFunction::CopyInverted,
            13 => GcFunction::OrInverted,
            14 => GcFunction::Nand,
            15 => GcFunction::SetBits,
            _ => GcFunction::Copy,
        }
    }
}

impl vstd::std_specs::convert::FromSpecImpl<u8> for GcFunction {
    open spec fn obeys_from_spec() -> bool {
        true
    }

    open spec fn from_spec(v: u8) -> GcFunction {
        gc_function_of(v)
    }
}

/// State of a font.
#[derive(Debug)]
pub struct FontState {
    pub id: Xid,
    pub name: String,
    pub ascent: i16,
    pub descent: i16,
    pub max_char_width: i16,
    pub min_char_width: i16,
    pub default_char: u16,
    /// Whether characters take two bytes.
    pub is_2byte: bool,
}

/// What a font holds.
pub struct FontModel {
    pub id: Xid,
    pub name: Seq<char>,
    pub ascent: i16,
    pub descent: i16,
    pub max_char_width: i16,
    pub min_char_width: i16,
    pub default_char: u16,
    /// Whether characters take two bytes.
    pub is_2byte: bool,
}

impl View for FontState {
    type V = FontModel;

    open spec fn view(&self) -> FontModel {
        FontModel {
            id: self.id,
            name: self.name@,
            ascent: self.ascent,
            descent: self.descent,
            max_char_width: self.max_char_width,
            min_char_width: self.min_char_width,
            default_char: self.default_char,
            is_2byte: self.is_2byte,
        }
    }
}

impl Clone for FontState {
    fn clone(&self) -> (r: FontState)
        ensures
            r@ == self@,
    {
        FontState {
            id: self.id,
            name: self.name.clone(),
            ascent: self.ascent,
            descent: self.descent,
            max_char_width: self.max_char_width,
            min_char_width: self.min_char_width,
            default_char: self.default_char,
            is_2byte: self.is_2byte,
        }
    }
}

/// State of a cursor.
#[derive(Debug, Clone, Copy)]
pub struct CursorState {
    pub id: Xid,
    pub source_font: Xid,
    pub source_char: u16,
    pub mask_font: Xid,
    pub mask_char: u16,
    pub fore_red: u16,
    pub fore_green: u16,
    pub fore_blue: u16,
    pub back_red: u16,
    pub back_green: u16,
    pub back_blue: u16,
    /// The native cursor shown for it.
    pub macos_type: u8,
}

/// A property that was set is what a later lookup of its name finds, and
/// lookups of every other name are as before.
pub proof fn law_set_then_get(props: Seq<PropertyModel>, p: PropertyModel, other: u32)
    ensures
        property_named(with_property(props, p), p.name) == Some(p),
        other != p.name ==> property_named(with_property(props, p), other) == property_named(
            props,
            other,
        ),
{
    let after = with_property(props, p);
    lemma_property_index(props, p.name);
    match property_index(props, p.name) {
        Some(i) => {
            assert forall|j: int| 0 <= j < i implies (#[trigger] after[j]).name != p.name by {
                assert(after[j] == props[j]);
            }
            lemma_property_index_is(after, p.name, i);
            lemma_property_index(props, other);
            lemma_same_names_same_index(props, after, other);
        },
        None => {
            assert forall|j: int| 0 <= j < props.len() implies (#[trigger] after[j]).name
                != p.name by {
                assert(after[j] == props[j]);
            }
            lemma_property_index_is(after, p.name, props.len() as int);
            if other != p.name {
                lemma_property_index(props, other);
                match property_index(props, other) {
                    Some(k) => {
                        assert forall|j: int| 0 <= j < k implies (#[trigger] after[j]).name
                            != other by {
                            assert(after[j] == props[j]);
                        }
                        assert(after[k] == props[k]);
                        lemma_property_index_is(after, other, k);
                    },
                    None => {
                        assert forall|j: int| 0 <= j < after.len() implies (
                        #[trigger] after[j]).name != other by {
                            if j < props.len() {
                                assert(after[j] == props[j]);
                            }
                        }
                        lemma_property_index_none(after, other);
                    },
                }
            }
        },
    }
}

proof fn lemma_same_names_same_index(a: Seq<PropertyModel>, b: Seq<PropertyModel>, name: u32)
    requires
        a.len() == b.len(),
        forall|j: int| 0 <= j < a.len() ==> (#[trigger] a[j]).name == b[j].name,
    ensures
        property_index(a, name) == property_index(b, name),
    decreases a.len(),
{
    if a.len() > 0 {
        let ra = a.drop_first();
        let rb = b.drop_first();
        assert(a[0].name == b[0].name);
        assert forall|j: int| 0 <= j < ra.len() implies (#[trigger] ra[j]).name == rb[j].name by {
            assert(ra[j] == a[j + 1] && rb[j] == b[j + 1]);
        }
        lemma_same_names_same_index(ra, rb, name);
    }
}

/// After a property was deleted no lookup finds its name, and lookups of every
/// other name are as before.
pub proof fn law_delete_then_get(props: Seq<PropertyModel>, name: u32, other: u32)
    ensures
        property_named(without_property(props, name), name) is None,
        other != name ==> property_named(without_property(props, name), other) == property_named(
            props,
            other,
        ),
    decreases props.len(),
{
    let keep = |p: PropertyModel| p.name != name;
    let after = without_property(props, name);
    assert forall|j: int| 0 <= j < after.len() implies (#[trigger] after[j]).name != name by {
        props.lemma_filter_pred(keep, j);
    }
    lemma_property_index_none(after, name);
    if other != name {
        lemma_filter_keeps_lookup(props, name, other);
    }
}

proof fn lemma_filter_keeps_lookup(props: Seq<PropertyModel>, name: u32, other: u32)
    requires
        other != name,
    ensures
        property_named(without_property(props, name), other) == property_named(props, other),
    decreases props.len(),
{
    let keep = |p: PropertyModel| p.name != name;
    reveal(Seq::filter);
    if props.len() > 0 {
        let init = props.drop_last();
        let last = props.last();
        lemma_filter_keeps_lookup(init, name, other);
        lemma_lookup_push(init, last, other);
        assert(init.push(last) =~= props);
        if keep(last) {
            lemma_lookup_push(without_property(init, name), last, other);
        }
    }
}

proof fn lemma_lookup_push(props: Seq<PropertyModel>, p: PropertyModel, name: u32)
    ensures
        property_named(props.push(p), name) == (match property_named(props, name) {
            Some(q) => Some(q),
            None => if p.name == name {
                Some(p)
            } else {
                None
            },
        }),
{
    let after = props.push(p);
    lemma_property_index(props, name);
    match property_index(props, name) {
        Some(k) => {
            assert forall|j: int| 0 <= j < k implies (#[trigger] after[j]).name != name by {
                assert(after[j] == props[j]);
            }
            assert(after[k] == props[k]);
            lemma_property_index_is(after, name, k);
        },
        None => {
            assert forall|j: int| 0 <= j < props.len() implies (#[trigger] after[j]).name
                != name by {
                assert(after[j] == props[j]);
            }
            if p.name == name {
                lemma_property_index_is(after, name, props.len() as int);
            } else {
                lemma_property_index_none(after, name);
            }
        },
    }
}

/// Setting a property keeps a list free of duplicate names.
pub proof fn law_names_stay_unique(props: Seq<PropertyModel>, p: PropertyModel)
    requires
        forall|i: int, j: int|
            0 <= i < j < props.len() ==> (#[trigger] props[i]).name != (#[trigger] props[j]).name,
    ensures
        ({
            let after = with_property(props, p);
            forall|i: int, j: int|
                0 <= i < j < after.len() ==> (#[trigger] after[i]).name != (
                #[trigger] after[j]).name
        }),
{
    lemma_property_index(props, p.name);
}

/// The number of a raster operation leads back to it.
pub proof fn law_gc_function_number(f: GcFunction)
    ensures
        gc_function_of(f.number()) == f,
{
}

} // verus!
