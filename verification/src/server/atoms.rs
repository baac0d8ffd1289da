//! Atoms: names that clients share by number.

use vstd::prelude::*;

use super::predefined;
use super::tables;

verus! {

/// The name of a predefined atom.
#[verifier::opaque]
pub open spec fn predefined_name(i: int) -> Seq<char> {
    if i == 1 {
        "PRIMARY"@
    } else if i == 2 {
        "SECONDARY"@
    } else if i == 3 {
        "ARC"@
    } else if i == 4 {
        "ATOM"@
    } else if i == 5 {
        "BITMAP"@
    } else if i == 6 {
        "CARDINAL"@
    } else if i == 7 {
        "COLORMAP"@
    } else if i == 8 {
        "CURSOR"@
    } else if i == 9 {
        "CUT_BUFFER0"@
    } else if i == 10 {
        "CUT_BUFFER1"@
    } else if i == 11 {
        "CUT_BUFFER2"@
    } else if i == 12 {
        "CUT_BUFFER3"@
    } else if i == 13 {
        "CUT_BUFFER4"@
    } else if i == 14 {
        "CUT_BUFFER5"@
    } else if i == 15 {
        "CUT_BUFFER6"@
    } else if i == 16 {
        "CUT_BUFFER7"@
    } else if i == 17 {
        "DRAWABLE"@
    } else if i == 18 {
        "FONT"@
    } else if i == 19 {
        "INTEGER"@
    } else if i == 20 {
        "PIXMAP"@
    } else if i == 21 {
        "POINT"@
    } else if i == 22 {
        "RECTANGLE"@
    } else if i == 23 {
        "RESOURCE_MANAGER"@
    } else if i == 24 {
        "RGB_COLOR_MAP"@
    } else if i == 25 {
        "RGB_BEST_MAP"@
    } else if i == 26 {
        "RGB_BLUE_MAP"@
    } else if i == 27 {
        "RGB_DEFAULT_MAP"@
    } else if i == 28 {
        "RGB_GRAY_MAP"@
    } else if i == 29 {
        "RGB_GREEN_MAP"@
    } else if i == 30 {
        "RGB_RED_MAP"@
    } else if i == 31 {
        "STRING"@
    } else if i == 32 {
        "VISUALID"@
    } else if i == 33 {
        "WINDOW"@
    } else if i == 34 {
        "WM_COMMAND"@
    } else if i == 35 {
        "WM_HINTS"@
    } else if i == 36 {
        "WM_CLIENT_MACHINE"@
    } else if i == 37 {
        "WM_ICON_NAME"@
    } else if i == 38 {
        "WM_ICON_SIZE"@
    } else if i == 39 {
        "WM_NAME"@
    } else if i == 40 {
        "WM_NORMAL_HINTS"@
    } else if i == 41 {
        "WM_SIZE_HINTS"@
    } else if i == 42 {
        "WM_ZOOM_HINTS"@
    } else if i == 43 {
        "MIN_SPACE"@
    } else if i == 44 {
        "NORM_SPACE"@
    } else if i == 45 {
        "MAX_SPACE"@
    } else if i == 46 {
        "END_SPACE"@
    } else if i == 47 {
        "SUPERSCRIPT_X"@
    } else if i == 48 {
        "SUPERSCRIPT_Y"@
    } else if i == 49 {
        "SUBSCRIPT_X"@
    } else if i == 50 {
        "SUBSCRIPT_Y"@
    } else if i == 51 {
        "UNDERLINE_POSITION"@
    } else if i == 52 {
        "UNDERLINE_THICKNESS"@
    } else if i == 53 {
        "STRIKEOUT_ASCENT"@
    } else if i == 54 {
        "STRIKEOUT_DESCENT"@
    } else if i == 55 {
        "ITALIC_ANGLE"@
    } else if i == 56 {
        "X_HEIGHT"@
    } else if i == 57 {
        "QUAD_WIDTH"@
    } else if i == 58 {
        "WEIGHT"@
    } else if i == 59 {
        "POINT_SIZE"@
    } else if i == 60 {
        "RESOLUTION"@
    } else if i == 61 {
        "COPYRIGHT"@
    } else if i == 62 {
        "NOTICE"@
    } else if i == 63 {
        "FONT_NAME"@
    } else if i == 64 {
        "FAMILY_NAME"@
    } else if i == 65 {
        "FULL_NAME"@
    } else if i == 66 {
        "CAP_HEIGHT"@
    } else if i == 67 {
        "WM_CLASS"@
    } else {
        "WM_TRANSIENT_FOR"@
    }
}

/// The name of a predefined atom.
fn name_of_predefined(i: u32) -> (r: &'static str)
    requires
        1 <= i <= predefined::LAST_PREDEFINED,
    ensures
        r@ == predefined_name(i as int),
{
    reveal(predefined_name);
    match i {
        1 => "PRIMARY",
        2 => "SECONDARY",
        3 => "ARC",
        4 => "ATOM",
        5 => "BITMAP",
        6 => "CARDINAL",
        7 => "COLORMAP",
        8 => "CURSOR",
        9 => "CUT_BUFFER0",
        10 => "CUT_BUFFER1",
        11 => "CUT_BUFFER2",
        12 => "CUT_BUFFER3",
        13 => "CUT_BUFFER4",
        14 => "CUT_BUFFER5",
        15 => "CUT_BUFFER6",
        16 => "CUT_BUFFER7",
        17 => "DRAWABLE",
        18 => "FONT",
        19 => "INTEGER",
        20 => "PIXMAP",
        21 => "POINT",
        22 => "RECTANGLE",
        23 => "RESOURCE_MANAGER",
        24 => "RGB_COLOR_MAP",
        25 => "RGB_BEST_MAP",
        26 => "RGB_BLUE_MAP",
        27 => "RGB_DEFAULT_MAP",
        28 => "RGB_GRAY_MAP",
        29 => "RGB_GREEN_MAP",
        30 => "RGB_RED_MAP",
        31 => "STRING",
        32 => "VISUALID",
        33 => "WINDOW",
        34 => "WM_COMMAND",
        35 => "WM_HINTS",
        36 => "WM_CLIENT_MACHINE",
        37 => "WM_ICON_NAME",
        38 => "WM_ICON_SIZE",
        39 => "WM_NAME",
        40 => "WM_NORMAL_HINTS",
        41 => "WM_SIZE_HINTS",
        42 => "WM_ZOOM_HINTS",
        43 => "MIN_SPACE",
        44 => "NORM_SPACE",
        45 => "MAX_SPACE",
        46 => "END_SPACE",
        47 => "SUPERSCRIPT_X",
        48 => "SUPERSCRIPT_Y",
        49 => "SUBSCRIPT_X",
        50 => "SUBSCRIPT_Y",
        51 => "UNDERLINE_POSITION",
        52 => "UNDERLINE_THICKNESS",
        53 => "STRIKEOUT_ASCENT",
        54 => "STRIKEOUT_DESCENT",
        55 => "ITALIC_ANGLE",
        56 => "X_HEIGHT",
        57 => "QUAD_WIDTH",
        58 => "WEIGHT",
        59 => "POINT_SIZE",
        60 => "RESOLUTION",
        61 => "COPYRIGHT",
        62 => "NOTICE",
        63 => "FONT_NAME",
        64 => "FAMILY_NAME",
        65 => "FULL_NAME",
        66 => "CAP_HEIGHT",
        67 => "WM_CLASS",
        _ => "WM_TRANSIENT_FOR",
    }
}

/// The names of the first `n` predefined atoms, by number.
pub open spec fn predefined_names(n: nat) -> Map<u32, Seq<char>>
    decreases n,
{
    if n == 0 {
        Map::empty()
    } else {
        predefined_names((n - 1) as nat).insert(n as u32, predefined_name(n as int))
    }
}

/// The numbers of the first `n` predefined atoms, by name.
pub open spec fn predefined_ids(n: nat) -> Map<Seq<char>, u32>
    decreases n,
{
    if n == 0 {
        Map::empty()
    } else {
        predefined_ids((n - 1) as nat).insert(predefined_name(n as int), n as u32)
    }
}

/// Maps between atom names and numbers.
pub struct AtomTable {
    pub name_to_id: dashmap::DashMap<String, u32>,
    pub id_to_name: dashmap::DashMap<u32, String>,
    /// Number of the next atom to be made.
    pub next_id: u32,
}

/// What an atom table holds.
pub struct AtomModel {
    pub ids: Map<Seq<char>, u32>,
    pub names: Map<u32, Seq<char>>,
    pub next_id: u32,
}

impl View for AtomTable {
    type V = AtomModel;

    open spec fn view(&self) -> AtomModel {
        AtomModel {
            ids: tables::ids_in(self.name_to_id),
            names: tables::names_in(self.id_to_name),
            next_id: self.next_id,
        }
    }
}

impl AtomModel {
    /// Names and numbers belong together one to one, new numbers are fresh, and
    /// the predefined atoms have their numbers.
    pub open spec fn wf(self) -> bool {
        &&& self.next_id > predefined::LAST_PREDEFINED
        &&& forall|name: Seq<char>| #[trigger]
            self.ids.dom().contains(name) ==> self.names.dom().contains(self.ids[name])
                && self.names[self.ids[name]] == name
        &&& forall|id: u32| #[trigger]
            self.names.dom().contains(id) ==> self.ids.dom().contains(self.names[id])
                && self.ids[self.names[id]] == id && 1 <= id < self.next_id
        &&& forall|i: int|
            1 <= i <= predefined::LAST_PREDEFINED ==> self.ids.dom().contains(
                #[trigger] predefined_name(i),
            ) && self.ids[predefined_name(i)] == i
    }

    /// The number of a name, if it has one.
    pub open spec fn id_of(self, name: Seq<char>) -> Option<u32> {
        if self.ids.dom().contains(name) {
            Some(self.ids[name])
        } else {
            None
        }
    }

    /// The name of a number, if it has one.
    pub open spec fn name_of(self, id: u32) -> Option<Seq<char>> {
        if self.names.dom().contains(id) {
            Some(self.names[id])
        } else {
            None
        }
    }

    /// The table after a name was interned.
    pub open spec fn with(self, name: Seq<char>) -> AtomModel {
        if self.ids.dom().contains(name) {
            self
        } else {
            AtomModel {
                ids: self.ids.insert(name, self.next_id),
                names: self.names.insert(self.next_id, name),
                next_id: self.next_id.wrapping_add(1),
            }
        }
    }

    /// The number a name gets when it is interned.
    pub open spec fn interned(self, name: Seq<char>) -> u32 {
        if self.ids.dom().contains(name) {
            self.ids[name]
        } else {
            self.next_id
        }
    }
}

/// The table every server starts with.
pub open spec fn initial_atoms() -> AtomModel {
    AtomModel {
        ids: predefined_ids(predefined::LAST_PREDEFINED as nat),
        names: predefined_names(predefined::LAST_PREDEFINED as nat),
        next_id: (predefined::LAST_PREDEFINED + 1) as u32,
    }
}

impl AtomTable {
    /// A table with the predefined atoms.
    pub fn new() -> (r: AtomTable)
        ensures
            r@ == initial_atoms(),
            r@.wf(),
    {
        let mut name_to_id = tables::new_ids();
        let mut id_to_name = tables::new_names();
        let mut i: u32 = 1;
        while i <= predefined::LAST_PREDEFINED
            invariant
                1 <= i <= predefined::LAST_PREDEFINED + 1,
                tables::ids_in(name_to_id) == predefined_ids((i - 1) as nat),
                tables::names_in(id_to_name) == predefined_names((i - 1) as nat),
            decreases predefined::LAST_PREDEFINED + 1 - i,
        {
            let name = name_of_predefined(i);
            tables::put_id(&mut name_to_id, name.to_owned(), i);
            tables::put_name(&mut id_to_name, i, name.to_owned());
            i = i + 1;
        }
        proof {
            law_initial_atoms();
        }
        AtomTable { name_to_id, id_to_name, next_id: predefined::LAST_PREDEFINED + 1 }
    }

    /// Interns a name: gives the number it has, or, unless `only_if_exists`, makes
    /// a new atom for it.
    pub fn intern(&mut self, name: &str, only_if_exists: bool) -> (r: Option<u32>)
        ensures
            only_if_exists ==> final(self)@ == old(self)@ && r == old(self)@.id_of(name@),
            !only_if_exists ==> final(self)@ == old(self)@.with(name@) && r == Some(
                old(self)@.interned(name@),
            ),
    {
        match tables::get_id(&self.name_to_id, name) {
            Some(id) => Some(id),
            None => {
                if only_if_exists {
                    return None;
                }
                let id: u32 = self.next_id;
                self.next_id = id.wrapping_add(1);
                tables::put_id(&mut self.name_to_id, name.to_owned(), id);
                tables::put_name(&mut self.id_to_name, id, name.to_owned());
                Some(id)
            },
        }
    }

    /// Interns a name and gives its number.
    pub fn intern_or_create(&mut self, name: &str) -> (r: u32)
        ensures
            final(self)@ == old(self)@.with(name@),
            r == old(self)@.interned(name@),
    {
        match self.intern(name, false) {
            Some(id) => id,
            None => predefined::NONE,
        }
    }

    /// The name of an atom.
    pub fn get_name(&self, id: u32) -> (r: Option<String>)
        ensures
            match self@.name_of(id) {
                Some(n) => r is Some && r->0@ == n,
                None => r is None,
            },
    {
        tables::get_name(&self.id_to_name, id)
    }

    /// The number of a name, without interning it.
    pub fn get_id(&self, name: &str) -> (r: Option<u32>)
        ensures
            r == self@.id_of(name@),
    {
        tables::get_id(&self.name_to_id, name)
    }
}

/// Tells the predefined names apart by length and letters.
spec fn recognise(s: Seq<char>) -> int {
    if s.len() == 3 {
        3
    } else if s.len() == 4 {
        if s[0] == 'A' {
            4
        } else {
            18
        }
    } else if s.len() == 5 {
        21
    } else if s.len() == 6 {
        if s[0] == 'B' {
            5
        } else if s[0] == 'C' {
            8
        } else if s[0] == 'N' {
            62
        } else if s[0] == 'P' {
            20
        } else if s[0] == 'S' {
            31
        } else {
            if s[1] == 'E' {
                58
            } else {
                33
            }
        }
    } else if s.len() == 7 {
        if s[0] == 'I' {
            19
        } else if s[0] == 'P' {
            1
        } else {
            39
        }
    } else if s.len() == 8 {
        if s[3] == 'C' {
            67
        } else if s[3] == 'D' {
            6
        } else if s[3] == 'E' {
            56
        } else if s[3] == 'H' {
            35
        } else if s[3] == 'O' {
            7
        } else if s[3] == 'U' {
            32
        } else {
            17
        }
    } else if s.len() == 9 {
        if s[0] == 'C' {
            61
        } else if s[0] == 'E' {
            46
        } else if s[0] == 'F' {
            if s[1] == 'O' {
                63
            } else {
                65
            }
        } else if s[0] == 'M' {
            if s[1] == 'A' {
                45
            } else {
                43
            }
        } else if s[0] == 'R' {
            22
        } else {
            2
        }
    } else if s.len() == 10 {
        if s[0] == 'C' {
            66
        } else if s[0] == 'N' {
            44
        } else if s[0] == 'P' {
            59
        } else if s[0] == 'Q' {
            57
        } else if s[0] == 'R' {
            60
        } else {
            34
        }
    } else if s.len() == 11 {
        if s[10] == '0' {
            9
        } else if s[10] == '1' {
            10
        } else if s[10] == '2' {
            11
        } else if s[10] == '3' {
            12
        } else if s[10] == '4' {
            13
        } else if s[10] == '5' {
            14
        } else if s[10] == '6' {
            15
        } else if s[10] == '7' {
            16
        } else if s[10] == 'E' {
            64
        } else if s[10] == 'P' {
            30
        } else if s[10] == 'X' {
            49
        } else {
            50
        }
    } else if s.len() == 12 {
        if s[4] == 'B' {
            if s[5] == 'E' {
                25
            } else {
                26
            }
        } else if s[4] == 'C' {
            if s[8] == 'N' {
                37
            } else {
                38
            }
        } else if s[4] == 'G' {
            28
        } else {
            55
        }
    } else if s.len() == 13 {
        if s[0] == 'R' {
            if s[4] == 'C' {
                24
            } else {
                29
            }
        } else if s[0] == 'S' {
            if s[12] == 'X' {
                47
            } else {
                48
            }
        } else {
            if s[3] == 'S' {
                41
            } else {
                42
            }
        }
    } else if s.len() == 15 {
        if s[0] == 'R' {
            27
        } else {
            40
        }
    } else if s.len() == 16 {
        if s[0] == 'R' {
            23
        } else if s[0] == 'S' {
            53
        } else {
            68
        }
    } else if s.len() == 17 {
        if s[0] == 'S' {
            54
        } else {
            36
        }
    } else if s.len() == 18 {
        51
    } else if s.len() == 19 {
        52
    } else {
        0
    }
}

proof fn lemma_recognise(i: int)
    requires
        1 <= i <= predefined::LAST_PREDEFINED,
    ensures
        recognise(predefined_name(i)) == i,
{
    reveal(predefined_name);
    if i == 1 {
        reveal_strlit("PRIMARY");
    } else if i == 2 {
        reveal_strlit("SECONDARY");
    } else if i == 3 {
        reveal_strlit("ARC");
    } else if i == 4 {
        reveal_strlit("ATOM");
    } else if i == 5 {
        reveal_strlit("BITMAP");
    } else if i == 6 {
        reveal_strlit("CARDINAL");
    } else if i == 7 {
        reveal_strlit("COLORMAP");
    } else if i == 8 {
        reveal_strlit("CURSOR");
    } else if i == 9 {
        reveal_strlit("CUT_BUFFER0");
    } else if i == 10 {
        reveal_strlit("CUT_BUFFER1");
    } else if i == 11 {
        reveal_strlit("CUT_BUFFER2");
    } else if i == 12 {
        reveal_strlit("CUT_BUFFER3");
    } else if i == 13 {
        reveal_strlit("CUT_BUFFER4");
    } else if i == 14 {
        reveal_strlit("CUT_BUFFER5");
    } else if i == 15 {
        reveal_strlit("CUT_BUFFER6");
    } else if i == 16 {
        reveal_strlit("CUT_BUFFER7");
    } else if i == 17 {
        reveal_strlit("DRAWABLE");
    } else if i == 18 {
        reveal_strlit("FONT");
    } else if i == 19 {
        reveal_strlit("INTEGER");
    } else if i == 20 {
        reveal_strlit("PIXMAP");
    } else if i == 21 {
        reveal_strlit("POINT");
    } else if i == 22 {
        reveal_strlit("RECTANGLE");
    } else if i == 23 {
        reveal_strlit("RESOURCE_MANAGER");
    } else if i == 24 {
        reveal_strlit("RGB_COLOR_MAP");
    } else if i == 25 {
        reveal_strlit("RGB_BEST_MAP");
    } else if i == 26 {
        reveal_strlit("RGB_BLUE_MAP");
    } else if i == 27 {
        reveal_strlit("RGB_DEFAULT_MAP");
    } else if i == 28 {
        reveal_strlit("RGB_GRAY_MAP");
    } else if i == 29 {
        reveal_strlit("RGB_GREEN_MAP");
    } else if i == 30 {
        reveal_strlit("RGB_RED_MAP");
    } else if i == 31 {
        reveal_strlit("STRING");
    } else if i == 32 {
        reveal_strlit("VISUALID");
    } else if i == 33 {
        reveal_strlit("WINDOW");
    } else if i == 34 {
        reveal_strlit("WM_COMMAND");
    } else if i == 35 {
        reveal_strlit("WM_HINTS");
    } else if i == 36 {
        reveal_strlit("WM_CLIENT_MACHINE");
    } else if i == 37 {
        reveal_strlit("WM_ICON_NAME");
    } else if i == 38 {
        reveal_strlit("WM_ICON_SIZE");
    } else if i == 39 {
        reveal_strlit("WM_NAME");
    } else if i == 40 {
        reveal_strlit("WM_NORMAL_HINTS");
    } else if i == 41 {
        reveal_strlit("WM_SIZE_HINTS");
    } else if i == 42 {
        reveal_strlit("WM_ZOOM_HINTS");
    } else if i == 43 {
        reveal_strlit("MIN_SPACE");
    } else if i == 44 {
        reveal_strlit("NORM_SPACE");
    } else if i == 45 {
        reveal_strlit("MAX_SPACE");
    } else if i == 46 {
        reveal_strlit("END_SPACE");
    } else if i == 47 {
        reveal_strlit("SUPERSCRIPT_X");
    } else if i == 48 {
        reveal_strlit("SUPERSCRIPT_Y");
    } else if i == 49 {
        reveal_strlit("SUBSCRIPT_X");
    } else if i == 50 {
        reveal_strlit("SUBSCRIPT_Y");
    } else if i == 51 {
        reveal_strlit("UNDERLINE_POSITION");
    } else if i == 52 {
        reveal_strlit("UNDERLINE_THICKNESS");
    } else if i == 53 {
        reveal_strlit("STRIKEOUT_ASCENT");
    } else if i == 54 {
        reveal_strlit("STRIKEOUT_DESCENT");
    } else if i == 55 {
        reveal_strlit("ITALIC_ANGLE");
    } else if i == 56 {
        reveal_strlit("X_HEIGHT");
    } else if i == 57 {
        reveal_strlit("QUAD_WIDTH");
    } else if i == 58 {
        reveal_strlit("WEIGHT");
    } else if i == 59 {
        reveal_strlit("POINT_SIZE");
    } else if i == 60 {
        reveal_strlit("RESOLUTION");
    } else if i == 61 {
        reveal_strlit("COPYRIGHT");
    } else if i == 62 {
        reveal_strlit("NOTICE");
    } else if i == 63 {
        reveal_strlit("FONT_NAME");
    } else if i == 64 {
        reveal_strlit("FAMILY_NAME");
    } else if i == 65 {
        reveal_strlit("FULL_NAME");
    } else if i == 66 {
        reveal_strlit("CAP_HEIGHT");
    } else if i == 67 {
        reveal_strlit("WM_CLASS");
    } else {
        reveal_strlit("WM_TRANSIENT_FOR");
    }
}

/// Predefined atoms have different names.
pub proof fn law_predefined_names_differ(i: int, j: int)
    requires
        1 <= i < j <= predefined::LAST_PREDEFINED,
    ensures
        predefined_name(i) != predefined_name(j),
{
    lemma_recognise(i);
    lemma_recognise(j);
}

proof fn lemma_predefined(n: nat)
    requires
        n <= predefined::LAST_PREDEFINED,
    ensures
        forall|id: u32| predefined_names(n).dom().contains(id) <==> 1 <= id <= n,
        forall|id: u32| 1 <= id <= n ==> predefined_names(n)[id] == predefined_name(id as int),
        forall|name: Seq<char>| #[trigger]
            predefined_ids(n).dom().contains(name) ==> 1 <= predefined_ids(n)[name] <= n
                && predefined_name(predefined_ids(n)[name] as int) == name,
        forall|i: int|
            1 <= i <= n ==> predefined_ids(n).dom().contains(#[trigger] predefined_name(i))
                && predefined_ids(n)[predefined_name(i)] == i,
    decreases n,
{
    if n > 0 {
        lemma_predefined((n - 1) as nat);
        assert forall|i: int| 1 <= i < n implies #[trigger] predefined_name(i) != predefined_name(
            n as int,
        ) by {
            law_predefined_names_differ(i, n as int);
        }
        let (names, ids) = (predefined_names(n), predefined_ids(n));
        let (names0, ids0) = (predefined_names((n - 1) as nat), predefined_ids((n - 1) as nat));
        assert(names == names0.insert(n as u32, predefined_name(n as int)));
        assert(ids == ids0.insert(predefined_name(n as int), n as u32));
        assert forall|id: u32| 1 <= id <= n implies names[id] == predefined_name(id as int) by {
            if id < n {
                assert(names0.dom().contains(id));
            }
        }
        assert forall|name: Seq<char>| #[trigger] ids.dom().contains(name) implies 1 <= ids[name]
            <= n && predefined_name(ids[name] as int) == name by {
            if name != predefined_name(n as int) {
                assert(ids0.dom().contains(name));
            }
        }
    }
}

/// The table every server starts with is well formed.
pub proof fn law_initial_atoms()
    ensures
        initial_atoms().wf(),
{
    lemma_predefined(predefined::LAST_PREDEFINED as nat);
    let m = initial_atoms();
    assert forall|id: u32| #[trigger] m.names.dom().contains(id) implies m.ids.dom().contains(
        m.names[id],
    ) && m.ids[m.names[id]] == id && 1 <= id < m.next_id by {
        assert(m.names[id] == predefined_name(id as int));
    }
}

/// Interning keeps the table well formed as long as numbers remain.
pub proof fn law_intern_keeps_wf(m: AtomModel, name: Seq<char>)
    requires
        m.wf(),
        m.next_id < u32::MAX,
    ensures
        m.with(name).wf(),
{
    let after = m.with(name);
    if !m.ids.dom().contains(name) {
        assert(!m.names.dom().contains(m.next_id));
        assert forall|n: Seq<char>| #[trigger] after.ids.dom().contains(n) implies after.names.dom().contains(
            after.ids[n]) && after.names[after.ids[n]] == n by {
            if n != name {
                assert(m.ids.dom().contains(n));
            }
        }
        assert forall|id: u32| #[trigger] after.names.dom().contains(id) implies after.ids.dom().contains(
            after.names[id]) && after.ids[after.names[id]] == id && 1 <= id < after.next_id by {
            if id != m.next_id {
                assert(m.names.dom().contains(id));
            }
        }
        assert forall|i: int| 1 <= i <= predefined::LAST_PREDEFINED implies after.ids.dom().contains(
            #[trigger] predefined_name(i)) && after.ids[predefined_name(i)] == i by {
            assert(m.ids.dom().contains(predefined_name(i)));
        }
    }
}

/// Interning a name a second time changes nothing and gives the same number.
pub proof fn law_intern_twice(m: AtomModel, name: Seq<char>)
    ensures
        m.with(name).with(name) == m.with(name),
        m.with(name).interned(name) == m.interned(name),
{
}

/// The number that interning gives leads back to the name.
pub proof fn law_name_of_interned(m: AtomModel, name: Seq<char>)
    requires
        m.wf(),
    ensures
        m.with(name).name_of(m.interned(name)) == Some(name),
        m.with(name).id_of(name) == Some(m.interned(name)),
{
}

/// Different names get different numbers.
pub proof fn law_distinct_names_distinct_atoms(m: AtomModel, a: Seq<char>, b: Seq<char>)
    requires
        m.wf(),
        m.next_id < u32::MAX,
        a != b,
    ensures
        m.interned(a) != m.with(a).interned(b),
{
    if m.ids.dom().contains(a) {
        assert(m.names.dom().contains(m.ids[a]));
    }
    if m.ids.dom().contains(b) {
        assert(m.names.dom().contains(m.ids[b]));
    }
}

/// Interning leaves the number of every name that has one as it is.
pub proof fn law_intern_keeps_others(m: AtomModel, name: Seq<char>, other: Seq<char>)
    requires
        m.ids.dom().contains(other),
    ensures
        m.with(name).id_of(other) == m.id_of(other),
{
}

} // verus!
