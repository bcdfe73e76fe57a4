//! Survey stations and the passage dimensions measured at them.
use vstd::prelude::*;
use crate::data::SurveyData;
use crate::point::Point;

verus! {

/// Set on a station that lies on the surface.
pub const FLAG_SURFACE: u32 = 0x01;
/// Set on a station that lies underground.
pub const FLAG_UNDERGROUND: u32 = 0x02;
/// Set on a station that is a cave entrance.
pub const FLAG_ENTRANCE: u32 = 0x04;
/// Set on a station that is exported from its survey.
pub const FLAG_EXPORTED: u32 = 0x08;
/// Set on a station whose position is fixed.
pub const FLAG_FIXED: u32 = 0x10;
/// Set on a station without a name of its own.
pub const FLAG_ANONYMOUS: u32 = 0x20;
/// Set on a station that lies on a passage wall.
pub const FLAG_WALL: u32 = 0x40;

/// A raw passage-dimension reading: negative values mean "not measured".
pub open spec fn reading_spec(v: i32) -> Option<i32> {
    if v < 0 {
        None
    } else {
        Some(v)
    }
}

fn reading(v: i32) -> (r: Option<i32>)
    ensures
        r == reading_spec(v),
{
    if v < 0 {
        None
    } else {
        Some(v)
    }
}

/// LRUD: Left, Right, Up, Down.
/// These are the distances from a station to the walls of a cave passage, in
/// centimetres. An absent reading was not measured.
#[derive(Debug, Clone, Copy, PartialEq, Eq, Structural)]
pub struct LRUD {
    pub left: Option<i32>,
    pub right: Option<i32>,
    pub up: Option<i32>,
    pub down: Option<i32>,
}

/// The passage dimensions that the raw readings `l`, `r`, `u`, `d` stand for.
pub open spec fn lrud_spec(l: i32, r: i32, u: i32, d: i32) -> LRUD {
    LRUD { left: reading_spec(l), right: reading_spec(r), up: reading_spec(u), down: reading_spec(d) }
}

impl Default for LRUD {
    /// No reading present.
    fn default() -> (r: Self)
        ensures
            r == (LRUD { left: None, right: None, up: None, down: None }),
    {
        LRUD { left: None, right: None, up: None, down: None }
    }
}

impl LRUD {
    /// The dimensions given by the raw readings; a negative reading is absent.
    pub fn new(left: i32, right: i32, up: i32, down: i32) -> (r: Self)
        ensures
            r == lrud_spec(left, right, up, down),
    {
        let mut lrud = LRUD::default();
        lrud.update(left, right, up, down);
        lrud
    }

    /// Replace all four readings; a negative reading becomes absent, whatever
    /// was held before.
    pub fn update(&mut self, left: i32, right: i32, up: i32, down: i32)
        ensures
            *final(self) == lrud_spec(left, right, up, down),
    {
        self.left = reading(left);
        self.right = reading(right);
        self.up = reading(up);
        self.down = reading(down);
    }
}

/// A survey station: a named point of the network.
#[derive(Debug, Clone)]
pub struct Station {
    pub label: String,
    pub coords: Point,
    /// The station's node in the survey graph.
    pub index: usize,
    pub lrud: LRUD,
    pub surface: bool,
    pub underground: bool,
    pub entrance: bool,
    pub exported: bool,
    pub fixed: bool,
    pub anonymous: bool,
    pub wall: bool,
}

/// Whether `bit` is set in `flags`.
pub open spec fn has_flag(flags: u32, bit: u32) -> bool {
    flags & bit != 0
}

/// A fresh station: no flags and no passage dimensions.
pub open spec fn station_spec(label: String, coords: Point, index: usize) -> Station {
    Station {
        label,
        coords,
        index,
        lrud: LRUD { left: None, right: None, up: None, down: None },
        surface: false,
        underground: false,
        entrance: false,
        exported: false,
        fixed: false,
        anonymous: false,
        wall: false,
    }
}

/// `st` with each flag that `flags` holds switched on; flags already on stay on.
pub open spec fn flagged_spec(st: Station, flags: u32) -> Station {
    Station {
        surface: st.surface || has_flag(flags, FLAG_SURFACE),
        underground: st.underground || has_flag(flags, FLAG_UNDERGROUND),
        entrance: st.entrance || has_flag(flags, FLAG_ENTRANCE),
        exported: st.exported || has_flag(flags, FLAG_EXPORTED),
        fixed: st.fixed || has_flag(flags, FLAG_FIXED),
        anonymous: st.anonymous || has_flag(flags, FLAG_ANONYMOUS),
        wall: st.wall || has_flag(flags, FLAG_WALL),
        ..st
    }
}

impl Station {
    /// A station with no flags set and no passage dimensions.
    pub fn new(label: String, coords: Point, index: usize) -> (r: Self)
        ensures
            r == station_spec(label, coords, index),
    {
        Station {
            label,
            coords,
            index,
            lrud: LRUD::default(),
            surface: false,
            underground: false,
            entrance: false,
            exported: false,
            fixed: false,
            anonymous: false,
            wall: false,
        }
    }

    /// Switch on each flag whose bit is set in `flags`. Flags are never
    /// switched off, and the label is left as it is.
    pub fn set_flags(&mut self, flags: u32)
        ensures
            *final(self) == flagged_spec(*old(self), flags),
    {
        if flags & FLAG_SURFACE != 0 {
            self.surface = true;
        }
        if flags & FLAG_UNDERGROUND != 0 {
            self.underground = true;
        }
        if flags & FLAG_ENTRANCE != 0 {
            self.entrance = true;
        }
        if flags & FLAG_EXPORTED != 0 {
            self.exported = true;
        }
        if flags & FLAG_FIXED != 0 {
            self.fixed = true;
        }
        if flags & FLAG_ANONYMOUS != 0 {
            self.anonymous = true;
        }
        if flags & FLAG_WALL != 0 {
            self.wall = true;
        }
    }
}

/// The registry of stations and their graph, under its other name.
pub type StationManager = SurveyData;

} // verus!
