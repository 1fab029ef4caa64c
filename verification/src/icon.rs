//! Well-known cursor icon identities, their protocol names, and the
//! mapping from vector-theme cursor ids to icons.

use vstd::prelude::*;

verus! {

/// The cursor icon identities the manager arbitrates between.
#[derive(Debug, Clone, Copy, PartialEq, Eq, Structural, Hash)]
pub enum CursorIcon {
    Default,
    ContextMenu,
    Help,
    Pointer,
    Progress,
    Wait,
    Cell,
    Crosshair,
    Text,
    VerticalText,
    Alias,
    Copy,
    NoDrop,
    NotAllowed,
    Grab,
    Grabbing,
    AllScroll,
    WResize,
    NResize,
    NeResize,
    NwResize,
    SwResize,
    SeResize,
    ZoomIn,
    ZoomOut,
}

/// The primary protocol name of an icon.
pub open spec fn spec_icon_name(i: CursorIcon) -> Seq<char> {
    match i {
        CursorIcon::Default => "default"@,
        CursorIcon::ContextMenu => "context-menu"@,
        CursorIcon::Help => "help"@,
        CursorIcon::Pointer => "pointer"@,
        CursorIcon::Progress => "progress"@,
        CursorIcon::Wait => "wait"@,
        CursorIcon::Cell => "cell"@,
        CursorIcon::Crosshair => "crosshair"@,
        CursorIcon::Text => "text"@,
        CursorIcon::VerticalText => "vertical-text"@,
        CursorIcon::Alias => "alias"@,
        CursorIcon::Copy => "copy"@,
        CursorIcon::NoDrop => "no-drop"@,
        CursorIcon::NotAllowed => "not-allowed"@,
        CursorIcon::Grab => "grab"@,
        CursorIcon::Grabbing => "grabbing"@,
        CursorIcon::AllScroll => "all-scroll"@,
        CursorIcon::WResize => "w-resize"@,
        CursorIcon::NResize => "n-resize"@,
        CursorIcon::NeResize => "ne-resize"@,
        CursorIcon::NwResize => "nw-resize"@,
        CursorIcon::SwResize => "sw-resize"@,
        CursorIcon::SeResize => "se-resize"@,
        CursorIcon::ZoomIn => "zoom-in"@,
        CursorIcon::ZoomOut => "zoom-out"@,
    }
}

impl CursorIcon {
    /// The primary protocol name of the icon.
    pub fn name(&self) -> (r: &'static str)
        ensures
            r@ == spec_icon_name(*self),
    {
        match self {
            CursorIcon::Default => "default",
            CursorIcon::ContextMenu => "context-menu",
            CursorIcon::Help => "help",
            CursorIcon::Pointer => "pointer",
            CursorIcon::Progress => "progress",
            CursorIcon::Wait => "wait",
            CursorIcon::Cell => "cell",
            CursorIcon::Crosshair => "crosshair",
            CursorIcon::Text => "text",
            CursorIcon::VerticalText => "vertical-text",
            CursorIcon::Alias => "alias",
            CursorIcon::Copy => "copy",
            CursorIcon::NoDrop => "no-drop",
            CursorIcon::NotAllowed => "not-allowed",
            CursorIcon::Grab => "grab",
            CursorIcon::Grabbing => "grabbing",
            CursorIcon::AllScroll => "all-scroll",
            CursorIcon::WResize => "w-resize",
            CursorIcon::NResize => "n-resize",
            CursorIcon::NeResize => "ne-resize",
            CursorIcon::NwResize => "nw-resize",
            CursorIcon::SwResize => "sw-resize",
            CursorIcon::SeResize => "se-resize",
            CursorIcon::ZoomIn => "zoom-in",
            CursorIcon::ZoomOut => "zoom-out",
        }
    }

    /// Documented alternate names of the icon in legacy themes, tried in
    /// order after the primary name.
    pub fn alt_names(&self) -> (r: Vec<&'static str>)
        ensures
            alt_names_view(r@) == spec_alt_names(*self),
    {
        let mut v: Vec<&'static str> = Vec::new();
        match self {
            CursorIcon::Default => {
                v.push("left_ptr");
                v.push("arrow");
                v.push("top_left_arrow");
            },
            CursorIcon::Pointer => {
                v.push("hand2");
                v.push("hand");
                v.push("hand1");
                v.push("pointing_hand");
            },
            CursorIcon::Wait => {
                v.push("watch");
            },
            CursorIcon::Progress => {
                v.push("left_ptr_watch");
            },
            CursorIcon::Text => {
                v.push("xterm");
                v.push("ibeam");
            },
            CursorIcon::Crosshair => {
                v.push("cross");
            },
            CursorIcon::Help => {
                v.push("question_arrow");
                v.push("whats_this");
            },
            CursorIcon::Grab => {
                v.push("openhand");
            },
            CursorIcon::Grabbing => {
                v.push("closedhand");
            },
            CursorIcon::NotAllowed => {
                v.push("crossed_circle");
            },
            CursorIcon::NoDrop => {
                v.push("circle");
            },
            CursorIcon::AllScroll => {
                v.push("fleur");
            },
            CursorIcon::WResize => {
                v.push("sb_h_double_arrow");
            },
            CursorIcon::NResize => {
                v.push("sb_v_double_arrow");
            },
            CursorIcon::NeResize => {
                v.push("top_right_corner");
            },
            CursorIcon::NwResize => {
                v.push("top_left_corner");
            },
            CursorIcon::SwResize => {
                v.push("bottom_left_corner");
            },
            CursorIcon::SeResize => {
                v.push("bottom_right_corner");
            },
            _ => {},
        }
        proof {
            assert(alt_names_view(v@) =~= spec_alt_names(*self));
        }
        v
    }
}

/// The texts of a list of names.
pub open spec fn alt_names_view(s: Seq<&'static str>) -> Seq<Seq<char>> {
    s.map_values(|t: &'static str| t@)
}

/// The documented alternate names of each icon, in retry order.
pub open spec fn spec_alt_names(i: CursorIcon) -> Seq<Seq<char>> {
    match i {
        CursorIcon::Default => seq!["left_ptr"@, "arrow"@, "top_left_arrow"@],
        CursorIcon::Pointer => seq!["hand2"@, "hand"@, "hand1"@, "pointing_hand"@],
        CursorIcon::Wait => seq!["watch"@],
        CursorIcon::Progress => seq!["left_ptr_watch"@],
        CursorIcon::Text => seq!["xterm"@, "ibeam"@],
        CursorIcon::Crosshair => seq!["cross"@],
        CursorIcon::Help => seq!["question_arrow"@, "whats_this"@],
        CursorIcon::Grab => seq!["openhand"@],
        CursorIcon::Grabbing => seq!["closedhand"@],
        CursorIcon::NotAllowed => seq!["crossed_circle"@],
        CursorIcon::NoDrop => seq!["circle"@],
        CursorIcon::AllScroll => seq!["fleur"@],
        CursorIcon::WResize => seq!["sb_h_double_arrow"@],
        CursorIcon::NResize => seq!["sb_v_double_arrow"@],
        CursorIcon::NeResize => seq!["top_right_corner"@],
        CursorIcon::NwResize => seq!["top_left_corner"@],
        CursorIcon::SwResize => seq!["bottom_left_corner"@],
        CursorIcon::SeResize => seq!["bottom_right_corner"@],
        _ => Seq::empty(),
    }
}

/// What the standard library's lowercase conversion yields; a function of
/// the characters alone.
pub uninterp spec fn lower_of(s: Seq<char>) -> Seq<char>;

/// Relies on `str::to_lowercase`: the text with every character
/// lowercased; the result depends on the characters alone.
#[verifier::external_body]
pub(crate) fn lowercase(s: &str) -> (r: String)
    ensures
        r@ == lower_of(s@),
{
    s.to_lowercase()
}

/// The icon a vector-theme cursor id stands for, by its lowercased id:
/// the fixed alias table of well-known cursor names.  Ids matching no
/// entry take part in direct-id selection only.
pub open spec fn icon_for(s: Seq<char>) -> Option<CursorIcon> {
    if s == "default"@ || s == "left_ptr"@ {
        Some(CursorIcon::Default)
    } else if s == "move"@ || s == "fleur"@ {
        Some(CursorIcon::AllScroll)
    } else if s == "text"@ || s == "xterm"@ || s == "ibeam"@ {
        Some(CursorIcon::Text)
    } else if s == "wait"@ || s == "watch"@ {
        Some(CursorIcon::Wait)
    } else if s == "progress"@ || s == "left_ptr_watch"@ {
        Some(CursorIcon::Progress)
    } else if s == "crosshair"@ || s == "cross_reverse"@ {
        Some(CursorIcon::Crosshair)
    } else if s == "nwse-resize"@ || s == "top_left_corner"@ {
        Some(CursorIcon::NwResize)
    } else if s == "pointer"@ || s == "hand"@ || s == "hand1"@ || s == "hand2"@ {
        Some(CursorIcon::Pointer)
    } else if s == "grab"@ || s == "openhand"@ {
        Some(CursorIcon::Grab)
    } else if s == "grabbing"@ || s == "closedhand"@ {
        Some(CursorIcon::Grabbing)
    } else if s == "not-allowed"@ || s == "circle"@ || s == "dnd-none"@ {
        Some(CursorIcon::NotAllowed)
    } else if s == "help"@ || s == "question_arrow"@ {
        Some(CursorIcon::Help)
    } else if s == "copy"@ {
        Some(CursorIcon::Copy)
    } else if s == "alias"@ {
        Some(CursorIcon::Alias)
    } else if s == "cell"@ {
        Some(CursorIcon::Cell)
    } else if s == "vertical-text"@ {
        Some(CursorIcon::VerticalText)
    } else if s == "context-menu"@ {
        Some(CursorIcon::ContextMenu)
    } else if s == "no-drop"@ {
        Some(CursorIcon::NoDrop)
    } else if s == "col-resize"@ || s == "sb_h_double_arrow"@ {
        Some(CursorIcon::WResize)
    } else if s == "row-resize"@ || s == "sb_v_double_arrow"@ {
        Some(CursorIcon::NResize)
    } else if s == "ew-resize"@ {
        Some(CursorIcon::WResize)
    } else if s == "ns-resize"@ {
        Some(CursorIcon::NResize)
    } else if s == "nesw-resize"@ || s == "top_right_corner"@ {
        Some(CursorIcon::NeResize)
    } else if s == "swne-resize"@ || s == "bottom_left_corner"@ {
        Some(CursorIcon::SwResize)
    } else if s == "sene-resize"@ || s == "bottom_right_corner"@ {
        Some(CursorIcon::SeResize)
    } else if s == "zoom-in"@ {
        Some(CursorIcon::ZoomIn)
    } else if s == "zoom-out"@ {
        Some(CursorIcon::ZoomOut)
    } else {
        None
    }
}

/// Whether two texts read the same.
fn eq_str(a: &str, b: &str) -> (r: bool)
    ensures
        r == (a@ == b@),
{
    a.to_owned() == b.to_owned()
}

/// The icon a lowercased cursor id stands for; see [`icon_for`].
pub fn icon_for_name(s: &str) -> (r: Option<CursorIcon>)
    ensures
        r == icon_for(s@),
{
    if eq_str(s, "default") || eq_str(s, "left_ptr") {
        Some(CursorIcon::Default)
    } else if eq_str(s, "move") || eq_str(s, "fleur") {
        Some(CursorIcon::AllScroll)
    } else if eq_str(s, "text") || eq_str(s, "xterm") || eq_str(s, "ibeam") {
        Some(CursorIcon::Text)
    } else if eq_str(s, "wait") || eq_str(s, "watch") {
        Some(CursorIcon::Wait)
    } else if eq_str(s, "progress") || eq_str(s, "left_ptr_watch") {
        Some(CursorIcon::Progress)
    } else if eq_str(s, "crosshair") || eq_str(s, "cross_reverse") {
        Some(CursorIcon::Crosshair)
    } else if eq_str(s, "nwse-resize") || eq_str(s, "top_left_corner") {
        Some(CursorIcon::NwResize)
    } else if eq_str(s, "pointer") || eq_str(s, "hand") || eq_str(s, "hand1") || eq_str(
        s,
        "hand2",
    ) {
        Some(CursorIcon::Pointer)
    } else if eq_str(s, "grab") || eq_str(s, "openhand") {
        Some(CursorIcon::Grab)
    } else if eq_str(s, "grabbing") || eq_str(s, "closedhand") {
        Some(CursorIcon::Grabbing)
    } else if eq_str(s, "not-allowed") || eq_str(s, "circle") || eq_str(s, "dnd-none") {
        Some(CursorIcon::NotAllowed)
    } else if eq_str(s, "help") || eq_str(s, "question_arrow") {
        Some(CursorIcon::Help)
    } else if eq_str(s, "copy") {
        Some(CursorIcon::Copy)
    } else if eq_str(s, "alias") {
        Some(CursorIcon::Alias)
    } else if eq_str(s, "cell") {
        Some(CursorIcon::Cell)
    } else if eq_str(s, "vertical-text") {
        Some(CursorIcon::VerticalText)
    } else if eq_str(s, "context-menu") {
        Some(CursorIcon::ContextMenu)
    } else if eq_str(s, "no-drop") {
        Some(CursorIcon::NoDrop)
    } else if eq_str(s, "col-resize") || eq_str(s, "sb_h_double_arrow") {
        Some(CursorIcon::WResize)
    } else if eq_str(s, "row-resize") || eq_str(s, "sb_v_double_arrow") {
        Some(CursorIcon::NResize)
    } else if eq_str(s, "ew-resize") {
        Some(CursorIcon::WResize)
    } else if eq_str(s, "ns-resize") {
        Some(CursorIcon::NResize)
    } else if eq_str(s, "nesw-resize") || eq_str(s, "top_right_corner") {
        Some(CursorIcon::NeResize)
    } else if eq_str(s, "swne-resize") || eq_str(s, "bottom_left_corner") {
        Some(CursorIcon::SwResize)
    } else if eq_str(s, "sene-resize") || eq_str(s, "bottom_right_corner") {
        Some(CursorIcon::SeResize)
    } else if eq_str(s, "zoom-in") {
        Some(CursorIcon::ZoomIn)
    } else if eq_str(s, "zoom-out") {
        Some(CursorIcon::ZoomOut)
    } else {
        None
    }
}

} // verus!
