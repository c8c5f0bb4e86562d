//! What is drawn on the 320 x 240 display: the colour bars of the start, the level meter and the
//! status line.

use crate::text;
use vstd::prelude::*;
use vstd::string::*;

verus! {

pub const DISPLAY_WIDTH: u32 = 320;

pub const DISPLAY_HEIGHT: u32 = 240;

/// Left end of the status text.
pub const TEXT_X: i32 = 10;

/// Baseline of the status text.
pub const TEXT_Y: i32 = 225;

#[derive(Clone, Copy, Debug, PartialEq, Eq, Structural)]
pub enum Color {
    Black,
    Red,
    Green,
    Blue,
    White,
}

/// A rectangle given by its upper left corner and its size in pixels.
#[derive(Clone, Copy, Debug, PartialEq, Eq, Structural)]
pub struct Area {
    pub x: i32,
    pub y: i32,
    pub width: u32,
    pub height: u32,
}

impl Area {
    /// The pixel in column `px` and row `py` belongs to the rectangle.
    pub open spec fn covers(self, px: int, py: int) -> bool {
        &&& self.x <= px < self.x + self.width
        &&& self.y <= py < self.y + self.height
    }
}

/// The pixel in column `px` and row `py` belongs to the display.
pub open spec fn on_display(px: int, py: int) -> bool {
    0 <= px < DISPLAY_WIDTH && 0 <= py < DISPLAY_HEIGHT
}

/// A rectangle to be filled with one colour.
#[derive(Clone, Copy, Debug, PartialEq, Eq, Structural)]
pub struct Fill {
    pub color: Color,
    pub area: Area,
}

/// A line of status text, in white. With a background, the status area is filled with it first;
/// without one, the text is drawn over what is there.
#[derive(Debug)]
pub struct Status {
    pub background: Option<Color>,
    pub text: String,
}

impl Status {
    pub fn new(background: Option<Color>, text: &str) -> (s: Status)
        ensures
            s.background == background,
            s.text@ == text@,
    {
        Status { background, text: String::from_str(text) }
    }
}

/// The strip that holds the level meter.
#[verifier::allow_in_spec]
pub fn meter_area() -> Area
    returns
        (Area { x: 0, y: 180, width: 320, height: 20 }),
{
    Area { x: 0, y: 180, width: 320, height: 20 }
}

/// The strip that holds the status text.
#[verifier::allow_in_spec]
pub fn status_area() -> Area
    returns
        (Area { x: 0, y: 205, width: 320, height: 35 }),
{
    Area { x: 0, y: 205, width: 320, height: 35 }
}

/// The bar of the level meter at a width in pixels.
#[verifier::allow_in_spec]
pub fn meter_bar(width: u32) -> Area
    returns
        (Area { x: 0, y: 180, width, height: 20 }),
{
    Area { x: 0, y: 180, width, height: 20 }
}

/// The three horizontal bars shown at the start, by which a wrong colour order is seen at a
/// glance: red, green and blue from the top.
#[verifier::allow_in_spec]
pub fn color_bars() -> [Fill; 3]
    returns
        [
            (Fill { color: Color::Red, area: Area { x: 0, y: 0, width: 320, height: 80 } }),
            (Fill { color: Color::Green, area: Area { x: 0, y: 80, width: 320, height: 80 } }),
            (Fill { color: Color::Blue, area: Area { x: 0, y: 160, width: 320, height: 80 } }),
        ],
{
    [
        Fill { color: Color::Red, area: Area { x: 0, y: 0, width: 320, height: 80 } },
        Fill { color: Color::Green, area: Area { x: 0, y: 80, width: 320, height: 80 } },
        Fill { color: Color::Blue, area: Area { x: 0, y: 160, width: 320, height: 80 } },
    ]
}

/// Every pixel of the display belongs to exactly one colour bar, and no bar leaves the display.
pub proof fn color_bars_tile_display(px: int, py: int)
    ensures
        on_display(px, py) <==> exists|i: int|
            0 <= i < 3 && #[trigger] color_bars()@[i].area.covers(px, py),
        forall|i: int, j: int|
            0 <= i < 3 && 0 <= j < 3 && #[trigger] color_bars()@[i].area.covers(px, py)
                && #[trigger] color_bars()@[j].area.covers(px, py) ==> i == j,
{
    let bars = color_bars()@;
    if on_display(px, py) {
        if py < 80 {
            assert(bars[0].area.covers(px, py));
        } else if py < 160 {
            assert(bars[1].area.covers(px, py));
        } else {
            assert(bars[2].area.covers(px, py));
        }
    }
}

/// The meter and the status text stay on the display and never touch each other's pixels,
/// whatever the level, as long as the bar is no wider than the meter.
pub proof fn meter_and_status_are_apart(width: u32, px: int, py: int)
    requires
        width <= meter_area().width,
    ensures
        meter_bar(width).covers(px, py) ==> meter_area().covers(px, py),
        meter_area().covers(px, py) ==> on_display(px, py) && !status_area().covers(px, py),
        status_area().covers(px, py) ==> on_display(px, py),
        status_area().covers(TEXT_X as int, TEXT_Y as int),
{
}

/// The text that asks for the network's name.
pub fn missing_ssid_status() -> (s: Status)
    ensures
        s.background is None,
        s.text@ == "cfg.toml niSSID wo kinyuu"@,
{
    Status::new(None, "cfg.toml niSSID wo kinyuu")
}

/// The text shown while the network is being joined.
pub fn connecting_status() -> (s: Status)
    ensures
        s.background is None,
        s.text@ == "WiFi connecting..."@,
{
    Status::new(None, "WiFi connecting...")
}

/// The dotted notation of an IPv4 address.
pub open spec fn dotted(ip: Seq<u8>) -> Seq<char> {
    text::decimal(ip[0] as nat) + "."@ + text::decimal(ip[1] as nat) + "."@ + text::decimal(
        ip[2] as nat,
    ) + "."@ + text::decimal(ip[3] as nat)
}

/// The text that shows the device's address once the network has been joined.
pub fn address_status(ip: [u8; 4]) -> (s: Status)
    ensures
        s.background == Some(Color::Blue),
        s.text@ == "IP: "@ + dotted(ip@),
{
    let mut t = String::from_str("IP: ");
    text::push_decimal(&mut t, ip[0] as u128);
    t.append(".");
    text::push_decimal(&mut t, ip[1] as u128);
    t.append(".");
    text::push_decimal(&mut t, ip[2] as u128);
    t.append(".");
    text::push_decimal(&mut t, ip[3] as u128);
    assert(t@ =~= "IP: "@ + dotted(ip@));
    Status { background: Some(Color::Blue), text: t }
}

/// The text shown while a recording is being made.
pub fn recording_status() -> (s: Status)
    ensures
        s.background == Some(Color::Red),
        s.text@ == "REC... release to send"@,
{
    Status::new(Some(Color::Red), "REC... release to send")
}

/// The text shown when a recording was dropped for its length.
pub fn canceled_status() -> (s: Status)
    ensures
        s.background == Some(Color::Blue),
        s.text@ == "Too short - canceled"@,
{
    Status::new(Some(Color::Blue), "Too short - canceled")
}

/// The text shown while a recording is on its way.
pub fn sending_status() -> (s: Status)
    ensures
        s.background == Some(Color::Blue),
        s.text@ == "Sending..."@,
{
    Status::new(Some(Color::Blue), "Sending...")
}

/// The rows of the start screen: red above row 80, green from there above row 160, blue below,
/// each over the full width of 320 pixels.
pub proof fn color_bars_row_by_row(px: int, py: int, i: int)
    requires
        0 <= px < 320,
        0 <= py < 240,
        0 <= i < 3,
        ({
            let a = color_bars()@[i].area;
            a.x <= px < a.x + a.width && a.y <= py < a.y + a.height
        }),
    ensures
        color_bars()@[i].color is Red <==> py < 80,
        color_bars()@[i].color is Green <==> 80 <= py < 160,
        color_bars()@[i].color is Blue <==> 160 <= py,
{
}

/// The bar of the meter starts at the left edge, is as wide as asked, and fills the meter's rows
/// 180 to 199, whatever its width.
pub proof fn meter_bar_is_as_wide_as_asked(width: u32)
    ensures
        meter_bar(width).x == 0,
        meter_bar(width).y == 180,
        meter_bar(width).width == width,
        meter_bar(width).height == 20,
        meter_bar(320) == meter_area(),
{
}

/// The status strip is the bottom of the display, 35 rows high and as wide as the display; its
/// text starts 10 pixels from the left, 15 rows above the bottom.
pub proof fn status_strip_is_at_the_bottom()
    ensures
        status_area().x == 0,
        status_area().width == DISPLAY_WIDTH,
        status_area().height == 35,
        status_area().y + status_area().height == DISPLAY_HEIGHT,
        TEXT_X == 10,
        TEXT_Y + 15 == DISPLAY_HEIGHT,
        DISPLAY_WIDTH == 320,
        DISPLAY_HEIGHT == 240,
{
}

/// An address is shown as its four numbers in order, each in decimal, with a dot between two: cut
/// at the dots, the text gives the numbers back.
pub proof fn dotted_gives_numbers_back(ip: Seq<u8>)
    requires
        ip.len() == 4,
    ensures
        ({
            let t = dotted(ip);
            let a = text::decimal(ip[0] as nat).len() as int;
            let b = a + 1 + text::decimal(ip[1] as nat).len() as int;
            let c = b + 1 + text::decimal(ip[2] as nat).len() as int;
            &&& t.len() == c + 1 + text::decimal(ip[3] as nat).len()
            &&& t[a] == '.' && t[b] == '.' && t[c] == '.'
            &&& t.subrange(0, a) == text::decimal(ip[0] as nat)
            &&& t.subrange(a + 1, b) == text::decimal(ip[1] as nat)
            &&& t.subrange(b + 1, c) == text::decimal(ip[2] as nat)
            &&& t.subrange(c + 1, t.len() as int) == text::decimal(ip[3] as nat)
            &&& forall|i: int|
                0 <= i < t.len() && i != a && i != b && i != c ==> '0' <= #[trigger] t[i] <= '9'
        }),
{
    reveal_strlit(".");
    let t = dotted(ip);
    let d0 = text::decimal(ip[0] as nat);
    let d1 = text::decimal(ip[1] as nat);
    let d2 = text::decimal(ip[2] as nat);
    let d3 = text::decimal(ip[3] as nat);
    let a = d0.len() as int;
    let b = a + 1 + d1.len();
    let c = b + 1 + d2.len();
    text::decimal_has_the_digit_of_each_place(ip[0] as nat);
    text::decimal_has_the_digit_of_each_place(ip[1] as nat);
    text::decimal_has_the_digit_of_each_place(ip[2] as nat);
    text::decimal_has_the_digit_of_each_place(ip[3] as nat);
    assert(t.subrange(0, a) =~= d0);
    assert(t.subrange(a + 1, b) =~= d1);
    assert(t.subrange(b + 1, c) =~= d2);
    assert(t.subrange(c + 1, t.len() as int) =~= d3);
    assert forall|i: int| 0 <= i < t.len() && i != a && i != b && i != c implies '0'
        <= #[trigger] t[i] <= '9' by {
        if i < a {
            assert(t[i] == d0[i]);
        } else if i < b {
            assert(t[i] == d1[i - a - 1]);
        } else if i < c {
            assert(t[i] == d2[i - b - 1]);
        } else {
            assert(t[i] == d3[i - c - 1]);
        }
    }
}

} // verus!
