//! The screen/input automation dispatcher: argument validation, coordinate
//! scaling between the logical (API) and the physical resolution, the
//! automation command lines for each action, pointer-position parsing, and
//! screenshot planning and encoding.
use vstd::prelude::*;
use crate::base::str_opt;
use crate::base::ToolError;
use crate::base::ToolResult;
use crate::text::all_digits;
use crate::text::chars_to_string;
use crate::text::dec_digits;
use crate::text::dec_digits_signed;
use crate::text::dec_val;
use crate::text::find_sub;
use crate::text::first_hit;
use crate::text::has_match_from;
use crate::text::lemma_first_hit_unique;
use crate::text::lemma_line_split_first;
use crate::text::line_split;
use crate::text::matches_at;
use crate::text::parse_u32;
use crate::text::push_chars;
use crate::text::push_dec_u64;
use crate::text::push_str_chars;
use crate::text::str_to_chars;
use crate::text::subrange_chars;

verus! {

/// Delay between simulated keystrokes, in milliseconds.
pub const TYPING_DELAY_MS: u32 = 12;

/// Number of characters typed per automation invocation.
pub const TYPING_GROUP_SIZE: usize = 50;

/// Settle delay before the screenshot that follows a display-mutating
/// action, in milliseconds.
pub const SCREENSHOT_DELAY_MS: u64 = 2000;

/// Directory where screenshots are written.
pub open spec fn output_dir() -> Seq<char> {
    "/tmp/outputs"@
}

/// The actions the dispatcher understands.
#[derive(Clone, Copy, PartialEq, Eq, Structural, Debug)]
pub enum ComputerAction {
    /// Send a key sequence.
    Key,
    /// Type text, in bounded chunks.
    Type,
    /// Move the pointer.
    MouseMove,
    /// Click the left button.
    LeftClick,
    /// Press, drag and release with the left button.
    LeftClickDrag,
    /// Click the right button.
    RightClick,
    /// Click the middle button.
    MiddleClick,
    /// Click the left button twice.
    DoubleClick,
    /// Click the left button three times.
    TripleClick,
    /// Capture the screen.
    Screenshot,
    /// Report the pointer position.
    CursorPosition,
    /// Press the left button.
    LeftMouseDown,
    /// Release the left button.
    LeftMouseUp,
    /// Turn the scroll wheel.
    Scroll,
    /// Hold a key down for a duration.
    HoldKey,
    /// Sleep, then capture the screen.
    Wait,
}

/// Scroll directions, each mapped to a wheel button code.
#[derive(Clone, Copy, PartialEq, Eq, Structural, Debug)]
pub enum ScrollDirection {
    Up,
    Down,
    Left,
    Right,
}

/// Which space a coordinate pair is given in.
#[derive(Clone, Copy, Debug)]
pub enum ScalingSource {
    /// Physical pixels, to be shrunk to API space.
    Computer,
    /// API (logical) pixels, to be magnified to physical space.
    Api,
}

/// A display resolution.
#[derive(Clone, Copy, PartialEq, Eq, Structural, Debug)]
pub struct Resolution {
    pub width: u32,
    pub height: u32,
}

/// The fixed, ordered table of target resolutions the scaling algorithm
/// consults; order is the tie-break.
pub open spec fn targets() -> Seq<(int, int)> {
    seq![(1024int, 768int), (1280int, 800int), (1366int, 768int)]
}

/// The table as data.
pub fn scaling_targets() -> (r: Vec<Resolution>)
    ensures
        r@.len() == targets().len(),
        forall|i: int|
            0 <= i < r@.len() ==> (#[trigger] r@[i]).width == targets()[i].0 && r@[i].height
                == targets()[i].1,
{
    let mut v: Vec<Resolution> = Vec::new();
    v.push(Resolution { width: 1024, height: 768 });
    v.push(Resolution { width: 1280, height: 800 });
    v.push(Resolution { width: 1366, height: 768 });
    v
}

/// Whether the aspect ratio of `tw x th` matches that of `w x h` within the
/// tolerance of one fiftieth (0.02).
pub open spec fn ratio_matches(tw: int, th: int, w: int, h: int) -> bool {
    50 * (if tw * h >= w * th {
        tw * h - w * th
    } else {
        w * th - tw * h
    }) < th * h
}

/// The first table entry whose aspect ratio matches the physical one and
/// whose width is smaller than the physical width, if any: the active
/// logical resolution.
pub open spec fn active_target(w: int, h: int) -> Option<(int, int)> {
    if ratio_matches(1024, 768, w, h) && 1024 < w {
        Some((1024int, 768int))
    } else if ratio_matches(1280, 800, w, h) && 1280 < w {
        Some((1280int, 800int))
    } else if ratio_matches(1366, 768, w, h) && 1366 < w {
        Some((1366int, 768int))
    } else {
        None
    }
}

/// `num / den` rounded to the nearest integer (half away from zero), for
/// non-negative operands.
pub open spec fn round_div(num: int, den: int) -> int {
    (2 * num + den) / (2 * den)
}

/// A physical-space value shrunk to API space: `v * t / p`, rounded.
pub open spec fn shrink(v: int, t: int, p: int) -> int {
    round_div(v * t, p)
}

/// An API-space value magnified to physical space: `v * p / t`, rounded.
pub open spec fn magnify(v: int, t: int, p: int) -> int {
    round_div(v * p, t)
}

/// Rounded division stays within `num + den`.
pub proof fn lemma_round_div_bound(num: int, den: int)
    requires
        num >= 0,
        den >= 1,
    ensures
        0 <= round_div(num, den) <= num + den,
{
    let q = round_div(num, den);
    vstd::arithmetic::div_mod::lemma_fundamental_div_mod(2 * num + den, 2 * den);
    assert(0 <= q && q * (2 * den) <= 2 * num + den) by (nonlinear_arith)
        requires
            num >= 0,
            den >= 1,
            q == (2 * num + den) / (2 * den),
            2 * num + den == (2 * den) * q + (2 * num + den) % (2 * den),
            0 <= (2 * num + den) % (2 * den) < 2 * den,
    ;
    assert(q <= num + den) by (nonlinear_arith)
        requires
            q >= 0,
            den >= 1,
            q * (2 * den) <= 2 * num + den,
    ;
}

/// Shrinking a coordinate to API space and magnifying it back recovers it
/// within rounding error: the difference, scaled by twice the target
/// dimension, stays within the sum of the two dimensions.
pub proof fn lemma_scale_round_trip_axis(p: int, t: int, x: int)
    requires
        p >= 1,
        t >= 1,
        x >= 0,
    ensures
        ({
            let s = shrink(x, t, p);
            let m = magnify(s, t, p);
            -(p + t) < 2 * t * (m - x) <= p + t
        }),
{
    let s = shrink(x, t, p);
    let m = magnify(s, t, p);
    let a1 = 2 * (x * t) + p;
    let b1 = 2 * p;
    vstd::arithmetic::div_mod::lemma_fundamental_div_mod(a1, b1);
    let r1 = a1 % b1;
    assert(2 * p * s == 2 * (x * t) + p - r1) by (nonlinear_arith)
        requires
            a1 == b1 * s + r1,
            b1 == 2 * p,
            a1 == 2 * (x * t) + p,
    ;
    let a2 = 2 * (s * p) + t;
    let b2 = 2 * t;
    vstd::arithmetic::div_mod::lemma_fundamental_div_mod(a2, b2);
    let r2 = a2 % b2;
    assert(2 * t * m == 2 * (s * p) + t - r2) by (nonlinear_arith)
        requires
            a2 == b2 * m + r2,
            b2 == 2 * t,
            a2 == 2 * (s * p) + t,
    ;
    assert(2 * (s * p) == 2 * (x * t) + p - r1) by (nonlinear_arith)
        requires
            2 * p * s == 2 * (x * t) + p - r1,
    ;
    assert(2 * t * (m - x) == p + t - r1 - r2) by (nonlinear_arith)
        requires
            2 * t * m == 2 * (s * p) + t - r2,
            2 * (s * p) == 2 * (x * t) + p - r1,
    ;
    assert(0 <= r1 < 2 * p);
    assert(0 <= r2 < 2 * t);
}

/// Computes `round_div` on machine integers.
fn round_div_u64(num: u64, den: u64) -> (r: u64)
    requires
        1 <= den,
        num <= 0x3fff_ffff_ffff_ffff,
        den <= 0x3fff_ffff_ffff_ffff,
    ensures
        r == round_div(num as int, den as int),
        r <= num + den,
        2 * (den as int) * (r as int) <= 2 * (num as int) + (den as int),
{
    proof {
        lemma_round_div_bound(num as int, den as int);
        vstd::arithmetic::div_mod::lemma_fundamental_div_mod(
            2 * (num as int) + (den as int),
            2 * (den as int),
        );
        let q = round_div(num as int, den as int);
        assert(2 * (den as int) * q <= 2 * (num as int) + (den as int)) by (nonlinear_arith)
            requires
                den >= 1,
                2 * (num as int) + (den as int) == (2 * (den as int)) * q + (2 * (num as int) + (
                den as int)) % (2 * (den as int)),
                0 <= (2 * (num as int) + (den as int)) % (2 * (den as int)),
        ;
    }
    (2 * num + den) / (2 * den)
}

/// Both coordinates of a pair converted between the coordinate spaces,
/// using the active target; the identity when scaling is disabled or no
/// target matches.
pub open spec fn scale_spec(
    source: ScalingSource,
    w: int,
    h: int,
    x: int,
    y: int,
    enabled: bool,
) -> (int, int) {
    if !enabled {
        (x, y)
    } else {
        match active_target(w, h) {
            None => (x, y),
            Some(t) => match source {
                ScalingSource::Api => (magnify(x, t.0, w), magnify(y, t.1, h)),
                ScalingSource::Computer => (shrink(x, t.0, w), shrink(y, t.1, h)),
            },
        }
    }
}

/// Scaling a physical coordinate pair to API space and back recovers it
/// within rounding error, whenever a target resolution is active: on each
/// axis the difference, scaled by twice the target dimension, stays within
/// the sum of the physical and target dimensions.
pub proof fn lemma_scale_round_trip(w: int, h: int, x: int, y: int)
    requires
        1 <= w,
        1 <= h,
        0 <= x,
        0 <= y,
        active_target(w, h) is Some,
    ensures
        ({
            let t = active_target(w, h)->0;
            let api = scale_spec(ScalingSource::Computer, w, h, x, y, true);
            let back = scale_spec(ScalingSource::Api, w, h, api.0, api.1, true);
            &&& -(w + t.0) < 2 * t.0 * (back.0 - x) <= w + t.0
            &&& -(h + t.1) < 2 * t.1 * (back.1 - y) <= h + t.1
        }),
{
    let t = active_target(w, h)->0;
    lemma_scale_round_trip_axis(w, t.0, x);
    lemma_scale_round_trip_axis(h, t.1, y);
}

fn ratio_ok(tw: u32, th: u32, w: u32, h: u32) -> (r: bool)
    requires
        tw <= 1366,
        th <= 800,
        w <= 65535,
        h <= 65535,
    ensures
        r == ratio_matches(tw as int, th as int, w as int, h as int),
{
    proof {
        assert((tw as int) * (h as int) <= 1366 * 65535 && (w as int) * (th as int) <= 65535 * 800
            && (th as int) * (h as int) <= 800 * 65535) by (nonlinear_arith)
            requires
                tw <= 1366,
                th <= 800,
                w <= 65535,
                h <= 65535,
        ;
    }
    let a = (tw as u64) * (h as u64);
    let b = (w as u64) * (th as u64);
    let diff = if a >= b {
        a - b
    } else {
        b - a
    };
    50 * diff < (th as u64) * (h as u64)
}

/// The dispatcher. The display configuration is fixed at construction;
/// the automation commands it builds are run by the caller.
pub struct ComputerTool {
    /// Physical display width in pixels.
    pub width: u32,
    /// Physical display height in pixels.
    pub height: u32,
    /// Display index to address, if any.
    pub display_num: Option<u32>,
    /// `DISPLAY=:n ` environment prefix for the automation commands.
    pub display_prefix: String,
    /// The automation command with its display prefix.
    pub xdotool: String,
    /// Whether coordinate scaling is applied.
    pub scaling_enabled: bool,
}

/// The environment prefix selecting a display index.
pub open spec fn prefix_spec(d: Option<u32>) -> Seq<char> {
    match d {
        Some(n) => "DISPLAY=:"@ + dec_digits(n as nat) + " "@,
        None => Seq::empty(),
    }
}

impl ComputerTool {
    /// The display configuration is within machine bounds and the command
    /// prefixes agree with the display index.
    pub open spec fn wf(&self) -> bool {
        &&& 0 < self.width <= 65535
        &&& 0 < self.height <= 65535
        &&& self.display_prefix@ == prefix_spec(self.display_num)
        &&& self.xdotool@ == prefix_spec(self.display_num) + "xdotool"@
    }

    /// A dispatcher for a display of the given physical resolution, with
    /// scaling enabled. The caller queries the OS for the resolution once
    /// and hands it in.
    pub fn new(width: u32, height: u32, display_num: Option<u32>) -> (r: ComputerTool)
        requires
            0 < width <= 65535,
            0 < height <= 65535,
        ensures
            r.wf(),
            r.width == width,
            r.height == height,
            r.display_num == display_num,
            r.scaling_enabled,
    {
        let mut p: Vec<char> = Vec::new();
        match display_num {
            Some(n) => {
                push_str_chars(&mut p, "DISPLAY=:");
                push_dec_u64(&mut p, n as u64);
                push_str_chars(&mut p, " ");
            },
            None => {},
        }
        let mut x: Vec<char> = Vec::new();
        push_chars(&mut x, &p);
        push_str_chars(&mut x, "xdotool");
        proof {
            assert(p@ =~= prefix_spec(display_num));
            assert(x@ =~= prefix_spec(display_num) + "xdotool"@);
        }
        ComputerTool {
            width,
            height,
            display_num,
            display_prefix: chars_to_string(&p),
            xdotool: chars_to_string(&x),
            scaling_enabled: true,
        }
    }

    /// Converts a coordinate pair between API space and physical space, as
    /// `scale_spec` describes.
    pub fn scale_coordinates(&self, source: ScalingSource, x: u32, y: u32) -> (r: (u32, u32))
        requires
            self.wf(),
            x <= self.width,
            y <= self.height,
        ensures
            (r.0 as int, r.1 as int) == scale_spec(
                source,
                self.width as int,
                self.height as int,
                x as int,
                y as int,
                self.scaling_enabled,
            ),
    {
        if !self.scaling_enabled {
            return (x, y);
        }
        let t: Resolution;
        if ratio_ok(1024, 768, self.width, self.height) && 1024 < self.width {
            t = Resolution { width: 1024, height: 768 };
        } else if ratio_ok(1280, 800, self.width, self.height) && 1280 < self.width {
            t = Resolution { width: 1280, height: 800 };
        } else if ratio_ok(1366, 768, self.width, self.height) && 1366 < self.width {
            t = Resolution { width: 1366, height: 768 };
        } else {
            return (x, y);
        }
        proof {
            assert(active_target(self.width as int, self.height as int) == Some(
                (t.width as int, t.height as int),
            ));
        }
        match source {
            ScalingSource::Api => {
                proof {
                    assert((x as int) * (self.width as int) <= 65535 * 65535 && (y as int) * (
                    self.height as int) <= 65535 * 65535) by (nonlinear_arith)
                        requires
                            x <= 65535,
                            y <= 65535,
                            self.width <= 65535,
                            self.height <= 65535,
                    ;
                }
                let rx = round_div_u64((x as u64) * (self.width as u64), t.width as u64);
                let ry = round_div_u64((y as u64) * (self.height as u64), t.height as u64);
                proof {
                    assert(rx <= u32::MAX && ry <= u32::MAX) by (nonlinear_arith)
                        requires
                            2 * (t.width as int) * (rx as int) <= 2 * ((x as int) * (
                            self.width as int)) + (t.width as int),
                            2 * (t.height as int) * (ry as int) <= 2 * ((y as int) * (
                            self.height as int)) + (t.height as int),
                            t.width >= 1024,
                            t.height >= 768,
                            x <= 65535,
                            y <= 65535,
                            self.width <= 65535,
                            self.height <= 65535,
                    ;
                }
                (rx as u32, ry as u32)
            },
            ScalingSource::Computer => {
                proof {
                    assert((x as int) * (t.width as int) <= 65535 * 1366 && (y as int) * (
                    t.height as int) <= 65535 * 800) by (nonlinear_arith)
                        requires
                            x <= 65535,
                            y <= 65535,
                            t.width <= 1366,
                            t.height <= 800,
                    ;
                }
                let rx = round_div_u64((x as u64) * (t.width as u64), self.width as u64);
                let ry = round_div_u64((y as u64) * (t.height as u64), self.height as u64);
                proof {
                    assert(rx <= u32::MAX && ry <= u32::MAX) by (nonlinear_arith)
                        requires
                            rx <= (x as int) * (t.width as int) + (self.width as int),
                            ry <= (y as int) * (t.height as int) + (self.height as int),
                            t.width <= 1366,
                            t.height <= 800,
                            x <= 65535,
                            y <= 65535,
                            self.width <= 65535,
                            self.height <= 65535,
                    ;
                }
                (rx as u32, ry as u32)
            },
        }
    }

    /// Checks a caller-supplied API-space coordinate pair (non-negative and
    /// within the physical bounds) and rescales it to physical space.
    pub fn validate_and_get_coordinates(&self, coordinate: (i32, i32)) -> (r: Result<
        (u32, u32),
        ToolError,
    >)
        requires
            self.wf(),
        ensures
            match r {
                Ok(p) => 0 <= coordinate.0 && 0 <= coordinate.1 && coordinate.0 <= self.width
                    && coordinate.1 <= self.height && (p.0 as int, p.1 as int) == scale_spec(
                    ScalingSource::Api,
                    self.width as int,
                    self.height as int,
                    coordinate.0 as int,
                    coordinate.1 as int,
                    self.scaling_enabled,
                ),
                Err(e) => {
                    if coordinate.0 < 0 || coordinate.1 < 0 {
                        e.message@ == "("@ + dec_digits_signed(coordinate.0 as int) + ", "@
                            + dec_digits_signed(coordinate.1 as int)
                            + ") must be a tuple of non-negative ints"@
                    } else {
                        (coordinate.0 > self.width || coordinate.1 > self.height) && e.message@
                            == "Coordinates "@ + dec_digits_signed(coordinate.0 as int) + ", "@
                            + dec_digits_signed(coordinate.1 as int) + " are out of bounds"@
                    }
                },
            },
    {
        let (x, y) = coordinate;
        if x < 0 || y < 0 {
            let mut m: Vec<char> = Vec::new();
            push_str_chars(&mut m, "(");
            crate::text::push_dec_i64(&mut m, x as i64);
            push_str_chars(&mut m, ", ");
            crate::text::push_dec_i64(&mut m, y as i64);
            push_str_chars(&mut m, ") must be a tuple of non-negative ints");
            return Err(ToolError::new(chars_to_string(&m)));
        }
        if (x as u32) > self.width || (y as u32) > self.height {
            let mut m: Vec<char> = Vec::new();
            push_str_chars(&mut m, "Coordinates ");
            crate::text::push_dec_i64(&mut m, x as i64);
            push_str_chars(&mut m, ", ");
            crate::text::push_dec_i64(&mut m, y as i64);
            push_str_chars(&mut m, " are out of bounds");
            return Err(ToolError::new(chars_to_string(&m)));
        }
        Ok(self.scale_coordinates(ScalingSource::Api, x as u32, y as u32))
    }
}

/// What a POSIX shell quoting of `s` returns; the result depends on the
/// characters alone.
pub uninterp spec fn shell_escaped(s: Seq<char>) -> Seq<char>;

/// Relies on shell_escape::unix::escape: POSIX-shell quoting of an
/// argument, a pure function of its characters.
#[verifier::external_body]
fn escape_text(s: &str) -> (r: String)
    ensures
        r@ == shell_escaped(s@),
{
    shell_escape::unix::escape(std::borrow::Cow::from(s)).into_owned()
}

/// What the standard base64 encoding (with padding) of `b` is.
pub uninterp spec fn base64_of(b: Seq<u8>) -> Seq<char>;

/// Relies on base64's STANDARD engine: padded standard-alphabet encoding,
/// a pure function of the input bytes.
#[verifier::external_body]
fn base64_encode(bytes: &Vec<u8>) -> (r: String)
    ensures
        r@ == base64_of(bytes@),
{
    base64::Engine::encode(&base64::engine::general_purpose::STANDARD, bytes)
}

/// Relies on uuid::Uuid::new_v4 and its Display impl: a random UUID in the
/// hyphenated form, which is always 36 ASCII characters.
#[verifier::external_body]
fn new_uuid_string() -> (r: String)
    ensures
        r@.len() == 36,
{
    uuid::Uuid::new_v4().to_string()
}

/// The name of an action, as used in validation error texts.
pub open spec fn action_name(a: ComputerAction) -> Seq<char> {
    match a {
        ComputerAction::Key => "Key"@,
        ComputerAction::Type => "Type"@,
        ComputerAction::MouseMove => "MouseMove"@,
        ComputerAction::LeftClick => "LeftClick"@,
        ComputerAction::LeftClickDrag => "LeftClickDrag"@,
        ComputerAction::RightClick => "RightClick"@,
        ComputerAction::MiddleClick => "MiddleClick"@,
        ComputerAction::DoubleClick => "DoubleClick"@,
        ComputerAction::TripleClick => "TripleClick"@,
        ComputerAction::Screenshot => "Screenshot"@,
        ComputerAction::CursorPosition => "CursorPosition"@,
        ComputerAction::LeftMouseDown => "LeftMouseDown"@,
        ComputerAction::LeftMouseUp => "LeftMouseUp"@,
        ComputerAction::Scroll => "Scroll"@,
        ComputerAction::HoldKey => "HoldKey"@,
        ComputerAction::Wait => "Wait"@,
    }
}

fn push_action_name(out: &mut Vec<char>, a: &ComputerAction)
    ensures
        final(out)@ == old(out)@ + action_name(*a),
{
    match a {
        ComputerAction::Key => push_str_chars(out, "Key"),
        ComputerAction::Type => push_str_chars(out, "Type"),
        ComputerAction::MouseMove => push_str_chars(out, "MouseMove"),
        ComputerAction::LeftClick => push_str_chars(out, "LeftClick"),
        ComputerAction::LeftClickDrag => push_str_chars(out, "LeftClickDrag"),
        ComputerAction::RightClick => push_str_chars(out, "RightClick"),
        ComputerAction::MiddleClick => push_str_chars(out, "MiddleClick"),
        ComputerAction::DoubleClick => push_str_chars(out, "DoubleClick"),
        ComputerAction::TripleClick => push_str_chars(out, "TripleClick"),
        ComputerAction::Screenshot => push_str_chars(out, "Screenshot"),
        ComputerAction::CursorPosition => push_str_chars(out, "CursorPosition"),
        ComputerAction::LeftMouseDown => push_str_chars(out, "LeftMouseDown"),
        ComputerAction::LeftMouseUp => push_str_chars(out, "LeftMouseUp"),
        ComputerAction::Scroll => push_str_chars(out, "Scroll"),
        ComputerAction::HoldKey => push_str_chars(out, "HoldKey"),
        ComputerAction::Wait => push_str_chars(out, "Wait"),
    }
}

/// A millisecond count rendered as decimal seconds with three fractional
/// digits, for the automation tool's `sleep`.
pub open spec fn millis_repr(ms: int) -> Seq<char> {
    dec_digits((ms / 1000) as nat) + "."@ + (if ms % 1000 < 10 {
        "00"@ + dec_digits((ms % 1000) as nat)
    } else if ms % 1000 < 100 {
        "0"@ + dec_digits((ms % 1000) as nat)
    } else {
        dec_digits((ms % 1000) as nat)
    })
}

fn push_millis(out: &mut Vec<char>, ms: u64)
    ensures
        final(out)@ == old(out)@ + millis_repr(ms as int),
{
    push_dec_u64(out, ms / 1000);
    push_str_chars(out, ".");
    let frac = ms % 1000;
    if frac < 10 {
        push_str_chars(out, "00");
        push_dec_u64(out, frac);
    } else if frac < 100 {
        push_str_chars(out, "0");
        push_dec_u64(out, frac);
    } else {
        push_dec_u64(out, frac);
    }
    proof {
        assert(out@ =~= old(out)@ + millis_repr(ms as int));
    }
}

/// The pointer-move part of a command, for physical coordinates.
pub open spec fn mousemove_part(x: int, y: int) -> Seq<char> {
    " mousemove --sync "@ + dec_digits(x as nat) + " "@ + dec_digits(y as nat)
}

/// The button code of each click action.
pub open spec fn click_button(a: ComputerAction) -> Seq<char> {
    match a {
        ComputerAction::LeftClick => "1"@,
        ComputerAction::RightClick => "3"@,
        ComputerAction::MiddleClick => "2"@,
        ComputerAction::DoubleClick => "--repeat 2 --delay 10 1"@,
        _ => "--repeat 3 --delay 10 1"@,
    }
}

/// The button code of each scroll direction.
pub open spec fn scroll_button(d: ScrollDirection) -> Seq<char> {
    match d {
        ScrollDirection::Up => "4"@,
        ScrollDirection::Down => "5"@,
        ScrollDirection::Left => "6"@,
        ScrollDirection::Right => "7"@,
    }
}

/// One command of a chunked typing action.
pub open spec fn type_chunk_cmd(xd: Seq<char>, chunk: Seq<char>) -> Seq<char> {
    xd + " type --delay "@ + dec_digits(TYPING_DELAY_MS as nat) + " -- "@ + shell_escaped(chunk)
}

/// The `i`-th typing chunk of `text`.
pub open spec fn chunk_of(text: Seq<char>, i: int) -> Seq<char> {
    text.subrange(
        50 * i,
        if 50 * i + 50 <= text.len() {
            50 * i + 50
        } else {
            text.len() as int
        },
    )
}

/// What the dispatcher decided to do for one action: the caller performs
/// the outside work (runs commands, sleeps, captures), in this order.
#[derive(Debug)]
pub enum ActionPlan {
    /// Run one automation command, wait the settle delay, then capture a
    /// screenshot and merge its image into the result.
    RunAndScreenshot { command: String },
    /// Run one automation command per typing chunk, then capture a
    /// screenshot; merge the outputs with `merge_type_results`.
    TypeChunks { commands: Vec<String> },
    /// Capture a screenshot only.
    TakeScreenshot,
    /// Run the query command and parse its output with
    /// `finish_cursor_position`.
    QueryCursor { command: String },
    /// Sleep for the duration, then capture a screenshot.
    SleepThenScreenshot { duration_ms: u64 },
}

/// The contract of planning a pointer move or drag.
pub open spec fn move_plan_post(
    tool: ComputerTool,
    action: ComputerAction,
    text: Option<&String>,
    coordinate: Option<(i32, i32)>,
    r: Result<ActionPlan, ToolError>,
) -> bool {
    match r {
        Err(e) => {
            if coordinate is None {
                e.message@ == "coordinate is required for "@ + action_name(action)
            } else if text is Some {
                e.message@ == "text is not accepted for "@ + action_name(action)
            } else {
                coordinate matches Some(c) && (c.0 < 0 || c.1 < 0 || c.0 > tool.width || c.1
                    > tool.height)
            }
        },
        Ok(p) => coordinate matches Some(c) && text is None && 0 <= c.0 && 0 <= c.1 && c.0
            <= tool.width && c.1 <= tool.height && {
            let ph = scale_spec(
                ScalingSource::Api,
                tool.width as int,
                tool.height as int,
                c.0 as int,
                c.1 as int,
                tool.scaling_enabled,
            );
            p matches ActionPlan::RunAndScreenshot { command } && command@ == (
            if action is MouseMove {
                tool.xdotool@ + mousemove_part(ph.0, ph.1)
            } else {
                tool.xdotool@ + " mousedown 1"@ + mousemove_part(ph.0, ph.1) + " mouseup 1"@
            })
        },
    }
}

/// The contract of planning a key press or chunked typing.
pub open spec fn key_type_plan_post(
    tool: ComputerTool,
    action: ComputerAction,
    text: Option<&String>,
    coordinate: Option<(i32, i32)>,
    r: Result<ActionPlan, ToolError>,
) -> bool {
    match r {
        Err(e) => {
            if text is None {
                e.message@ == "text is required for "@ + action_name(action)
            } else {
                coordinate is Some && e.message@ == "coordinate is not accepted for "@
                    + action_name(action)
            }
        },
        Ok(p) => text matches Some(t) && coordinate is None && (if action is Key {
            p matches ActionPlan::RunAndScreenshot { command } && command@ == tool.xdotool@
                + " key -- "@ + t@
        } else {
            p matches ActionPlan::TypeChunks { commands } && commands@.len() == (t@.len() + 49)
                / 50 && (forall|i: int|
                0 <= i < commands@.len() ==> (#[trigger] commands@[i])@ == type_chunk_cmd(
                    tool.xdotool@,
                    chunk_of(t@, i),
                ))
        }),
    }
}

/// The contract of planning a click.
pub open spec fn click_plan_post(
    tool: ComputerTool,
    action: ComputerAction,
    text: Option<&String>,
    coordinate: Option<(i32, i32)>,
    key: Option<&String>,
    r: Result<ActionPlan, ToolError>,
) -> bool {
    match r {
        Err(e) => {
            if text is Some {
                e.message@ == "text is not accepted for "@ + action_name(action)
            } else {
                coordinate matches Some(c) && (c.0 < 0 || c.1 < 0 || c.0 > tool.width || c.1
                    > tool.height)
            }
        },
        Ok(p) => text is None && (p matches ActionPlan::RunAndScreenshot { command } && {
            let movepart = match coordinate {
                Some(c) => {
                    let ph = scale_spec(
                        ScalingSource::Api,
                        tool.width as int,
                        tool.height as int,
                        c.0 as int,
                        c.1 as int,
                        tool.scaling_enabled,
                    );
                    mousemove_part(ph.0, ph.1)
                },
                None => Seq::<char>::empty(),
            };
            let keydown = match key {
                Some(k) => " keydown "@ + k@,
                None => Seq::<char>::empty(),
            };
            let keyup = match key {
                Some(k) => " keyup "@ + k@,
                None => Seq::<char>::empty(),
            };
            (coordinate matches Some(c) ==> 0 <= c.0 && 0 <= c.1 && c.0 <= tool.width && c.1
                <= tool.height) && command@ == tool.xdotool@ + movepart + keydown + " click "@
                + click_button(action) + keyup
        }),
    }
}

/// The contract of planning a scroll.
pub open spec fn scroll_plan_post(
    tool: ComputerTool,
    text: Option<&String>,
    coordinate: Option<(i32, i32)>,
    scroll_direction: Option<ScrollDirection>,
    scroll_amount: Option<u32>,
    r: Result<ActionPlan, ToolError>,
) -> bool {
    match r {
        Err(e) => {
            if scroll_direction is None {
                e.message@ == "scroll_direction is required for scroll action"@
            } else if scroll_amount is None {
                e.message@ == "scroll_amount is required for scroll action"@
            } else if scroll_amount matches Some(n) && n == 0 {
                e.message@ == "scroll_amount must be a positive integer"@
            } else {
                coordinate matches Some(c) && (c.0 < 0 || c.1 < 0 || c.0 > tool.width || c.1
                    > tool.height)
            }
        },
        Ok(p) => scroll_direction matches Some(d) && scroll_amount matches Some(n) && n > 0 && (
        p matches ActionPlan::RunAndScreenshot { command } && {
            let movepart = match coordinate {
                Some(c) => {
                    let ph = scale_spec(
                        ScalingSource::Api,
                        tool.width as int,
                        tool.height as int,
                        c.0 as int,
                        c.1 as int,
                        tool.scaling_enabled,
                    );
                    mousemove_part(ph.0, ph.1)
                },
                None => Seq::<char>::empty(),
            };
            let keydown = match text {
                Some(t) => " keydown "@ + t@,
                None => Seq::<char>::empty(),
            };
            let keyup = match text {
                Some(t) => " keyup "@ + t@,
                None => Seq::<char>::empty(),
            };
            (coordinate matches Some(c) ==> 0 <= c.0 && 0 <= c.1 && c.0 <= tool.width && c.1
                <= tool.height) && command@ == tool.xdotool@ + movepart + keydown
                + " click --repeat "@ + dec_digits(n as nat) + " "@ + scroll_button(d) + keyup
        }),
    }
}

/// The contract of planning a held key.
pub open spec fn hold_key_plan_post(
    tool: ComputerTool,
    text: Option<&String>,
    duration_ms: Option<i64>,
    r: Result<ActionPlan, ToolError>,
) -> bool {
    match r {
        Err(e) => {
            if duration_ms is None {
                e.message@ == "duration is required for hold_key action"@
            } else if duration_ms matches Some(d) && d < 0 {
                e.message@ == "duration must be non-negative"@
            } else if duration_ms matches Some(d) && d > 100000 {
                e.message@ == "duration is too long"@
            } else {
                text is None && e.message@ == "text is required for hold_key action"@
            }
        },
        Ok(p) => duration_ms matches Some(d) && (text matches Some(t) && 0 <= d <= 100000 && (
        p matches ActionPlan::RunAndScreenshot { command } && command@ == tool.xdotool@
            + " keydown "@ + shell_escaped(t@) + " sleep "@ + millis_repr(d as int) + " keyup "@
            + shell_escaped(t@))),
    }
}

/// The contract of planning a wait.
pub open spec fn wait_plan_post(duration_ms: Option<i64>, r: Result<ActionPlan, ToolError>) -> bool {
    match r {
        Err(e) => {
            if duration_ms is None {
                e.message@ == "duration is required for wait action"@
            } else if duration_ms matches Some(d) && d < 0 {
                e.message@ == "duration must be non-negative"@
            } else {
                duration_ms matches Some(d) && d > 100000 && e.message@ == "duration is too long"@
            }
        },
        Ok(p) => duration_ms matches Some(d) && 0 <= d <= 100000 && (p matches
            ActionPlan::SleepThenScreenshot { duration_ms: dm } && dm == d),
    }
}

impl ComputerTool {
    fn plan_move(
        &self,
        action: ComputerAction,
        text: Option<&String>,
        coordinate: Option<(i32, i32)>,
    ) -> (r: Result<ActionPlan, ToolError>)
        requires
            self.wf(),
            action is MouseMove || action is LeftClickDrag,
        ensures
            move_plan_post(*self, action, text, coordinate, r),
    {

                let c = match coordinate {
                    None => {
                        let mut m: Vec<char> = Vec::new();
                        push_str_chars(&mut m, "coordinate is required for ");
                        push_action_name(&mut m, &action);
                        return Err(ToolError::new(chars_to_string(&m)));
                    },
                    Some(c) => c,
                };
                if text.is_some() {
                    let mut m: Vec<char> = Vec::new();
                    push_str_chars(&mut m, "text is not accepted for ");
                    push_action_name(&mut m, &action);
                    return Err(ToolError::new(chars_to_string(&m)));
                }
                let (x, y) = match self.validate_and_get_coordinates(c) {
                    Ok(p) => p,
                    Err(e) => {
                        return Err(e);
                    },
                };
                let mut cmd: Vec<char> = Vec::new();
                push_str_chars(&mut cmd, self.xdotool.as_str());
                if matches!(action, ComputerAction::LeftClickDrag) {
                    push_str_chars(&mut cmd, " mousedown 1");
                }
                push_str_chars(&mut cmd, " mousemove --sync ");
                push_dec_u64(&mut cmd, x as u64);
                push_str_chars(&mut cmd, " ");
                push_dec_u64(&mut cmd, y as u64);
                if matches!(action, ComputerAction::LeftClickDrag) {
                    push_str_chars(&mut cmd, " mouseup 1");
                }
                proof {
                    if action is MouseMove {
                        assert(cmd@ =~= self.xdotool@ + mousemove_part(x as int, y as int));
                    } else {
                        assert(cmd@ =~= self.xdotool@ + " mousedown 1"@ + mousemove_part(
                            x as int,
                            y as int,
                        ) + " mouseup 1"@);
                    }
                }
                Ok(ActionPlan::RunAndScreenshot { command: chars_to_string(&cmd) })
            
    }

    fn plan_key_type(
        &self,
        action: ComputerAction,
        text: Option<&String>,
        coordinate: Option<(i32, i32)>,
    ) -> (r: Result<ActionPlan, ToolError>)
        requires
            self.wf(),
            action is Key || action is Type,
        ensures
            key_type_plan_post(*self, action, text, coordinate, r),
    {

                let t = match text {
                    None => {
                        let mut m: Vec<char> = Vec::new();
                        push_str_chars(&mut m, "text is required for ");
                        push_action_name(&mut m, &action);
                        return Err(ToolError::new(chars_to_string(&m)));
                    },
                    Some(t) => t,
                };
                if coordinate.is_some() {
                    let mut m: Vec<char> = Vec::new();
                    push_str_chars(&mut m, "coordinate is not accepted for ");
                    push_action_name(&mut m, &action);
                    return Err(ToolError::new(chars_to_string(&m)));
                }
                if matches!(action, ComputerAction::Key) {
                    let mut cmd: Vec<char> = Vec::new();
                    push_str_chars(&mut cmd, self.xdotool.as_str());
                    push_str_chars(&mut cmd, " key -- ");
                    push_str_chars(&mut cmd, t.as_str());
                    proof {
                        assert(cmd@ =~= self.xdotool@ + " key -- "@ + t@);
                    }
                    Ok(ActionPlan::RunAndScreenshot { command: chars_to_string(&cmd) })
                } else {
                    let tv = str_to_chars(t.as_str());
                    let mut commands: Vec<String> = Vec::new();
                    let mut pos: usize = 0;
                    let mut k: usize = 0;
                    while pos < tv.len()
                        invariant
                            self.wf(),
                            tv@ == t@,
                            commands@.len() == k,
                            pos == if 50 * (k as int) <= tv@.len() {
                                50 * (k as int)
                            } else {
                                tv@.len() as int
                            },
                            k > 0 ==> 50 * ((k - 1) as int) < tv@.len(),
                            forall|i: int|
                                0 <= i < commands@.len() ==> (#[trigger] commands@[i])@
                                    == type_chunk_cmd(self.xdotool@, chunk_of(t@, i)),
                        decreases tv@.len() - pos,
                    {
                        let hi = if tv.len() - pos >= 50 {
                            pos + 50
                        } else {
                            tv.len()
                        };
                        let chunk = subrange_chars(&tv, pos, hi);
                        let chunk_s = chars_to_string(&chunk);
                        let escaped = escape_text(chunk_s.as_str());
                        let mut cmd: Vec<char> = Vec::new();
                        push_str_chars(&mut cmd, self.xdotool.as_str());
                        push_str_chars(&mut cmd, " type --delay ");
                        push_dec_u64(&mut cmd, TYPING_DELAY_MS as u64);
                        push_str_chars(&mut cmd, " -- ");
                        push_str_chars(&mut cmd, escaped.as_str());
                        proof {
                            assert(50 * (k as int) <= tv@.len());
                            assert(chunk@ =~= chunk_of(t@, k as int));
                            assert(cmd@ =~= type_chunk_cmd(self.xdotool@, chunk_of(t@, k as int)));
                            assert(50 * ((k + 1) as int) == 50 * (k as int) + 50);
                        }
                        commands.push(chars_to_string(&cmd));
                        pos = hi;
                        k += 1;
                    }
                    proof {
                        let n = t@.len() as int;
                        let kk = k as int;
                        if n == 0 {
                            assert(k == 0);
                            assert(commands@.len() == (t@.len() + 49) / 50);
                        } else {
                            assert(50 * kk >= n);
                            assert(50 * (kk - 1) < n);
                            assert(kk == (n + 49) / 50) by (nonlinear_arith)
                                requires
                                    n >= 1,
                                    50 * kk >= n,
                                    50 * (kk - 1) < n,
                            ;
                        }
                    }
                    Ok(ActionPlan::TypeChunks { commands })
                }
            
    }

    #[verifier::rlimit(100)]
    #[verifier::spinoff_prover]
    fn plan_click(
        &self,
        action: ComputerAction,
        text: Option<&String>,
        coordinate: Option<(i32, i32)>,
        key: Option<&String>,
    ) -> (r: Result<ActionPlan, ToolError>)
        requires
            self.wf(),
            action is LeftClick || action is RightClick || action is MiddleClick || action
                is DoubleClick || action is TripleClick,
        ensures
            click_plan_post(*self, action, text, coordinate, key, r),
    {

                if text.is_some() {
                    let mut m: Vec<char> = Vec::new();
                    push_str_chars(&mut m, "text is not accepted for ");
                    push_action_name(&mut m, &action);
                    return Err(ToolError::new(chars_to_string(&m)));
                }
                let mut cmd: Vec<char> = Vec::new();
                push_str_chars(&mut cmd, self.xdotool.as_str());
                match coordinate {
                    Some(c) => {
                        let (x, y) = match self.validate_and_get_coordinates(c) {
                            Ok(p) => p,
                            Err(e) => {
                                return Err(e);
                            },
                        };
                        push_str_chars(&mut cmd, " mousemove --sync ");
                        push_dec_u64(&mut cmd, x as u64);
                        push_str_chars(&mut cmd, " ");
                        push_dec_u64(&mut cmd, y as u64);
                    },
                    None => {},
                }
                match key {
                    Some(k) => {
                        push_str_chars(&mut cmd, " keydown ");
                        push_str_chars(&mut cmd, k.as_str());
                    },
                    None => {},
                }
                push_str_chars(&mut cmd, " click ");
                match action {
                    ComputerAction::LeftClick => push_str_chars(&mut cmd, "1"),
                    ComputerAction::RightClick => push_str_chars(&mut cmd, "3"),
                    ComputerAction::MiddleClick => push_str_chars(&mut cmd, "2"),
                    ComputerAction::DoubleClick => push_str_chars(
                        &mut cmd,
                        "--repeat 2 --delay 10 1",
                    ),
                    _ => push_str_chars(&mut cmd, "--repeat 3 --delay 10 1"),
                }
                match key {
                    Some(k) => {
                        push_str_chars(&mut cmd, " keyup ");
                        push_str_chars(&mut cmd, k.as_str());
                    },
                    None => {},
                }
                proof {
                    let movepart = match coordinate {
                        Some(c) => {
                            let ph = scale_spec(
                                ScalingSource::Api,
                                self.width as int,
                                self.height as int,
                                c.0 as int,
                                c.1 as int,
                                self.scaling_enabled,
                            );
                            mousemove_part(ph.0, ph.1)
                        },
                        None => Seq::<char>::empty(),
                    };
                    let keydown = match key {
                        Some(k) => " keydown "@ + k@,
                        None => Seq::<char>::empty(),
                    };
                    let keyup = match key {
                        Some(k) => " keyup "@ + k@,
                        None => Seq::<char>::empty(),
                    };
                    assert(cmd@ =~= self.xdotool@ + movepart + keydown + " click "@
                        + click_button(action) + keyup);
                }
                Ok(ActionPlan::RunAndScreenshot { command: chars_to_string(&cmd) })
            
    }

    #[verifier::rlimit(100)]
    #[verifier::spinoff_prover]
    fn plan_scroll(
        &self,
        text: Option<&String>,
        coordinate: Option<(i32, i32)>,
        scroll_direction: Option<ScrollDirection>,
        scroll_amount: Option<u32>,
    ) -> (r: Result<ActionPlan, ToolError>)
        requires
            self.wf(),
        ensures
            scroll_plan_post(*self, text, coordinate, scroll_direction, scroll_amount, r),
    {

                let d = match scroll_direction {
                    None => {
                        let mut m: Vec<char> = Vec::new();
                        push_str_chars(&mut m, "scroll_direction is required for scroll action");
                        return Err(ToolError::new(chars_to_string(&m)));
                    },
                    Some(d) => d,
                };
                let n = match scroll_amount {
                    None => {
                        let mut m: Vec<char> = Vec::new();
                        push_str_chars(&mut m, "scroll_amount is required for scroll action");
                        return Err(ToolError::new(chars_to_string(&m)));
                    },
                    Some(n) => n,
                };
                if n == 0 {
                    let mut m: Vec<char> = Vec::new();
                    push_str_chars(&mut m, "scroll_amount must be a positive integer");
                    return Err(ToolError::new(chars_to_string(&m)));
                }
                let mut cmd: Vec<char> = Vec::new();
                push_str_chars(&mut cmd, self.xdotool.as_str());
                match coordinate {
                    Some(c) => {
                        let (x, y) = match self.validate_and_get_coordinates(c) {
                            Ok(p) => p,
                            Err(e) => {
                                return Err(e);
                            },
                        };
                        push_str_chars(&mut cmd, " mousemove --sync ");
                        push_dec_u64(&mut cmd, x as u64);
                        push_str_chars(&mut cmd, " ");
                        push_dec_u64(&mut cmd, y as u64);
                    },
                    None => {},
                }
                match text {
                    Some(t) => {
                        push_str_chars(&mut cmd, " keydown ");
                        push_str_chars(&mut cmd, t.as_str());
                    },
                    None => {},
                }
                push_str_chars(&mut cmd, " click --repeat ");
                push_dec_u64(&mut cmd, n as u64);
                push_str_chars(&mut cmd, " ");
                match d {
                    ScrollDirection::Up => push_str_chars(&mut cmd, "4"),
                    ScrollDirection::Down => push_str_chars(&mut cmd, "5"),
                    ScrollDirection::Left => push_str_chars(&mut cmd, "6"),
                    ScrollDirection::Right => push_str_chars(&mut cmd, "7"),
                }
                match text {
                    Some(t) => {
                        push_str_chars(&mut cmd, " keyup ");
                        push_str_chars(&mut cmd, t.as_str());
                    },
                    None => {},
                }
                proof {
                    let movepart = match coordinate {
                        Some(c) => {
                            let ph = scale_spec(
                                ScalingSource::Api,
                                self.width as int,
                                self.height as int,
                                c.0 as int,
                                c.1 as int,
                                self.scaling_enabled,
                            );
                            mousemove_part(ph.0, ph.1)
                        },
                        None => Seq::<char>::empty(),
                    };
                    let keydown = match text {
                        Some(t) => " keydown "@ + t@,
                        None => Seq::<char>::empty(),
                    };
                    let keyup = match text {
                        Some(t) => " keyup "@ + t@,
                        None => Seq::<char>::empty(),
                    };
                    assert(cmd@ =~= self.xdotool@ + movepart + keydown + " click --repeat "@
                        + dec_digits(n as nat) + " "@ + scroll_button(d) + keyup);
                }
                Ok(ActionPlan::RunAndScreenshot { command: chars_to_string(&cmd) })
            
    }

    fn plan_hold_key(&self, text: Option<&String>, duration_ms: Option<i64>) -> (r: Result<
        ActionPlan,
        ToolError,
    >)
        requires
            self.wf(),
        ensures
            hold_key_plan_post(*self, text, duration_ms, r),
    {

                let dur = match duration_ms {
                    None => {
                        let mut m: Vec<char> = Vec::new();
                        push_str_chars(&mut m, "duration is required for hold_key action");
                        return Err(ToolError::new(chars_to_string(&m)));
                    },
                    Some(d) => d,
                };
                if dur < 0 {
                    let mut m: Vec<char> = Vec::new();
                    push_str_chars(&mut m, "duration must be non-negative");
                    return Err(ToolError::new(chars_to_string(&m)));
                }
                if dur > 100000 {
                    let mut m: Vec<char> = Vec::new();
                    push_str_chars(&mut m, "duration is too long");
                    return Err(ToolError::new(chars_to_string(&m)));
                }
                let t = match text {
                    None => {
                        let mut m: Vec<char> = Vec::new();
                        push_str_chars(&mut m, "text is required for hold_key action");
                        return Err(ToolError::new(chars_to_string(&m)));
                    },
                    Some(t) => t,
                };
                let escaped = escape_text(t.as_str());
                let mut cmd: Vec<char> = Vec::new();
                push_str_chars(&mut cmd, self.xdotool.as_str());
                push_str_chars(&mut cmd, " keydown ");
                push_str_chars(&mut cmd, escaped.as_str());
                push_str_chars(&mut cmd, " sleep ");
                push_millis(&mut cmd, dur as u64);
                push_str_chars(&mut cmd, " keyup ");
                push_str_chars(&mut cmd, escaped.as_str());
                Ok(ActionPlan::RunAndScreenshot { command: chars_to_string(&cmd) })
            
    }

    fn plan_wait(&self, duration_ms: Option<i64>) -> (r: Result<ActionPlan, ToolError>)
        ensures
            wait_plan_post(duration_ms, r),
    {

                let dur = match duration_ms {
                    None => {
                        let mut m: Vec<char> = Vec::new();
                        push_str_chars(&mut m, "duration is required for wait action");
                        return Err(ToolError::new(chars_to_string(&m)));
                    },
                    Some(d) => d,
                };
                if dur < 0 {
                    let mut m: Vec<char> = Vec::new();
                    push_str_chars(&mut m, "duration must be non-negative");
                    return Err(ToolError::new(chars_to_string(&m)));
                }
                if dur > 100000 {
                    let mut m: Vec<char> = Vec::new();
                    push_str_chars(&mut m, "duration is too long");
                    return Err(ToolError::new(chars_to_string(&m)));
                }
                Ok(ActionPlan::SleepThenScreenshot { duration_ms: dur as u64 })
    }

    /// Validates the arguments of `action` and produces the plan the
    /// caller is to perform. Caller-supplied coordinates are API-space and
    /// are validated and rescaled; argument-contract violations are
    /// validation errors, never panics.
    pub fn plan(
        &self,
        action: ComputerAction,
        text: Option<&String>,
        coordinate: Option<(i32, i32)>,
        scroll_direction: Option<ScrollDirection>,
        scroll_amount: Option<u32>,
        duration_ms: Option<i64>,
        key: Option<&String>,
    ) -> (r: Result<ActionPlan, ToolError>)
        requires
            self.wf(),
        ensures
            match action {
                ComputerAction::MouseMove | ComputerAction::LeftClickDrag => move_plan_post(
                    *self,
                    action,
                    text,
                    coordinate,
                    r,
                ),
                ComputerAction::Key | ComputerAction::Type => key_type_plan_post(
                    *self,
                    action,
                    text,
                    coordinate,
                    r,
                ),
                ComputerAction::LeftClick | ComputerAction::RightClick
                | ComputerAction::MiddleClick | ComputerAction::DoubleClick
                | ComputerAction::TripleClick => click_plan_post(
                    *self,
                    action,
                    text,
                    coordinate,
                    key,
                    r,
                ),
                ComputerAction::Screenshot => r matches Ok(p) && p is TakeScreenshot,
                ComputerAction::CursorPosition => r matches Ok(p) && (p matches
                    ActionPlan::QueryCursor { command } && command@ == self.xdotool@
                    + " getmouselocation --shell"@),
                ComputerAction::LeftMouseDown | ComputerAction::LeftMouseUp => match r {
                    Err(e) => coordinate is Some && e.message@ == "coordinate is not accepted for "@
                        + action_name(action),
                    Ok(p) => coordinate is None && (p matches ActionPlan::RunAndScreenshot {
                        command } && command@ == self.xdotool@ + (if action is LeftMouseDown {
                        " mousedown 1"@
                    } else {
                        " mouseup 1"@
                    })),
                },
                ComputerAction::Scroll => scroll_plan_post(
                    *self,
                    text,
                    coordinate,
                    scroll_direction,
                    scroll_amount,
                    r,
                ),
                ComputerAction::HoldKey => hold_key_plan_post(*self, text, duration_ms, r),
                ComputerAction::Wait => wait_plan_post(duration_ms, r),
            },
    {
        match action {
            ComputerAction::MouseMove | ComputerAction::LeftClickDrag => self.plan_move(
                action,
                text,
                coordinate,
            ),
            ComputerAction::Key | ComputerAction::Type => self.plan_key_type(
                action,
                text,
                coordinate,
            ),
            ComputerAction::LeftClick | ComputerAction::RightClick | ComputerAction::MiddleClick
            | ComputerAction::DoubleClick | ComputerAction::TripleClick => self.plan_click(
                action,
                text,
                coordinate,
                key,
            ),
            ComputerAction::Screenshot => Ok(ActionPlan::TakeScreenshot),
            ComputerAction::CursorPosition => {
                let mut cmd: Vec<char> = Vec::new();
                push_str_chars(&mut cmd, self.xdotool.as_str());
                push_str_chars(&mut cmd, " getmouselocation --shell");
                Ok(ActionPlan::QueryCursor { command: chars_to_string(&cmd) })
            },
            ComputerAction::LeftMouseDown | ComputerAction::LeftMouseUp => {
                if coordinate.is_some() {
                    let mut m: Vec<char> = Vec::new();
                    push_str_chars(&mut m, "coordinate is not accepted for ");
                    push_action_name(&mut m, &action);
                    return Err(ToolError::new(chars_to_string(&m)));
                }
                let mut cmd: Vec<char> = Vec::new();
                push_str_chars(&mut cmd, self.xdotool.as_str());
                if matches!(action, ComputerAction::LeftMouseDown) {
                    push_str_chars(&mut cmd, " mousedown 1");
                } else {
                    push_str_chars(&mut cmd, " mouseup 1");
                }
                Ok(ActionPlan::RunAndScreenshot { command: chars_to_string(&cmd) })
            },
            ComputerAction::Scroll => self.plan_scroll(
                text,
                coordinate,
                scroll_direction,
                scroll_amount,
            ),
            ComputerAction::HoldKey => self.plan_hold_key(text, duration_ms),
            ComputerAction::Wait => self.plan_wait(duration_ms),
        }
    }
}


/// The characters after the first occurrence of `pat` in `s` (meaningful
/// only when one exists).
pub open spec fn after_first(s: Seq<char>, pat: Seq<char>) -> Seq<char> {
    s.skip(first_hit(s, pat) + pat.len())
}

/// The field following the first occurrence of `pat`: the characters up to
/// the next newline (or the end).
pub open spec fn field_after(s: Seq<char>, pat: Seq<char>) -> Seq<char> {
    line_split(after_first(s, pat))[0]
}

/// Whether a field parses as a number within `u32`.
pub open spec fn parses_u32(f: Seq<char>) -> bool {
    f.len() >= 1 && all_digits(f) && dec_val(f) <= u32::MAX
}

/// Extracts the all-digit field following the first occurrence of `pat` in
/// `v`, parsed as a number; fails exactly when `pat` does not occur or the
/// field does not parse within `u32`.
fn parse_field(v: &Vec<char>, pat: &Vec<char>) -> (r: Option<u32>)
    requires
        pat@.len() >= 1,
    ensures
        match r {
            Some(n) => has_match_from(v@, pat@, 0) && parses_u32(field_after(v@, pat@)) && n
                == dec_val(field_after(v@, pat@)),
            None => !has_match_from(v@, pat@, 0) || !parses_u32(field_after(v@, pat@)),
        },
{
    let i = match find_sub(v, pat, 0) {
        None => {
            return None;
        },
        Some(i) => i,
    };
    proof {
        lemma_first_hit_unique(v@, pat@, i as int);
        assert(i + pat@.len() <= v@.len());
    }
    let n = v.len();
    let rest = subrange_chars(v, i + pat.len(), n);
    proof {
        assert(rest@ =~= after_first(v@, pat@));
    }
    let mut nl: Vec<char> = Vec::new();
    nl.push('\n');
    proof {
        assert(nl@ =~= seq!['\n']);
    }
    let field = match find_sub(&rest, &nl, 0) {
        Some(k) => {
            proof {
                assert(matches_at(rest@, nl@, k as int));
                assert(rest@.subrange(k as int, k as int + nl@.len() as int) == nl@);
                assert(k as int + nl@.len() as int == k + 1);
                assert(rest@.subrange(k as int, k + 1)[0] == rest@[k as int]);
                assert(rest@[k as int] == '\n');
                assert forall|j: int| 0 <= j < k implies rest@[j] != '\n' by {
                    assert(!matches_at(rest@, nl@, j));
                    assert(rest@.subrange(j, j + 1) =~= seq![rest@[j]]);
                }
                lemma_line_split_first(rest@, k as int);
            }
            subrange_chars(&rest, 0, k)
        },
        None => {
            proof {
                assert forall|j: int| 0 <= j < rest@.len() implies rest@[j] != '\n' by {
                    assert(!matches_at(rest@, nl@, j));
                    assert(rest@.subrange(j, j + 1) =~= seq![rest@[j]]);
                }
                lemma_line_split_first(rest@, rest@.len() as int);
                assert(rest@.take(rest@.len() as int) =~= rest@);
            }
            rest
        },
    };
    parse_u32(&field)
}

/// The outputs of a run of results, concatenated in order.
pub open spec fn cat_outputs(rs: Seq<ToolResult>) -> Seq<char>
    decreases rs.len(),
{
    if rs.len() == 0 {
        Seq::empty()
    } else {
        cat_outputs(rs.drop_last()) + match rs.last().output {
            Some(s) => s@,
            None => Seq::empty(),
        }
    }
}

/// The errors of a run of results, concatenated in order.
pub open spec fn cat_errors(rs: Seq<ToolResult>) -> Seq<char>
    decreases rs.len(),
{
    if rs.len() == 0 {
        Seq::empty()
    } else {
        cat_errors(rs.drop_last()) + match rs.last().error {
            Some(s) => s@,
            None => Seq::empty(),
        }
    }
}

/// Merges the per-chunk results of a typing action with the screenshot
/// taken afterwards: outputs and errors concatenated (absent if empty), and
/// the screenshot's image.
pub fn merge_type_results(results: &Vec<ToolResult>, screenshot: ToolResult) -> (r: ToolResult)
    ensures
        cat_outputs(results@).len() == 0 ==> r.output is None,
        cat_outputs(results@).len() > 0 ==> str_opt(r.output) == Some(cat_outputs(results@)),
        cat_errors(results@).len() == 0 ==> r.error is None,
        cat_errors(results@).len() > 0 ==> str_opt(r.error) == Some(cat_errors(results@)),
        r.base64_image == screenshot.base64_image,
        r.system is None,
{
    let mut outs: Vec<char> = Vec::new();
    let mut errs: Vec<char> = Vec::new();
    let mut i: usize = 0;
    while i < results.len()
        invariant
            i <= results@.len(),
            outs@ == cat_outputs(results@.take(i as int)),
            errs@ == cat_errors(results@.take(i as int)),
        decreases results@.len() - i,
    {
        proof {
            assert(results@.take(i + 1).drop_last() =~= results@.take(i as int));
            assert(results@.take(i + 1).last() == results@[i as int]);
        }
        match &results[i].output {
            Some(o) => push_str_chars(&mut outs, o.as_str()),
            None => {
                proof {
                    assert(outs@ =~= cat_outputs(results@.take(i + 1)));
                }
            },
        }
        match &results[i].error {
            Some(e) => push_str_chars(&mut errs, e.as_str()),
            None => {
                proof {
                    assert(errs@ =~= cat_errors(results@.take(i + 1)));
                }
            },
        }
        i += 1;
    }
    proof {
        assert(results@.take(results@.len() as int) =~= results@);
    }
    let output = if outs.len() == 0 {
        None
    } else {
        Some(chars_to_string(&outs))
    };
    let error = if errs.len() == 0 {
        None
    } else {
        Some(chars_to_string(&errs))
    };
    ToolResult { output, error, base64_image: screenshot.base64_image, system: None }
}

/// The screen-capture utilities the dispatcher knows how to invoke; the
/// caller picks the one its platform has.
#[derive(Clone, Copy, Debug)]
pub enum CaptureBackend {
    /// gnome-screenshot, on Linux desktops that have it.
    GnomeScreenshot,
    /// scrot, on other Linux desktops.
    Scrot,
    /// screencapture, on macOS.
    Screencapture,
}

/// The capture command of each backend, writing to `path`.
pub open spec fn capture_cmd_spec(b: CaptureBackend, prefix: Seq<char>, path: Seq<char>) -> Seq<
    char,
> {
    match b {
        CaptureBackend::GnomeScreenshot => prefix + "gnome-screenshot -f "@ + path + " -p"@,
        CaptureBackend::Scrot => prefix + "scrot -p "@ + path,
        CaptureBackend::Screencapture => "screencapture -x "@ + path,
    }
}

/// The command forcing a captured image to `dims`.
pub open spec fn resize_cmd_spec(path: Seq<char>, dims: (int, int)) -> Seq<char> {
    "convert "@ + path + " -resize "@ + dec_digits(dims.0 as nat) + "x"@ + dec_digits(
        dims.1 as nat,
    ) + "! "@ + path
}

/// The steps of one screenshot: the caller ensures the output directory
/// exists, runs the capture command, runs the resize command if one is
/// given, reads the file at `path`, and hands the bytes to
/// `encode_screenshot`.
#[derive(Debug)]
pub struct ScreenshotPlan {
    /// Where the capture utility writes the image.
    pub path: String,
    /// The capture invocation.
    pub capture_command: String,
    /// The resize invocation forcing the image to the logical resolution,
    /// when scaling is enabled.
    pub resize_command: Option<String>,
}

/// A screenshot result: the encoded image and nothing else.
pub fn encode_screenshot(bytes: &Vec<u8>) -> (r: ToolResult)
    ensures
        r.output is None,
        r.error is None,
        str_opt(r.base64_image) == Some(base64_of(bytes@)),
        r.system is None,
{
    ToolResult {
        output: None,
        error: None,
        base64_image: Some(base64_encode(bytes)),
        system: None,
    }
}

/// The error reported when the capture command left no file, carrying
/// whatever its own error stream said.
pub fn screenshot_error(detail: Option<&String>) -> (e: ToolError)
    ensures
        e.message@ == "Screenshot failed: "@ + match detail {
            Some(d) => d@,
            None => Seq::<char>::empty(),
        },
{
    let mut m: Vec<char> = Vec::new();
    push_str_chars(&mut m, "Screenshot failed: ");
    match detail {
        Some(d) => push_str_chars(&mut m, d.as_str()),
        None => {
            proof {
                assert(m@ =~= "Screenshot failed: "@ + Seq::<char>::empty());
            }
        },
    }
    ToolError::new(chars_to_string(&m))
}

/// What a caller of `options` learns: the display size in API space, so it
/// never needs physical pixel units, and the display index.
#[derive(Debug)]
pub struct DisplayOptions {
    pub display_width_px: u32,
    pub display_height_px: u32,
    pub display_number: Option<u32>,
}

impl ComputerTool {
    /// Parses the pointer position from the automation tool's query output
    /// (two named all-digit fields), rescales it physical-to-API, and
    /// reports it as text. Malformed output is a parse error; fields beyond
    /// the physical bounds are clamped to them before rescaling.
    pub fn finish_cursor_position(&self, output: Option<&String>) -> (r: Result<
        ToolResult,
        ToolError,
    >)
        requires
            self.wf(),
        ensures
            match output {
                None => r matches Err(e) && e.message@ == "Failed to get the cursor position"@,
                Some(o) => {
                    if !has_match_from(o@, "X="@, 0) || !parses_u32(field_after(o@, "X="@)) {
                        r matches Err(e) && e.message@ == "Could not parse the X coordinate"@
                    } else if !has_match_from(o@, "Y="@, 0) || !parses_u32(
                        field_after(o@, "Y="@),
                    ) {
                        r matches Err(e) && e.message@ == "Could not parse the Y coordinate"@
                    } else {
                        let vx = dec_val(field_after(o@, "X="@));
                        let vy = dec_val(field_after(o@, "Y="@));
                        let cx = if vx <= self.width {
                            vx as int
                        } else {
                            self.width as int
                        };
                        let cy = if vy <= self.height {
                            vy as int
                        } else {
                            self.height as int
                        };
                        let sc = scale_spec(
                            ScalingSource::Computer,
                            self.width as int,
                            self.height as int,
                            cx,
                            cy,
                            self.scaling_enabled,
                        );
                        r matches Ok(res) && str_opt(res.output) == Some(
                            "X="@ + dec_digits(sc.0 as nat) + ",Y="@ + dec_digits(sc.1 as nat),
                        ) && res.error is None && res.base64_image is None && res.system is None
                    }
                },
            },
    {
        let o = match output {
            None => {
                let mut m: Vec<char> = Vec::new();
                push_str_chars(&mut m, "Failed to get the cursor position");
                return Err(ToolError::new(chars_to_string(&m)));
            },
            Some(o) => o,
        };
        let oc = str_to_chars(o.as_str());
        let xpat = str_to_chars("X=");
        let ypat = str_to_chars("Y=");
        proof {
            reveal_strlit("X=");
            reveal_strlit("Y=");
        }
        let vx = match parse_field(&oc, &xpat) {
            None => {
                let mut m: Vec<char> = Vec::new();
                push_str_chars(&mut m, "Could not parse the X coordinate");
                return Err(ToolError::new(chars_to_string(&m)));
            },
            Some(v) => v,
        };
        let vy = match parse_field(&oc, &ypat) {
            None => {
                let mut m: Vec<char> = Vec::new();
                push_str_chars(&mut m, "Could not parse the Y coordinate");
                return Err(ToolError::new(chars_to_string(&m)));
            },
            Some(v) => v,
        };
        let cx = if vx <= self.width {
            vx
        } else {
            self.width
        };
        let cy = if vy <= self.height {
            vy
        } else {
            self.height
        };
        let (sx, sy) = self.scale_coordinates(ScalingSource::Computer, cx, cy);
        let mut m: Vec<char> = Vec::new();
        push_str_chars(&mut m, "X=");
        push_dec_u64(&mut m, sx as u64);
        push_str_chars(&mut m, ",Y=");
        push_dec_u64(&mut m, sy as u64);
        Ok(ToolResult::success(chars_to_string(&m)))
    }

    /// Plans one screenshot: a fresh uniquely named file under the output
    /// directory, the capture command for `backend`, and, with scaling
    /// enabled, the resize command forcing the image to the logical
    /// resolution.
    pub fn plan_screenshot(&self, backend: CaptureBackend) -> (r: ScreenshotPlan)
        requires
            self.wf(),
        ensures
            exists|u: Seq<char>|
                u.len() == 36 && r.path@ == output_dir() + "/screenshot_"@ + u + ".png"@,
            r.capture_command@ == capture_cmd_spec(
                backend,
                prefix_spec(self.display_num),
                r.path@,
            ),
            self.scaling_enabled ==> (r.resize_command matches Some(c) && c@ == resize_cmd_spec(
                r.path@,
                scale_spec(
                    ScalingSource::Computer,
                    self.width as int,
                    self.height as int,
                    self.width as int,
                    self.height as int,
                    true,
                ),
            )),
            !self.scaling_enabled ==> r.resize_command is None,
    {
        let u = new_uuid_string();
        let mut p: Vec<char> = Vec::new();
        push_str_chars(&mut p, "/tmp/outputs");
        push_str_chars(&mut p, "/screenshot_");
        push_str_chars(&mut p, u.as_str());
        push_str_chars(&mut p, ".png");
        let path = chars_to_string(&p);
        let mut c: Vec<char> = Vec::new();
        match backend {
            CaptureBackend::GnomeScreenshot => {
                push_str_chars(&mut c, self.display_prefix.as_str());
                push_str_chars(&mut c, "gnome-screenshot -f ");
                push_chars(&mut c, &p);
                push_str_chars(&mut c, " -p");
            },
            CaptureBackend::Scrot => {
                push_str_chars(&mut c, self.display_prefix.as_str());
                push_str_chars(&mut c, "scrot -p ");
                push_chars(&mut c, &p);
            },
            CaptureBackend::Screencapture => {
                push_str_chars(&mut c, "screencapture -x ");
                push_chars(&mut c, &p);
            },
        }
        let resize_command = if self.scaling_enabled {
            let (sx, sy) = self.scale_coordinates(
                ScalingSource::Computer,
                self.width,
                self.height,
            );
            let mut rc: Vec<char> = Vec::new();
            push_str_chars(&mut rc, "convert ");
            push_chars(&mut rc, &p);
            push_str_chars(&mut rc, " -resize ");
            push_dec_u64(&mut rc, sx as u64);
            push_str_chars(&mut rc, "x");
            push_dec_u64(&mut rc, sy as u64);
            push_str_chars(&mut rc, "! ");
            push_chars(&mut rc, &p);
            Some(chars_to_string(&rc))
        } else {
            None
        };
        ScreenshotPlan { path, capture_command: chars_to_string(&c), resize_command }
    }

    /// The display options advertised to callers: the API-space (shrunk)
    /// width and height, and the display index.
    pub fn options(&self) -> (r: DisplayOptions)
        requires
            self.wf(),
        ensures
            r.display_width_px as int == scale_spec(
                ScalingSource::Computer,
                self.width as int,
                self.height as int,
                self.width as int,
                self.height as int,
                self.scaling_enabled,
            ).0,
            r.display_height_px as int == scale_spec(
                ScalingSource::Computer,
                self.width as int,
                self.height as int,
                self.width as int,
                self.height as int,
                self.scaling_enabled,
            ).1,
            r.display_number == self.display_num,
    {
        let (w, h) = self.scale_coordinates(ScalingSource::Computer, self.width, self.height);
        DisplayOptions {
            display_width_px: w,
            display_height_px: h,
            display_number: self.display_num,
        }
    }
}

} // verus!
