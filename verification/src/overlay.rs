//! The rest overlay windows: their labels, the addresses they load, and the
//! place of the popup.

use vstd::prelude::*;
use crate::engine::timer::EngineEvent;
use crate::platform::MonitorRect;
use crate::state::Status;
use vstd::string::StringSliceAdditionalSpecFns;
use crate::text::{decimal, push_char, push_decimal, str_equals, views};

verus! {

/// The label prefix of the overlay windows (one per monitor).
pub const OVERLAY_PREFIX: &'static str = "overlay-";

/// The label of the popup window.
pub const POPUP_LABEL: &'static str = "overlay-popup";

/// The highest overlay opacity.
pub const MAX_OPACITY: u8 = 100;

/// Whether a byte is sent as it is in a query string: ASCII letters and
/// digits and `-`, `_`, `.`, `~`.
pub open spec fn is_unreserved(b: u8) -> bool {
    ||| (65 <= b && b <= 90)
    ||| (97 <= b && b <= 122)
    ||| (48 <= b && b <= 57)
    ||| b == 45
    ||| b == 95
    ||| b == 46
    ||| b == 126
}

/// The upper-case hexadecimal digit of a value below 16.
pub open spec fn hex_char(v: int) -> char {
    if v < 10 {
        (48 + v) as char
    } else {
        (55 + v) as char
    }
}

/// The encoding of one byte: itself when unreserved, `%XX` otherwise.
pub open spec fn encode_byte(b: u8) -> Seq<char> {
    if is_unreserved(b) {
        seq![b as char]
    } else {
        seq!['%', hex_char((b / 16) as int), hex_char((b % 16) as int)]
    }
}

/// The percent-encoding of a byte sequence, byte by byte.
pub open spec fn percent_encoded(bytes: Seq<u8>) -> Seq<char>
    decreases bytes.len(),
{
    if bytes.len() == 0 {
        seq![]
    } else {
        percent_encoded(bytes.drop_last()) + encode_byte(bytes.last())
    }
}

/// The primary-monitor flag in an overlay address: `1` or `0`.
pub open spec fn flag_text(b: bool) -> Seq<char> {
    if b {
        seq!['1']
    } else {
        seq!['0']
    }
}

/// The label of the overlay window of monitor `idx`.
pub open spec fn overlay_label_text(idx: nat) -> Seq<char> {
    OVERLAY_PREFIX@ + decimal(idx)
}

/// The address loaded by a full-screen overlay window.
pub open spec fn fullscreen_url_text(is_primary: bool, remaining: nat, opacity: nat, msg: Seq<u8>) -> Seq<char> {
    "/#/overlay?primary="@ + flag_text(is_primary) + "&remaining="@ + decimal(remaining)
        + "&opacity="@ + decimal(opacity) + "&msg="@ + percent_encoded(msg)
}

/// The address loaded by the popup window.
pub open spec fn popup_url_text(remaining: nat, opacity: nat, msg: Seq<u8>) -> Seq<char> {
    "/#/overlay?popup=1&remaining="@ + decimal(remaining) + "&opacity="@ + decimal(opacity)
        + "&msg="@ + percent_encoded(msg)
}

/// The address loaded by an overlay added for a monitor plugged in during a rest.
pub open spec fn hotplug_url_text(is_primary: bool) -> Seq<char> {
    "/#/overlay?primary="@ + flag_text(is_primary) + "&remaining=0"@
}

/// Appends the primary-monitor flag.
fn push_flag(out: &mut String, b: bool)
    ensures
        final(out)@ == old(out)@ + flag_text(b),
{
    push_char(out, if b { '1' } else { '0' });
}

/// Appends the encoding of one byte.
fn push_encoded_byte(out: &mut String, b: u8)
    ensures
        final(out)@ == old(out)@ + encode_byte(b),
{
    if (65 <= b && b <= 90) || (97 <= b && b <= 122) || (48 <= b && b <= 57) || b == 45 || b == 95
        || b == 46 || b == 126 {
        push_char(out, b as char);
    } else {
        push_char(out, '%');
        push_char(out, hex_digit(b / 16));
        push_char(out, hex_digit(b % 16));
    }
}

/// The upper-case hexadecimal digit of a value below 16.
fn hex_digit(v: u8) -> (c: char)
    requires
        v < 16,
    ensures
        c == hex_char(v as int),
{
    if v < 10 {
        (48u8 + v) as char
    } else {
        (55u8 + v) as char
    }
}

/// Appends the percent-encoding of the UTF-8 bytes of `s`.
fn push_url_encoded(out: &mut String, s: &str)
    ensures
        final(out)@ == old(out)@ + percent_encoded(s.spec_bytes()),
{
    let bytes = s.as_bytes();
    let n = bytes.len();
    let ghost start = out@;
    let mut i: usize = 0;
    while i < n
        invariant
            n == bytes@.len(),
            bytes@ == s.spec_bytes(),
            i <= n,
            out@ == start + percent_encoded(bytes@.subrange(0, i as int)),
        decreases n - i,
    {
        proof {
            assert(bytes@.subrange(0, i + 1).drop_last() =~= bytes@.subrange(0, i as int));
        }
        push_encoded_byte(out, bytes[i]);
        i = i + 1;
    }
    proof {
        assert(bytes@.subrange(0, n as int) =~= bytes@);
    }
}

/// Percent-encodes text for a query string: ASCII letters, digits and
/// `-_.~` stay, every other byte of the UTF-8 encoding becomes `%XX`.
pub fn url_encode(s: &str) -> (r: String)
    ensures
        r@ == percent_encoded(s.spec_bytes()),
{
    let mut out = String::new();
    push_url_encoded(&mut out, s);
    out
}

/// The label of the overlay window of monitor `idx`.
pub fn overlay_label(idx: usize) -> (r: String)
    ensures
        r@ == overlay_label_text(idx as nat),
{
    let mut r = String::from_str(OVERLAY_PREFIX);
    push_decimal(&mut r, idx as u64);
    r
}

/// The address of a full-screen overlay window.
pub fn fullscreen_url(is_primary: bool, remaining: u64, opacity: u8, message: &str) -> (r: String)
    ensures
        r@ == fullscreen_url_text(is_primary, remaining as nat, opacity as nat, message.spec_bytes()),
{
    let mut r = String::from_str("/#/overlay?primary=");
    push_flag(&mut r, is_primary);
    r.append("&remaining=");
    push_decimal(&mut r, remaining);
    r.append("&opacity=");
    push_decimal(&mut r, opacity as u64);
    r.append("&msg=");
    push_url_encoded(&mut r, message);
    r
}

/// The address of the popup window.
pub fn popup_url(remaining: u64, opacity: u8, message: &str) -> (r: String)
    ensures
        r@ == popup_url_text(remaining as nat, opacity as nat, message.spec_bytes()),
{
    let mut r = String::from_str("/#/overlay?popup=1&remaining=");
    push_decimal(&mut r, remaining);
    r.append("&opacity=");
    push_decimal(&mut r, opacity as u64);
    r.append("&msg=");
    push_url_encoded(&mut r, message);
    r
}

/// The address of an overlay added for a monitor plugged in during a rest.
pub fn hotplug_url(is_primary: bool) -> (r: String)
    ensures
        r@ == hotplug_url_text(is_primary),
{
    let mut r = String::from_str("/#/overlay?primary=");
    push_flag(&mut r, is_primary);
    r.append("&remaining=0");
    r
}

/// The opacity handed to the overlay: at most 100.
pub fn clamp_opacity(opacity: u8) -> (r: u8)
    ensures
        r == (if opacity < MAX_OPACITY {
            opacity
        } else {
            MAX_OPACITY
        }),
{
    if opacity < MAX_OPACITY {
        opacity
    } else {
        MAX_OPACITY
    }
}

/// The size of the popup window (its position is set from the primary monitor).
pub fn popup_rect() -> (r: MonitorRect)
    ensures
        r == (MonitorRect { x: -360i32, y: -260i32, width: 340, height: 220, is_primary: true }),
{
    MonitorRect { x: -360, y: -260, width: 340, height: 220, is_primary: true }
}

/// The top-left corner of the popup on the primary monitor: 40 from the
/// right edge and 60 from the bottom.
pub fn popup_position(primary: &MonitorRect, popup: &MonitorRect) -> (r: (i32, i32))
    requires
        i32::MIN <= primary.x + primary.width - popup.width - 40 <= i32::MAX,
        i32::MIN <= primary.y + primary.height - popup.height - 60 <= i32::MAX,
        i32::MIN <= primary.x + primary.width <= i32::MAX,
        i32::MIN <= primary.x + primary.width - popup.width <= i32::MAX,
        i32::MIN <= primary.y + primary.height <= i32::MAX,
        i32::MIN <= primary.y + primary.height - popup.height <= i32::MAX,
    ensures
        r.0 == primary.x + primary.width - popup.width - 40,
        r.1 == primary.y + primary.height - popup.height - 60,
{
    let x = primary.x + primary.width - popup.width - 40;
    let y = primary.y + primary.height - popup.height - 60;
    (x, y)
}

/// What the overlay does on an engine event.
#[derive(Debug, Clone, Copy, PartialEq, Eq, Structural)]
pub enum OverlayAction {
    /// Open the overlay (seconds left in the rest).
    Show { remaining: u64 },
    /// Close every overlay window.
    CloseAll,
    /// Leave the overlay as it is.
    Keep,
}

/// The overlay's answer to an event: a rest that starts opens it; a rest
/// that ends or is skipped, and a pause, close it; anything else leaves it.
pub open spec fn overlay_action(e: EngineEvent) -> OverlayAction {
    match e {
        EngineEvent::RestStarted { remaining, .. } => OverlayAction::Show { remaining },
        EngineEvent::RestEnded => OverlayAction::CloseAll,
        EngineEvent::RestSkipped => OverlayAction::CloseAll,
        EngineEvent::StatusChanged { status, .. } => if status == Status::Paused {
            OverlayAction::CloseAll
        } else {
            OverlayAction::Keep
        },
        _ => OverlayAction::Keep,
    }
}

/// The overlay's answer to an event (see `overlay_action`).
pub fn overlay_action_for(event: &EngineEvent) -> (a: OverlayAction)
    ensures
        a == overlay_action(*event),
{
    match *event {
        EngineEvent::RestStarted { remaining, .. } => OverlayAction::Show { remaining },
        EngineEvent::RestEnded | EngineEvent::RestSkipped => OverlayAction::CloseAll,
        EngineEvent::StatusChanged { status, .. } => {
            if status == Status::Paused {
                OverlayAction::CloseAll
            } else {
                OverlayAction::Keep
            }
        },
        _ => OverlayAction::Keep,
    }
}

/// The monitors (by index, in order) among the first `n` whose overlay
/// window is not open yet.
pub open spec fn overlays_missing(n: nat, open: Seq<Seq<char>>) -> Seq<nat>
    decreases n,
{
    if n == 0 {
        seq![]
    } else {
        let p = overlays_missing((n - 1) as nat, open);
        if open.contains(overlay_label_text((n - 1) as nat)) {
            p
        } else {
            p.push((n - 1) as nat)
        }
    }
}

/// Whether a label is among the open ones.
fn label_is_open(label: &str, open_labels: &Vec<String>) -> (r: bool)
    ensures
        r == views(open_labels@).contains(label@),
{
    let mut i: usize = 0;
    while i < open_labels.len()
        invariant
            i <= open_labels@.len(),
            forall|j: int| 0 <= j < i ==> views(open_labels@)[j] != label@,
        decreases open_labels@.len() - i,
    {
        if str_equals(open_labels[i].as_str(), label) {
            proof {
                assert(views(open_labels@)[i as int] == label@);
            }
            return true;
        }
        i = i + 1;
    }
    false
}

/// The monitors that still need an overlay window: those among the first
/// `monitor_count` whose label is not open, in order.
pub fn overlays_to_open(monitor_count: usize, open_labels: &Vec<String>) -> (r: Vec<usize>)
    ensures
        r@.map_values(|i: usize| i as nat) == overlays_missing(
            monitor_count as nat,
            views(open_labels@),
        ),
{
    let mut r: Vec<usize> = Vec::new();
    let mut idx: usize = 0;
    while idx < monitor_count
        invariant
            idx <= monitor_count,
            r@.map_values(|i: usize| i as nat) == overlays_missing(idx as nat, views(open_labels@)),
        decreases monitor_count - idx,
    {
        let label = overlay_label(idx);
        let ghost before = r@;
        if !label_is_open(label.as_str(), open_labels) {
            r.push(idx);
            proof {
                assert(r@.map_values(|i: usize| i as nat) =~= before.map_values(|i: usize| i as nat).push(
                    idx as nat,
                ));
            }
        }
        idx = idx + 1;
    }
    r
}

proof fn lemma_missing_covers(n: nat, open: Seq<Seq<char>>)
    ensures
        forall|i: nat| i < n ==> open.contains(#[trigger] overlay_label_text(i)) || overlays_missing(n, open).contains(i),
    decreases n,
{
    if n > 0 {
        lemma_missing_covers((n - 1) as nat, open);
        let p = overlays_missing((n - 1) as nat, open);
        assert forall|i: nat| i < n implies open.contains(#[trigger] overlay_label_text(i))
            || overlays_missing(n, open).contains(i) by {
            if i < n - 1 && !open.contains(overlay_label_text(i)) {
                assert(p.contains(i));
                let k = choose|k: int| 0 <= k < p.len() && p[k] == i;
                if !open.contains(overlay_label_text((n - 1) as nat)) {
                    assert(overlays_missing(n, open)[k] == i);
                }
            } else if i == n - 1 && !open.contains(overlay_label_text(i)) {
                assert(overlays_missing(n, open).last() == i);
            }
        }
    }
}

proof fn lemma_none_missing(n: nat, open: Seq<Seq<char>>)
    requires
        forall|i: nat| i < n ==> open.contains(#[trigger] overlay_label_text(i)),
    ensures
        overlays_missing(n, open) == Seq::<nat>::empty(),
    decreases n,
{
    if n > 0 {
        lemma_none_missing((n - 1) as nat, open);
        assert(open.contains(overlay_label_text((n - 1) as nat)));
    }
}

/// Showing the overlay twice opens nothing the second time: once a window is
/// opened (its label added) for every monitor that was missing one, no
/// monitor among the first `n` is missing one.
pub proof fn lemma_overlays_opened_once(n: nat, open: Seq<Seq<char>>)
    ensures
        overlays_missing(
            n,
            open + overlays_missing(n, open).map_values(|i: nat| overlay_label_text(i)),
        ) == Seq::<nat>::empty(),
{
    let added = overlays_missing(n, open).map_values(|i: nat| overlay_label_text(i));
    let all = open + added;
    lemma_missing_covers(n, open);
    assert forall|i: nat| i < n implies all.contains(#[trigger] overlay_label_text(i)) by {
        if open.contains(overlay_label_text(i)) {
            let k = choose|k: int| 0 <= k < open.len() && open[k] == overlay_label_text(i);
            assert(all[k] == overlay_label_text(i));
        } else {
            let m = overlays_missing(n, open);
            let k = choose|k: int| 0 <= k < m.len() && m[k] == i;
            assert(added[k] == overlay_label_text(i));
            assert(all[open.len() + k] == overlay_label_text(i));
        }
    }
    lemma_none_missing(n, all);
}

/// The value of an upper-case hexadecimal digit.
pub open spec fn hex_value(c: char) -> int {
    if (c as u32) < 58 {
        (c as u32) - 48
    } else {
        (c as u32) - 55
    }
}

/// Percent-decoding, read from the end: a `%XX` group is one byte, any other
/// character is the byte of its code.
pub open spec fn percent_decoded(cs: Seq<char>) -> Seq<u8>
    decreases cs.len(),
{
    if cs.len() == 0 {
        seq![]
    } else if cs.len() >= 3 && cs[cs.len() - 3] == '%' {
        percent_decoded(cs.subrange(0, cs.len() - 3)).push(
            (hex_value(cs[cs.len() - 2]) * 16 + hex_value(cs[cs.len() - 1])) as u8,
        )
    } else {
        percent_decoded(cs.drop_last()).push((cs.last() as u32) as u8)
    }
}

proof fn lemma_encoding_tail(bytes: Seq<u8>)
    ensures
        ({
            let e = percent_encoded(bytes);
            &&& e.len() >= 1 ==> e[e.len() - 1] != '%'
            &&& e.len() >= 2 ==> e[e.len() - 2] != '%'
            &&& forall|i: int| 0 <= i < e.len() ==> (e[i] as u32) < 128
        }),
    decreases bytes.len(),
{
    if bytes.len() > 0 {
        lemma_encoding_tail(bytes.drop_last());
        let p = percent_encoded(bytes.drop_last());
        let x = bytes.last();
        let e = percent_encoded(bytes);
        assert(e == p + encode_byte(x));
        assert forall|i: int| 0 <= i < e.len() implies (e[i] as u32) < 128 by {
            if i >= p.len() {
                assert(e[i] == encode_byte(x)[i - p.len()]);
            }
        }
    }
}

/// Percent-encoding loses nothing and stays in ASCII: decoding the encoding
/// of any bytes gives the bytes back, and every character is below 128.
pub proof fn lemma_url_encoding_round_trip(bytes: Seq<u8>)
    ensures
        percent_decoded(percent_encoded(bytes)) == bytes,
        forall|i: int|
            0 <= i < percent_encoded(bytes).len() ==> (#[trigger] percent_encoded(bytes)[i] as u32)
                < 128,
    decreases bytes.len(),
{
    lemma_encoding_tail(bytes);
    if bytes.len() > 0 {
        let pre = bytes.drop_last();
        let x = bytes.last();
        lemma_url_encoding_round_trip(pre);
        lemma_encoding_tail(pre);
        let p = percent_encoded(pre);
        let e = percent_encoded(bytes);
        assert(e == p + encode_byte(x));
        if is_unreserved(x) {
            assert(e.drop_last() =~= p);
            assert(((x as char) as u32) as u8 == x);
            if e.len() >= 3 {
                assert(e[e.len() - 3] == p[p.len() - 2]);
            }
        } else {
            assert(e.subrange(0, e.len() - 3) =~= p);
            assert(e[e.len() - 3] == '%');
            let hi = x / 16;
            let lo = x % 16;
            assert(hex_value(hex_char(hi as int)) == hi);
            assert(hex_value(hex_char(lo as int)) == lo);
            assert((hi * 16 + lo) as u8 == x);
        }
        assert(percent_decoded(e) =~= bytes);
    }
}

/// The overlay follows the rests: it opens only when a rest starts, showing
/// that rest's seconds; it closes exactly when a rest ends or is skipped or
/// the timer pauses; every other event (work starting, a resume, a status
/// change to running or resting, a notice, a sound cue) leaves it as it is.
pub proof fn lemma_overlay_follows_rests(e: EngineEvent)
    ensures
        (overlay_action(e) is Show) <==> (e is RestStarted),
        (e matches EngineEvent::RestStarted { remaining, .. } ==> overlay_action(e)
            == (OverlayAction::Show { remaining })),
        (overlay_action(e) == OverlayAction::CloseAll) <==> ((e is RestEnded) || (e is RestSkipped)
            || (e matches EngineEvent::StatusChanged { status, .. } && status == Status::Paused)),
        (e matches EngineEvent::StatusChanged { status, .. } && status != Status::Paused
            ==> overlay_action(e) == OverlayAction::Keep),
{
}

} // verus!
