//! In-game control protocol helpers: key names and the control port.
use vstd::prelude::*;
use crate::text;

verus! {

/// Default HTTP port of the in-game control server.
pub const DEFAULT_DESPOTES_PORT: u16 = 25585;

/// JVM system property that overrides the control port.
pub const DESPOTES_PORT_PROPERTY: &'static str = "despotes.port";

/// File (under `runtime/`) holding the requested control port.
pub const DESPOTES_PORT_FILE: &'static str = "despotes.port";

/// The Minecraft key id for a friendly key name: ids starting `key.` pass
/// through; `space`, `escape`/`esc`, `shift`/`sneak`, `ctrl`/`sprint`,
/// `enter`/`return` map to their keys; any other name `n` becomes
/// `key.keyboard.<n>` (ASCII lower-cased).
pub open spec fn mc_key(key: Seq<char>) -> Seq<char> {
    if text::starts_with(key, "key."@) {
        key
    } else {
        let l = text::ascii_lower(key);
        if l == "space"@ {
            "key.keyboard.space"@
        } else if l == "escape"@ || l == "esc"@ {
            "key.keyboard.escape"@
        } else if l == "shift"@ || l == "sneak"@ {
            "key.keyboard.left.shift"@
        } else if l == "ctrl"@ || l == "sprint"@ {
            "key.keyboard.left.ctrl"@
        } else if l == "enter"@ || l == "return"@ {
            "key.keyboard.enter"@
        } else {
            "key.keyboard."@ + l
        }
    }
}

/// Maps a friendly key name to a Minecraft key id.
pub fn to_mc_key(key: &str) -> (r: String)
    ensures
        r@ == mc_key(key@),
{
    let k = text::chars_of(key);
    let p = text::chars_of("key.");
    if text::starts_with_seq(k.as_slice(), p.as_slice()) {
        return key.to_owned();
    }
    let lv = text::ascii_lower_seq(k.as_slice());
    let l = text::string_of(lv.as_slice());
    let ls = l.as_str();
    if text::str_eq(ls, "space") {
        "key.keyboard.space".to_owned()
    } else if text::str_eq(ls, "escape") || text::str_eq(ls, "esc") {
        "key.keyboard.escape".to_owned()
    } else if text::str_eq(ls, "shift") || text::str_eq(ls, "sneak") {
        "key.keyboard.left.shift".to_owned()
    } else if text::str_eq(ls, "ctrl") || text::str_eq(ls, "sprint") {
        "key.keyboard.left.ctrl".to_owned()
    } else if text::str_eq(ls, "enter") || text::str_eq(ls, "return") {
        "key.keyboard.enter".to_owned()
    } else {
        text::concat2("key.keyboard.", ls)
    }
}

/// The control port recorded in a port file's text (trimmed), or the
/// default when there is none or it does not parse.
pub open spec fn port_from(content: Option<Seq<char>>) -> u16 {
    match content {
        Some(c) => match text::parse_u32(text::trim(c)) {
            Some(n) => if n <= 65535 {
                n as u16
            } else {
                DEFAULT_DESPOTES_PORT
            },
            None => DEFAULT_DESPOTES_PORT,
        },
        None => DEFAULT_DESPOTES_PORT,
    }
}

/// The control port from the port file's content (`None` when absent).
pub fn port_from_file(content: Option<&str>) -> (p: u16)
    ensures
        p == port_from(match content {
            Some(c) => Some(c@),
            None => None,
        }),
{
    match content {
        Some(c) => {
            let v = text::chars_of(c);
            let t = text::trim_seq(v.as_slice());
            match text::parse_u32_seq(t.as_slice()) {
                Some(n) => if n <= 65535 {
                    n as u16
                } else {
                    DEFAULT_DESPOTES_PORT
                },
                None => DEFAULT_DESPOTES_PORT,
            }
        },
        None => DEFAULT_DESPOTES_PORT,
    }
}


// ---------------------------------------------------------------------------
// Input commands
// ---------------------------------------------------------------------------

/// Game ticks a key or click is held for `ms` milliseconds (20 ticks per
/// second, at least one tick).
pub fn hold_ticks(ms: u64) -> (t: u64)
    ensures
        t == (if ms < 50 { 50 } else { ms }) / 50,
        t >= 1,
{
    let m = if ms < 50 { 50 } else { ms };
    m / 50
}

/// Button code of a screen click: `right` 1, `middle` 2, anything else 0.
pub fn click_button_code(button: &str) -> (c: u8)
    ensures
        c == (if button@ == "right"@ {
            1u8
        } else if button@ == "middle"@ {
            2u8
        } else {
            0u8
        }),
{
    if text::str_eq(button, "right") {
        1
    } else if text::str_eq(button, "middle") {
        2
    } else {
        0
    }
}

/// Operation of a screen click: `press` and `release` as given, anything
/// else a full click.
pub fn click_op(action: &str) -> (r: &'static str)
    ensures
        r@ == (if action@ == "press"@ {
            "press"@
        } else if action@ == "release"@ {
            "release"@
        } else {
            "click"@
        }),
{
    if text::str_eq(action, "press") {
        "press"
    } else if text::str_eq(action, "release") {
        "release"
    } else {
        "click"
    }
}

/// Interaction with what the crosshair is over, for a mouse button without
/// screen coordinates: `right` uses the held item, `middle` picks the block,
/// anything else attacks.
pub fn world_use_target(button: &str) -> (r: &'static str)
    ensures
        r@ == (if button@ == "right"@ {
            "useItem"@
        } else if button@ == "middle"@ {
            "pickBlock"@
        } else {
            "attack"@
        }),
{
    if text::str_eq(button, "right") {
        "useItem"
    } else if text::str_eq(button, "middle") {
        "pickBlock"
    } else {
        "attack"
    }
}

/// Where typed text goes: a leading `/` makes it a command, else chat.
pub fn chat_target(message: &str) -> (r: &'static str)
    ensures
        r@ == (if message@.len() > 0 && message@[0] == '/' {
            "command"@
        } else {
            "chat"@
        }),
{
    let c = text::chars_of(message);
    if c.len() > 0 && c[0] == '/' {
        "command"
    } else {
        "chat"
    }
}

/// Mode of a look command: a relative turn is a delta.
pub fn look_mode(relative: bool) -> (r: &'static str)
    ensures
        r@ == (if relative {
            "delta"@
        } else {
            "absolute"@
        }),
{
    if relative {
        "delta"
    } else {
        "absolute"
    }
}

/// The hotbar key (1 to 9) selected when the slot index moves by `delta`
/// from slot `current` (0-based), wrapping around the nine slots.
pub open spec fn hotbar_key_after(current: int, delta: int) -> int {
    (current + delta) % 9 + 1
}

/// The hotbar key to tap for a scroll: `delta` is the slot move (a wheel
/// step up selects the previous slot, so the negated rounded amount) and
/// `current` the selected slot.
pub fn hotbar_key_after_scroll(current: i64, delta: i64) -> (k: u32)
    requires
        i64::MIN <= current + delta <= i64::MAX,
    ensures
        k == hotbar_key_after(current as int, delta as int),
        1 <= k <= 9,
{
    let d: i128 = current as i128 + delta as i128;
    let r: u128 = if d >= 0 {
        (d as u128) % 9
    } else {
        let n: u128 = (-d) as u128;
        let m: u128 = n % 9;
        proof {
            let q = n / 9;
            assert(n == 9 * q + m) by (nonlinear_arith)
                requires
                    m == n % 9,
                    q == n / 9,
            ;
            if m == 0 {
                assert(d == 9 * (-q) + 0);
                vstd::arithmetic::div_mod::lemma_fundamental_div_mod_converse(d as int, 9, -q, 0);
            } else {
                assert(d == 9 * (-q - 1) + (9 - m));
                vstd::arithmetic::div_mod::lemma_fundamental_div_mod_converse(d as int, 9, -q - 1, 9 - m);
            }
        }
        if m == 0 {
            0
        } else {
            9 - m
        }
    };
    assert(r == (current + delta) % 9);
    (r + 1) as u32
}

} // verus!
