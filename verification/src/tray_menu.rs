//! The tray menu's quick-switch items: how an input code is written into a
//! menu item's id and label, and what a clicked item's id asks for.
use crate::text::{
    all_digits, chars_of, digits_value, hex_text, lemma_radix_text_value, parse_unsigned, parse_unsigned_range,
    push_padded_radix_text, push_str, same_chars, string_from_chars, unsigned_digits, zero_padded, digit_value,
};
use crate::trigger::TriggerEvent;
use vstd::prelude::*;

verus! {

/// What a click on a tray menu item asks for.
#[derive(Clone, Copy, Debug, PartialEq, Eq, Structural)]
pub enum TrayAction {
    /// Show the main window.
    Open,
    /// Exit the application.
    Quit,
    /// Switch to the input with this raw value.
    Switch(u16),
    /// Nothing.
    Ignore,
}

/// An input code as the quick-switch items write it: `0x` and two lowercase
/// hexadecimal digits (`{:#04x}`).
pub open spec fn code_text(code: u8) -> Seq<char> {
    seq!['0', 'x'] + zero_padded(hex_text(code as nat, false), 2)
}

/// The id of the quick-switch item for an input code.
pub open spec fn switch_item_id(code: u8) -> Seq<char> {
    "switch:"@ + code_text(code)
}

/// The label of the quick-switch item for an input code.
pub open spec fn switch_item_label(code: u8) -> Seq<char> {
    "Switch to "@ + code_text(code)
}

/// `s` with every leading repetition of `p` removed (`str::trim_start_matches`).
pub open spec fn strip_leading(s: Seq<char>, p: Seq<char>) -> Seq<char>
    decreases s.len(),
{
    if p.len() > 0 && p.len() <= s.len() && s.take(p.len() as int) == p {
        strip_leading(s.skip(p.len() as int), p)
    } else {
        s
    }
}

/// What a clicked item's id asks for: `open`, `quit`, or, for an id that
/// starts with `switch:`, a switch to the hexadecimal value that follows the
/// leading `switch:0x` repetitions (nothing when that is no `u16`).
pub open spec fn action_of(id: Seq<char>) -> TrayAction {
    if id == "open"@ {
        TrayAction::Open
    } else if id == "quit"@ {
        TrayAction::Quit
    } else if id.len() >= 7 && id.take(7) == "switch:"@ {
        match parse_unsigned(strip_leading(id, "switch:0x"@), 16, 0xffff) {
            Some(v) => TrayAction::Switch(v as u16),
            None => TrayAction::Ignore,
        }
    } else {
        TrayAction::Ignore
    }
}

fn push_code_text(out: &mut Vec<char>, code: u8)
    ensures
        final(out)@ == old(out)@ + code_text(code),
{
    out.push('0');
    out.push('x');
    push_padded_radix_text(out, code as u32, 16, false, 2);
    assert(final(out)@ =~= old(out)@ + code_text(code));
}

/// The id of the quick-switch item for `code`.
pub fn quick_switch_item_id(code: u8) -> (r: String)
    ensures
        r@ == switch_item_id(code),
{
    let mut out: Vec<char> = Vec::new();
    push_str(&mut out, "switch:");
    push_code_text(&mut out, code);
    string_from_chars(&out)
}

/// The label of the quick-switch item for `code`.
pub fn quick_switch_item_label(code: u8) -> (r: String)
    ensures
        r@ == switch_item_label(code),
{
    let mut out: Vec<char> = Vec::new();
    push_str(&mut out, "Switch to ");
    push_code_text(&mut out, code);
    string_from_chars(&out)
}

/// `s[i..]` starts with `p`.
fn starts_with_at(s: &Vec<char>, i: usize, p: &Vec<char>) -> (r: bool)
    requires
        i <= s.len(),
    ensures
        r == (p.len() <= s.len() - i && s@.skip(i as int).take(p.len() as int) == p@),
{
    if p.len() > s.len() - i {
        return false;
    }
    let mut k: usize = 0;
    while k < p.len()
        invariant
            p.len() <= s.len() - i,
            k <= p.len(),
            forall|j: int| 0 <= j < k ==> s@[i + j] == p@[j],
        decreases p.len() - k,
    {
        if s[i + k] != p[k] {
            assert(s@.skip(i as int).take(p.len() as int)[k as int] == s@[i + k]);
            return false;
        }
        k = k + 1;
    }
    assert(s@.skip(i as int).take(p.len() as int) =~= p@);
    true
}

/// What a click on the tray menu item with id `id` asks for.
pub fn tray_action(id: &str) -> (r: TrayAction)
    ensures
        r == action_of(id@),
{
    let chars = chars_of(id);
    if same_chars(&chars, "open") {
        return TrayAction::Open;
    }
    if same_chars(&chars, "quit") {
        return TrayAction::Quit;
    }
    let prefix = chars_of("switch:");
    if !starts_with_at(&chars, 0, &prefix) {
        proof {
            reveal_strlit("switch:");
            assert(chars@.skip(0) =~= chars@);
        }
        return TrayAction::Ignore;
    }
    proof {
        reveal_strlit("switch:");
        assert(chars@.skip(0) =~= chars@);
    }
    let repeated = chars_of("switch:0x");
    proof {
        reveal_strlit("switch:0x");
    }
    let mut i: usize = 0;
    while starts_with_at(&chars, i, &repeated)
        invariant
            i <= chars.len(),
            repeated@ == "switch:0x"@,
            repeated@.len() == 9,
            strip_leading(chars@, repeated@) == strip_leading(chars@.skip(i as int), repeated@),
        decreases chars.len() - i,
    {
        assert(chars@.skip(i as int).skip(9) =~= chars@.skip(i + 9));
        i = i + 9;
    }
    assert(strip_leading(chars@.skip(i as int), repeated@) == chars@.skip(i as int));
    assert(chars@.subrange(i as int, chars.len() as int) =~= chars@.skip(i as int));
    match parse_unsigned_range(&chars, i, chars.len(), 16, 0xffff) {
        Some(v) => TrayAction::Switch(v as u16),
        None => TrayAction::Ignore,
    }
}

/// A leading `0` does not change a number's value.
proof fn lemma_leading_zero(s: Seq<char>, radix: nat)
    ensures
        digits_value(seq!['0'] + s, radix) == digits_value(s, radix),
    decreases s.len(),
{
    let z = seq!['0'] + s;
    if s.len() == 0 {
        assert(z.drop_last() =~= Seq::<char>::empty());
        assert(digits_value(z.drop_last(), radix) == 0);
        assert(digit_value('0') == 0);
        assert(0 * radix == 0);
    } else {
        assert(z.drop_last() =~= seq!['0'] + s.drop_last());
        assert(z.last() == s.last());
        lemma_leading_zero(s.drop_last(), radix);
    }
}

proof fn lemma_zero_padded_value(s: Seq<char>, width: nat, radix: nat)
    requires
        radix > 0,
        all_digits(s, radix),
    ensures
        digits_value(zero_padded(s, width), radix) == digits_value(s, radix),
        all_digits(zero_padded(s, width), radix),
        zero_padded(s, width).len() >= s.len(),
    decreases width,
{
    if s.len() < width {
        let shorter = zero_padded(s, (width - 1) as nat);
        lemma_zero_padded_value(s, (width - 1) as nat, radix);
        assert(zero_padded(s, width) =~= seq!['0'] + shorter);
        lemma_leading_zero(shorter, radix);
        assert forall|i: int| 0 <= i < zero_padded(s, width).len() implies digit_value(
            #[trigger] zero_padded(s, width)[i],
        ) < radix by {
            if i > 0 {
                assert(zero_padded(s, width)[i] == shorter[i - 1]);
            }
        }
    }
}

/// Clicking the quick-switch item built for an input code asks for a
/// switch to exactly that code.
pub proof fn lemma_switch_item_round_trip(code: u8)
    ensures
        action_of(switch_item_id(code)) == TrayAction::Switch(code as u16),
{
    reveal_strlit("switch:");
    reveal_strlit("switch:0x");
    reveal_strlit("open");
    reveal_strlit("quit");
    let h = hex_text(code as nat, false);
    lemma_radix_text_value(code as nat, 16, false);
    lemma_zero_padded_value(h, 2, 16);
    let digits = zero_padded(h, 2);
    let id = switch_item_id(code);
    assert(id =~= "switch:0x"@ + digits);
    assert(id.skip(9) =~= digits);
    assert(id.take(9) =~= "switch:0x"@);
    assert(id.take(7) =~= "switch:"@);
    // the digits do not start another `switch:0x`
    assert(strip_leading(digits, "switch:0x"@) == digits) by {
        if digits.len() >= 9 {
            assert(digit_value(digits[0]) < 16);
            assert(digits.take(9)[0] == digits[0]);
        }
    }
    assert(strip_leading(id, "switch:0x"@) == digits);
    assert(unsigned_digits(digits) == digits);
    assert(parse_unsigned(digits, 16, 0xffff) == Some(code as nat));
}

// ---------------------------------------------------------------------------
// The tray menu's items and the keyboard status
// ---------------------------------------------------------------------------

/// A menu item: its id, label, and whether it can be clicked.
#[derive(Clone, Debug, PartialEq, Eq)]
pub struct TrayItem {
    pub id: String,
    pub label: String,
    pub enabled: bool,
}

pub open spec fn item_view(item: TrayItem) -> (Seq<char>, Seq<char>, bool) {
    (item.id@, item.label@, item.enabled)
}

/// The tray menu: Open, the keyboard status (not clickable), one
/// quick-switch item per input code, in order, and Quit.
pub open spec fn tray_items(codes: Seq<u8>) -> Seq<(Seq<char>, Seq<char>, bool)> {
    seq![("open"@, "Open"@, true), ("mxkeys-status"@, "MX Keys: unknown"@, false)] + Seq::new(
        codes.len(),
        |i: int| (switch_item_id(codes[i]), switch_item_label(codes[i]), true),
    ) + seq![("quit"@, "Quit"@, true)]
}

/// In the tray menu for any input codes, every item but the keyboard status
/// (the second) can be clicked; the first asks to open the window, the last
/// to quit, and the one after the status for each code, in order, asks for
/// a switch to exactly that code.
pub proof fn lemma_tray_items_act(codes: Seq<u8>)
    ensures
        tray_items(codes).len() == codes.len() + 3,
        forall|i: int| 0 <= i < tray_items(codes).len() ==> (#[trigger] tray_items(codes)[i].2 <==> i != 1),
        action_of(tray_items(codes)[0].0) == TrayAction::Open,
        action_of(tray_items(codes)[codes.len() + 2int].0) == TrayAction::Quit,
        forall|i: int|
            0 <= i < codes.len() ==> action_of(#[trigger] tray_items(codes)[i + 2].0) == TrayAction::Switch(
                codes[i] as u16,
            ),
{
    reveal_strlit("open");
    reveal_strlit("quit");
    let t = tray_items(codes);
    assert(t[0].0 == "open"@);
    assert(t[codes.len() + 2int].0 == "quit"@);
    assert("quit"@[0] != "open"@[0]);
    assert forall|i: int| 0 <= i < t.len() implies (#[trigger] t[i].2 <==> i != 1) by {
        if 2 <= i < codes.len() + 2 {
            assert(t[i] == (switch_item_id(codes[i - 2]), switch_item_label(codes[i - 2]), true));
        }
    }
    assert forall|i: int| 0 <= i < codes.len() implies action_of(#[trigger] t[i + 2].0) == TrayAction::Switch(
        codes[i] as u16,
    ) by {
        assert(t[i + 2].0 == switch_item_id(codes[i]));
        lemma_switch_item_round_trip(codes[i]);
    }
}

fn item(id: &str, label: &str, enabled: bool) -> (r: TrayItem)
    ensures
        item_view(r) == (id@, label@, enabled),
{
    TrayItem { id: id.to_string(), label: label.to_string(), enabled }
}

/// Builds the tray menu's items for the input codes the display reports
/// (none when there is no configuration or the display did not answer).
pub fn quick_switch_items(codes: &Vec<u8>) -> (r: Vec<TrayItem>)
    ensures
        r@.map_values(|i: TrayItem| item_view(i)) == tray_items(codes@),
        r@.len() == codes@.len() + 3,
        forall|i: int| 0 <= i < r@.len() ==> (#[trigger] r@[i].enabled <==> i != 1),
        action_of(r@[0].id@) == TrayAction::Open,
        action_of(r@[codes@.len() + 2int].id@) == TrayAction::Quit,
        forall|i: int|
            0 <= i < codes@.len() ==> action_of(#[trigger] r@[i + 2].id@) == TrayAction::Switch(
                codes@[i] as u16,
            ),
{
    let mut items: Vec<TrayItem> = Vec::new();
    items.push(item("open", "Open", true));
    items.push(item("mxkeys-status", "MX Keys: unknown", false));
    let ghost head = seq![("open"@, "Open"@, true), ("mxkeys-status"@, "MX Keys: unknown"@, false)];
    assert(items@.map_values(|i: TrayItem| item_view(i)) =~= head);
    let mut k: usize = 0;
    while k < codes.len()
        invariant
            k <= codes.len(),
            items@.map_values(|i: TrayItem| item_view(i)) == head + Seq::new(
                k as nat,
                |i: int| (switch_item_id(codes@[i]), switch_item_label(codes@[i]), true),
            ),
        decreases codes.len() - k,
    {
        let code = codes[k];
        let new_item = TrayItem {
            id: quick_switch_item_id(code),
            label: quick_switch_item_label(code),
            enabled: true,
        };
        let ghost prev = items@.map_values(|i: TrayItem| item_view(i));
        items.push(new_item);
        assert(items@.map_values(|i: TrayItem| item_view(i)) =~= prev.push(item_view(new_item)));
        assert(prev.push(item_view(new_item)) =~= head + Seq::new(
            (k + 1) as nat,
            |i: int| (switch_item_id(codes@[i]), switch_item_label(codes@[i]), true),
        ));
        k = k + 1;
    }
    let ghost before = items@.map_values(|i: TrayItem| item_view(i));
    items.push(item("quit", "Quit", true));
    assert(items@.map_values(|i: TrayItem| item_view(i)) =~= before.push(("quit"@, "Quit"@, true)));
    assert(Seq::new(codes@.len(), |i: int| (switch_item_id(codes@[i]), switch_item_label(codes@[i]), true))
        =~= Seq::new(codes.len() as nat, |i: int| (switch_item_id(codes@[i]), switch_item_label(codes@[i]), true)));
    assert(items@.map_values(|i: TrayItem| item_view(i)) =~= tray_items(codes@));
    proof {
        lemma_tray_items_act(codes@);
        let v = items@.map_values(|i: TrayItem| item_view(i));
        assert forall|i: int| 0 <= i < items@.len() implies (#[trigger] items@[i].enabled <==> i != 1) by {
            assert(v[i] == item_view(items@[i]));
            assert(tray_items(codes@)[i].2 <==> i != 1);
        }
        assert(v[0] == item_view(items@[0]));
        assert(v[codes@.len() + 2int] == item_view(items@[codes@.len() + 2int]));
        assert forall|i: int| 0 <= i < codes@.len() implies action_of(#[trigger] items@[i + 2].id@)
            == TrayAction::Switch(codes@[i] as u16) by {
            assert(v[i + 2] == item_view(items@[i + 2]));
            assert(action_of(tray_items(codes@)[i + 2].0) == TrayAction::Switch(codes@[i] as u16));
        }
    }
    items
}

/// The keyboard receiver is on this host after `event`.
pub open spec fn keyboard_present(event: TriggerEvent) -> bool {
    event == TriggerEvent::HostGainedFocus
}

/// The status item's text for whether the keyboard is present.
pub open spec fn keyboard_status_text(present: bool) -> Seq<char> {
    if present {
        "MX Keys: connected"@
    } else {
        "MX Keys: not connected"@
    }
}

/// What a hotplug event of the keyboard receiver means for the status:
/// whether it is present, and the status item's text.
pub fn mxkeys_status(event: TriggerEvent) -> (r: (bool, &'static str))
    ensures
        r.0 == keyboard_present(event),
        r.1@ == keyboard_status_text(r.0),
{
    match event {
        TriggerEvent::HostGainedFocus => (true, "MX Keys: connected"),
        TriggerEvent::HostLostFocus => (false, "MX Keys: not connected"),
    }
}

} // verus!
