//! What the configurator's screen shows: the text of each row and which row is
//! highlighted. Drawing it is the caller's part.
use vstd::prelude::*;
use crate::cli::{slot_name_or, zone_name_or};
use crate::config::{format_binding, format_binding_spec};
use crate::text::{decimal_chars, hex_byte_chars, pad_right, push_decimal, push_hex_byte, push_padded};
use crate::tui::{action_list_spec, any_dirty, binding_action_list, cur, active_ok, App, AppView, Mode, Tab};
use crate::types::led_mode_name;

verus! {

/// One line of a list: its text and whether it is highlighted.
#[derive(Debug)]
pub struct Row {
    pub text: String,
    pub highlighted: bool,
}

pub open spec fn rows_view(v: Seq<Row>) -> Seq<(Seq<char>, bool)> {
    Seq::new(v.len(), |i: int| (v[i].text@, v[i].highlighted))
}

fn push_row(rows: &mut Vec<Row>, text: String, highlighted: bool)
    ensures
        rows_view(final(rows)@) == rows_view(old(rows)@).push((text@, highlighted)),
{
    let ghost prev = rows@;
    let ghost t = text@;
    rows.push(Row { text, highlighted });
    assert(rows_view(rows@) =~= rows_view(prev).push((t, highlighted)));
}

// --- Header ---

/// The tabs in the order the header shows them.
pub open spec fn tab_order() -> Seq<Tab> {
    seq![Tab::Buttons, Tab::Dpi, Tab::Leds, Tab::Settings]
}

/// The tabs in the order the header shows them.
pub fn all_tabs() -> (r: Vec<Tab>)
    ensures
        r@ == tab_order(),
{
    let r = vec![Tab::Buttons, Tab::Dpi, Tab::Leds, Tab::Settings];
    assert(r@ =~= tab_order());
    r
}

/// The position of the current tab in the header.
pub fn selected_tab(app: &App) -> (r: usize)
    ensures
        r < 4,
        tab_order()[r as int] == app@.tab,
{
    match app.tab {
        Tab::Buttons => 0,
        Tab::Dpi => 1,
        Tab::Leds => 2,
        Tab::Settings => 3,
    }
}

/// The profile numbers of the header, ` 1 `, ` 2 `, ...: one per profile of the device
/// (its profile count taken as a byte), the active one highlighted.
pub open spec fn profile_label_rows(a: AppView) -> Seq<(Seq<char>, bool)> {
    Seq::new((a.desc.num_profiles as u8) as nat, |i: int| (" "@ + decimal_chars((i + 1) as nat) + " "@, i == a.active_profile))
}

pub fn profile_labels(app: &App) -> (r: Vec<Row>)
    ensures
        rows_view(r@) == profile_label_rows(app@),
{
    let n = app.desc.num_profiles as u8;
    let mut rows: Vec<Row> = Vec::new();
    let mut i: u8 = 0;
    while i < n
        invariant
            n == (app@.desc.num_profiles as u8),
            i <= n,
            rows_view(rows@) == Seq::new(i as nat, |k: int| (" "@ + decimal_chars((k + 1) as nat) + " "@, k == app@.active_profile)),
        decreases n - i,
    {
        let mut s = String::from_str(" ");
        push_decimal(&mut s, i as usize + 1);
        s.append(" ");
        push_row(&mut rows, s, i == app.active_profile);
        assert(rows_view(rows@) =~= Seq::new((i + 1) as nat, |k: int| (" "@ + decimal_chars((k + 1) as nat) + " "@, k == app@.active_profile)));
        i = i + 1;
    }
    rows
}

// --- Content ---

pub open spec fn button_row_text(a: AppView, i: int) -> Seq<char> {
    "  "@ + pad_right(slot_name_or(a.desc, i, "?"@), 14) + " -> "@ + format_binding_spec(cur(a).buttons[i])
}

/// The rows of the buttons tab: each binding beside its slot's name, the cursor's row
/// highlighted in normal mode.
pub open spec fn button_rows_spec(a: AppView) -> Seq<(Seq<char>, bool)> {
    Seq::new(cur(a).buttons.len(), |i: int| (button_row_text(a, i), i == a.cursor && a.mode == Mode::Normal))
}

pub fn button_rows(app: &App) -> (r: Vec<Row>)
    requires
        active_ok(app@),
    ensures
        rows_view(r@) == button_rows_spec(app@),
{
    let ghost a = app@;
    let p = app.current_profile();
    let n = p.buttons.len();
    let mut rows: Vec<Row> = Vec::new();
    let mut i: usize = 0;
    while i < n
        invariant
            a == app@,
            p@ == cur(a),
            n == cur(a).buttons.len(),
            i <= n,
            rows_view(rows@) == Seq::new(i as nat, |k: int| (button_row_text(a, k), k == a.cursor && a.mode == Mode::Normal)),
        decreases n - i,
    {
        let name: &str = if i < app.desc.button_slots.len() { app.desc.button_slots[i].name() } else { "?" };
        assert(name@ == slot_name_or(a.desc, i as int, "?"@));
        let mut s = String::from_str("  ");
        push_padded(&mut s, name, 14);
        s.append(" -> ");
        let action = format_binding(&p.buttons[i]);
        s.append(action.as_str());
        push_row(&mut rows, s, i == app.cursor && app.mode == Mode::Normal);
        assert(rows_view(rows@) =~= Seq::new((i + 1) as nat, |k: int| (button_row_text(a, k), k == a.cursor && a.mode == Mode::Normal)));
        i = i + 1;
    }
    rows
}

/// The title of the buttons tab.
pub fn buttons_title(app: &App) -> (r: &'static str)
    ensures
        r@ == if app@.mode == Mode::Normal { "Buttons  [Enter] edit  [p] press to select"@ } else { "Buttons"@ },
{
    if app.mode == Mode::Normal {
        "Buttons  [Enter] edit  [p] press to select"
    } else {
        "Buttons"
    }
}

pub open spec fn dpi_row_text(a: AppView, i: int) -> Seq<char> {
    if a.mode == (Mode::EditingDpi { preset: i as usize }) {
        "  Preset "@ + decimal_chars((i + 1) as nat) + ": "@ + a.input_buf + "_ DPI"@
    } else {
        "  Preset "@ + decimal_chars((i + 1) as nat) + ": "@ + decimal_chars(cur(a).dpi_presets[i] as nat) + " DPI"@
    }
}

/// The rows of the DPI tab: each preset, or what is being typed for it, the cursor's row
/// highlighted.
pub open spec fn dpi_rows_spec(a: AppView) -> Seq<(Seq<char>, bool)> {
    Seq::new(cur(a).dpi_presets.len(), |i: int| (dpi_row_text(a, i), i == a.cursor))
}

pub fn dpi_rows(app: &App) -> (r: Vec<Row>)
    requires
        active_ok(app@),
    ensures
        rows_view(r@) == dpi_rows_spec(app@),
{
    let ghost a = app@;
    let p = app.current_profile();
    let n = p.settings.dpi_presets.len();
    let mut rows: Vec<Row> = Vec::new();
    let mut i: usize = 0;
    while i < n
        invariant
            a == app@,
            p@ == cur(a),
            n == cur(a).dpi_presets.len(),
            i <= n,
            rows_view(rows@) == Seq::new(i as nat, |k: int| (dpi_row_text(a, k), k == a.cursor)),
        decreases n - i,
    {
        let mut s = String::from_str("  Preset ");
        push_decimal(&mut s, i + 1);
        s.append(": ");
        if app.mode == (Mode::EditingDpi { preset: i }) {
            s.append(app.input_buf.as_str());
            s.append("_ DPI");
        } else {
            push_decimal(&mut s, p.settings.dpi_presets[i] as usize);
            s.append(" DPI");
        }
        push_row(&mut rows, s, i == app.cursor);
        assert(rows_view(rows@) =~= Seq::new((i + 1) as nat, |k: int| (dpi_row_text(a, k), k == a.cursor)));
        i = i + 1;
    }
    rows
}

/// One row of the LEDs tab: the zone's settings, its color (or what is being typed for
/// it), and the color itself for a swatch.
#[derive(Debug)]
pub struct LedRow {
    pub label: String,
    pub color: String,
    pub highlighted: bool,
    pub r: u8,
    pub g: u8,
    pub b: u8,
}

pub open spec fn led_label_text(a: AppView, i: int) -> Seq<char> {
    let l = cur(a).leds[i];
    "  "@ + pad_right(zone_name_or(a.desc, i, "?"@), 6) + "  mode="@ + pad_right(led_mode_name(l.mode), 10)
        + "  brightness="@ + decimal_chars(l.brightness as nat) + "  color="@
}

pub open spec fn led_color_text(a: AppView, i: int) -> Seq<char> {
    let l = cur(a).leds[i];
    if a.mode == (Mode::EditingLedColor { zone: i as usize }) {
        "#"@ + a.input_buf + "_"@
    } else {
        "#"@ + hex_byte_chars(l.r) + hex_byte_chars(l.g) + hex_byte_chars(l.b)
    }
}

pub open spec fn led_rows_view(v: Seq<LedRow>) -> Seq<(Seq<char>, Seq<char>, bool, u8, u8, u8)> {
    Seq::new(v.len(), |i: int| (v[i].label@, v[i].color@, v[i].highlighted, v[i].r, v[i].g, v[i].b))
}

/// The rows of the LEDs tab, the cursor's row highlighted.
pub open spec fn led_rows_spec(a: AppView) -> Seq<(Seq<char>, Seq<char>, bool, u8, u8, u8)> {
    Seq::new(cur(a).leds.len(), |i: int| {
        let l = cur(a).leds[i];
        (led_label_text(a, i), led_color_text(a, i), i == a.cursor, l.r, l.g, l.b)
    })
}

pub fn led_rows(app: &App) -> (r: Vec<LedRow>)
    requires
        active_ok(app@),
    ensures
        led_rows_view(r@) == led_rows_spec(app@),
{
    let ghost a = app@;
    let p = app.current_profile();
    let n = p.leds.len();
    let mut rows: Vec<LedRow> = Vec::new();
    let mut i: usize = 0;
    while i < n
        invariant
            a == app@,
            p@ == cur(a),
            n == cur(a).leds.len(),
            i <= n,
            led_rows_view(rows@) == Seq::new(i as nat, |k: int| {
                let l = cur(a).leds[k];
                (led_label_text(a, k), led_color_text(a, k), k == a.cursor, l.r, l.g, l.b)
            }),
        decreases n - i,
    {
        let led = p.leds[i];
        let zone: &str = if i < app.desc.led_names.len() { app.desc.led_names[i] } else { "?" };
        assert(zone@ == zone_name_or(a.desc, i as int, "?"@));
        let mut label = String::from_str("  ");
        push_padded(&mut label, zone, 6);
        label.append("  mode=");
        push_padded(&mut label, led.mode.name(), 10);
        label.append("  brightness=");
        push_decimal(&mut label, led.brightness as usize);
        label.append("  color=");
        let mut color = String::from_str("#");
        if app.mode == (Mode::EditingLedColor { zone: i }) {
            color.append(app.input_buf.as_str());
            color.append("_");
        } else {
            push_hex_byte(&mut color, led.r);
            push_hex_byte(&mut color, led.g);
            push_hex_byte(&mut color, led.b);
        }
        let ghost prev = rows@;
        let ghost lv = label@;
        let ghost cv = color@;
        rows.push(LedRow { label, color, highlighted: i == app.cursor, r: led.r, g: led.g, b: led.b });
        assert(led_rows_view(rows@) =~= led_rows_view(prev).push((lv, cv, i == app.cursor, led.r, led.g, led.b)));
        assert(led_rows_view(rows@) =~= Seq::new((i + 1) as nat, |k: int| {
            let l = cur(a).leds[k];
            (led_label_text(a, k), led_color_text(a, k), k == a.cursor, l.r, l.g, l.b)
        }));
        i = i + 1;
    }
    rows
}

/// The rows of the settings tab, the cursor's row highlighted.
pub open spec fn settings_rows_spec(a: AppView) -> Seq<(Seq<char>, bool)> {
    let p = cur(a);
    seq![
        ("  Polling rate:   "@ + decimal_chars(p.polling_rate as nat) + " Hz"@, a.cursor == 0),
        ("  Debounce:       "@ + decimal_chars(p.debounce_ms as nat) + " ms"@, a.cursor == 1),
        ("  Angle snapping: "@ + (if p.angle_snapping { "on"@ } else { "off"@ }), a.cursor == 2),
    ]
}

pub fn settings_rows(app: &App) -> (r: Vec<Row>)
    requires
        active_ok(app@),
    ensures
        rows_view(r@) == settings_rows_spec(app@),
{
    let p = app.current_profile();
    let mut rows: Vec<Row> = Vec::new();
    let mut s = String::from_str("  Polling rate:   ");
    push_decimal(&mut s, p.settings.polling_rate as usize);
    s.append(" Hz");
    push_row(&mut rows, s, app.cursor == 0);
    let mut s = String::from_str("  Debounce:       ");
    push_decimal(&mut s, p.settings.debounce_ms as usize);
    s.append(" ms");
    push_row(&mut rows, s, app.cursor == 1);
    let mut s = String::from_str("  Angle snapping: ");
    s.append(if p.settings.angle_snapping { "on" } else { "off" });
    push_row(&mut rows, s, app.cursor == 2);
    assert(rows_view(rows@) =~= settings_rows_spec(app@));
    rows
}

// --- Footer and popup ---

/// How the footer's line is shown.
#[derive(Debug, Clone, Copy, PartialEq, Eq, Structural)]
pub enum FooterKind {
    Info,
    Error,
    Help,
}

/// The footer: the status message when there is one, else the key help, marked when
/// anything is unsaved.
pub open spec fn footer_spec(a: AppView) -> (Seq<char>, FooterKind) {
    match a.status {
        Some(s) => (s.text, if s.is_error { FooterKind::Error } else { FooterKind::Info }),
        None => (
            " [q] quit  [s] save  [a] apply  [Tab] next tab  [1-"@ + decimal_chars(a.desc.num_profiles as nat) + "] profile"@
                + (if any_dirty(a) { " [modified]"@ } else { Seq::empty() }),
            FooterKind::Help,
        ),
    }
}

pub fn footer(app: &App) -> (r: (String, FooterKind))
    ensures
        (r.0@, r.1) == footer_spec(app@),
{
    match &app.status {
        Some(status) => {
            let kind = if status.is_error { FooterKind::Error } else { FooterKind::Info };
            (status.text.clone(), kind)
        },
        None => {
            let mut s = String::from_str(" [q] quit  [s] save  [a] apply  [Tab] next tab  [1-");
            push_decimal(&mut s, app.desc.num_profiles);
            s.append("] profile");
            let ghost help = s@;
            if app.is_any_dirty() {
                s.append(" [modified]");
            }
            assert(!any_dirty(app@) ==> s@ =~= help + Seq::<char>::empty());
            (s, FooterKind::Help)
        },
    }
}

/// The binding popup for `slot`: its title and one row per offered binding, the chosen
/// one highlighted.
pub open spec fn binding_popup_spec(a: AppView, slot: usize) -> (Seq<char>, Seq<(Seq<char>, bool)>) {
    (
        "Bind: "@ + slot_name_or(a.desc, slot as int, "?"@) + " [Enter] select [Esc] cancel"@,
        Seq::new(action_list_spec().len(), |i: int| ("  "@ + action_list_spec()[i].0, i == a.binding_cursor)),
    )
}

pub fn binding_popup(app: &App, slot: usize) -> (r: (String, Vec<Row>))
    ensures
        r.0@ == binding_popup_spec(app@, slot).0,
        rows_view(r.1@) == binding_popup_spec(app@, slot).1,
{
    let ghost a = app@;
    let name: &str = if slot < app.desc.button_slots.len() { app.desc.button_slots[slot].name() } else { "?" };
    let mut title = String::from_str("Bind: ");
    title.append(name);
    title.append(" [Enter] select [Esc] cancel");
    let actions = binding_action_list();
    let n = actions.len();
    let mut rows: Vec<Row> = Vec::new();
    let mut i: usize = 0;
    while i < n
        invariant
            a == app@,
            n == actions@.len(),
            n == action_list_spec().len(),
            forall|k: int| 0 <= k < n ==> (#[trigger] actions@[k]).0@ == action_list_spec()[k].0,
            i <= n,
            rows_view(rows@) == Seq::new(i as nat, |k: int| ("  "@ + action_list_spec()[k].0, k == a.binding_cursor)),
        decreases n - i,
    {
        let mut s = String::from_str("  ");
        s.append(actions[i].0);
        push_row(&mut rows, s, i == app.binding_cursor);
        assert(rows_view(rows@) =~= Seq::new((i + 1) as nat, |k: int| ("  "@ + action_list_spec()[k].0, k == a.binding_cursor)));
        i = i + 1;
    }
    (title, rows)
}

} // verus!
