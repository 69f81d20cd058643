//! The setting normalizer and the camera controller.
//!
//! A camera driver reports each setting as a widget of one of seven
//! kinds. The normalizer maps a widget onto the uniform
//! [`CameraConfig`] record when reading, and maps a client-supplied
//! raw string back onto the widget's kind when writing. The
//! [`CameraController`] here is the deterministic simulated driver: it
//! serves a fixed table of three canned settings behind the same
//! interface that a real-hardware adapter offers, so every layer above
//! it can be exercised without a camera.

use vstd::prelude::*;

use crate::data::{CameraConfig, ConfigModel};
use crate::numeric::{i64_to_dec_string, is_float_literal, spec_int_str, spec_is_float_literal};

verus! {

broadcast use vstd::seq_lib::group_seq_lib_default, vstd::seq::group_seq_axioms;

// ---------------------------------------------------------------------
// Widgets
// ---------------------------------------------------------------------
/// Mathematical model of a [`Widget`].
pub ghost enum WidgetModel {
    Group,
    Text { value: Seq<char>, readonly: bool },
    Range { value: Seq<char>, readonly: bool },
    Toggle { toggled: Option<bool>, readonly: bool },
    Radio { choice: Seq<char>, choices: Seq<Seq<char>>, readonly: bool },
    Button,
    Date { timestamp: i64, readonly: bool },
}

/// One driver-reported setting: a kind with its kind-specific
/// capabilities. `Group` is a non-leaf node and `Button` a stateless
/// trigger; neither carries an inspectable value. A `Range` value
/// arrives already stringified; a `Date` is its timestamp.
#[derive(Clone, Debug, PartialEq)]
pub enum Widget {
    Group,
    Text { value: String, readonly: bool },
    Range { value: String, readonly: bool },
    Toggle { toggled: Option<bool>, readonly: bool },
    Radio { choice: String, choices: Vec<String>, readonly: bool },
    Button,
    Date { timestamp: i64, readonly: bool },
}

impl View for Widget {
    type V = WidgetModel;

    open spec fn view(&self) -> WidgetModel {
        match self {
            Widget::Group => WidgetModel::Group,
            Widget::Text { value, readonly } => WidgetModel::Text {
                value: value@,
                readonly: *readonly,
            },
            Widget::Range { value, readonly } => WidgetModel::Range {
                value: value@,
                readonly: *readonly,
            },
            Widget::Toggle { toggled, readonly } => WidgetModel::Toggle {
                toggled: *toggled,
                readonly: *readonly,
            },
            Widget::Radio { choice, choices, readonly } => WidgetModel::Radio {
                choice: choice@,
                choices: choices.deep_view(),
                readonly: *readonly,
            },
            Widget::Button => WidgetModel::Button,
            Widget::Date { timestamp, readonly } => WidgetModel::Date {
                timestamp: *timestamp,
                readonly: *readonly,
            },
        }
    }
}

/// Whether a widget is marked read-only. The kinds that carry no
/// value are treated as read-only.
pub open spec fn spec_widget_readonly(w: WidgetModel) -> bool {
    match w {
        WidgetModel::Group => true,
        WidgetModel::Text { readonly, .. } => readonly,
        WidgetModel::Range { readonly, .. } => readonly,
        WidgetModel::Toggle { readonly, .. } => readonly,
        WidgetModel::Radio { readonly, .. } => readonly,
        WidgetModel::Button => true,
        WidgetModel::Date { readonly, .. } => readonly,
    }
}

/// The declared choice set of a widget; empty for every kind but
/// `Radio`.
pub open spec fn spec_widget_choices(w: WidgetModel) -> Seq<Seq<char>> {
    match w {
        WidgetModel::Radio { choices, .. } => choices,
        _ => Seq::empty(),
    }
}

// ---------------------------------------------------------------------
// Reading: widget to record
// ---------------------------------------------------------------------
/// The record a widget normalizes to on a read, or nothing for the
/// structural and action-only kinds. An indeterminate toggle
/// collapses to `false`, not to absence.
pub open spec fn spec_record_of_widget(id: Seq<char>, w: WidgetModel) -> Option<ConfigModel> {
    match w {
        WidgetModel::Group => None,
        WidgetModel::Text { value, readonly } => Some(
            ConfigModel { id, value, choices: Seq::empty(), readonly },
        ),
        WidgetModel::Range { value, readonly } => Some(
            ConfigModel { id, value, choices: Seq::empty(), readonly },
        ),
        WidgetModel::Toggle { toggled, readonly } => Some(
            ConfigModel {
                id,
                value: if toggled == Some(true) {
                    "true"@
                } else {
                    "false"@
                },
                choices: Seq::empty(),
                readonly,
            },
        ),
        WidgetModel::Radio { choice, choices, readonly } => Some(
            ConfigModel { id, value: choice, choices, readonly },
        ),
        WidgetModel::Button => None,
        WidgetModel::Date { timestamp, readonly } => Some(
            ConfigModel {
                id,
                value: spec_int_str(timestamp as int),
                choices: Seq::empty(),
                readonly,
            },
        ),
    }
}

/// Normalizes one widget to the uniform record shape.
pub fn widget_to_record(id: &str, w: &Widget) -> (r: Option<CameraConfig>)
    ensures
        match r {
            Some(c) => spec_record_of_widget(id@, w@) == Some(c@),
            None => spec_record_of_widget(id@, w@) is None,
        },
{
    match w {
        Widget::Group => None,
        Widget::Text { value, readonly } => {
            let c = CameraConfig {
                id: id.to_owned(),
                value: value.clone(),
                choices: Vec::new(),
                readonly: *readonly,
            };
            proof {
                assert(c@.choices =~= Seq::<Seq<char>>::empty());
            }
            Some(c)
        },
        Widget::Range { value, readonly } => {
            let c = CameraConfig {
                id: id.to_owned(),
                value: value.clone(),
                choices: Vec::new(),
                readonly: *readonly,
            };
            proof {
                assert(c@.choices =~= Seq::<Seq<char>>::empty());
            }
            Some(c)
        },
        Widget::Toggle { toggled, readonly } => {
            let value = match toggled {
                Some(true) => "true".to_owned(),
                _ => "false".to_owned(),
            };
            let c = CameraConfig {
                id: id.to_owned(),
                value,
                choices: Vec::new(),
                readonly: *readonly,
            };
            proof {
                assert(c@.choices =~= Seq::<Seq<char>>::empty());
            }
            Some(c)
        },
        Widget::Radio { choice, choices, readonly } => {
            let c = CameraConfig {
                id: id.to_owned(),
                value: choice.clone(),
                choices: clone_string_vec(choices),
                readonly: *readonly,
            };
            Some(c)
        },
        Widget::Button => None,
        Widget::Date { timestamp, readonly } => {
            let c = CameraConfig {
                id: id.to_owned(),
                value: i64_to_dec_string(*timestamp),
                choices: Vec::new(),
                readonly: *readonly,
            };
            proof {
                assert(c@.choices =~= Seq::<Seq<char>>::empty());
            }
            Some(c)
        },
    }
}

/// Copies a vector of strings.
fn clone_string_vec(v: &Vec<String>) -> (r: Vec<String>)
    ensures
        r.deep_view() == v.deep_view(),
{
    let mut out: Vec<String> = Vec::new();
    let mut i: usize = 0;
    while i < v.len()
        invariant
            i <= v.len(),
            out.deep_view() =~= v.deep_view().take(i as int),
        decreases v.len() - i,
    {
        let ghost prev = out.deep_view();
        let x = v[i].clone();
        proof {
            assert(x@ == v.deep_view()[i as int]);
        }
        out.push(x);
        proof {
            assert(out.deep_view() =~= prev.push(x@));
            assert(prev.push(x@) =~= v.deep_view().take(i as int + 1));
        }
        i += 1;
    }
    proof {
        assert(out.deep_view() =~= v.deep_view());
    }
    out
}

// ---------------------------------------------------------------------
// Writing: raw string to plan
// ---------------------------------------------------------------------
/// Mathematical model of a [`WritePlan`].
pub ghost enum WritePlanModel {
    Reject,
    SetText(Seq<char>),
    SetNumeric(Seq<char>),
    SetToggle(bool),
    SetChoice(Seq<char>),
}

/// What a write request asks the driver to commit, after the raw
/// value has been interpreted against the widget's kind; or a
/// rejection where the kind is not settable or the value does not
/// parse.
#[derive(Clone, Debug, PartialEq)]
pub enum WritePlan {
    Reject,
    SetText(String),
    SetNumeric(String),
    SetToggle(bool),
    SetChoice(String),
}

impl View for WritePlan {
    type V = WritePlanModel;

    open spec fn view(&self) -> WritePlanModel {
        match self {
            WritePlan::Reject => WritePlanModel::Reject,
            WritePlan::SetText(s) => WritePlanModel::SetText(s@),
            WritePlan::SetNumeric(s) => WritePlanModel::SetNumeric(s@),
            WritePlan::SetToggle(b) => WritePlanModel::SetToggle(*b),
            WritePlan::SetChoice(s) => WritePlanModel::SetChoice(s@),
        }
    }
}

/// The fixed truth table of a toggle write: exactly `true`, `t` and
/// `1` mean true; `false`, `f`, `0` and every other string mean
/// false. A toggle write never fails on parsing.
pub open spec fn spec_toggle_value(s: Seq<char>) -> bool {
    s == "true"@ || s == "t"@ || s == "1"@
}

/// How a raw written value lands on a widget: text passes through
/// verbatim, a range value must look like a floating-point number, a
/// toggle goes through the fixed truth table, a radio value is handed
/// to the driver to validate against the choice set, and the group,
/// button and date kinds reject every write.
pub open spec fn spec_plan_write(w: WidgetModel, raw: Seq<char>) -> WritePlanModel {
    match w {
        WidgetModel::Group => WritePlanModel::Reject,
        WidgetModel::Text { .. } => WritePlanModel::SetText(raw),
        WidgetModel::Range { .. } => {
            if spec_is_float_literal(raw) {
                WritePlanModel::SetNumeric(raw)
            } else {
                WritePlanModel::Reject
            }
        },
        WidgetModel::Toggle { .. } => WritePlanModel::SetToggle(spec_toggle_value(raw)),
        WidgetModel::Radio { .. } => WritePlanModel::SetChoice(raw),
        WidgetModel::Button => WritePlanModel::Reject,
        WidgetModel::Date { .. } => WritePlanModel::Reject,
    }
}

/// Compares two strings by their characters.
fn str_eq(a: &str, b: &str) -> (r: bool)
    ensures
        r == (a@ == b@),
{
    a.to_owned() == b.to_owned()
}

/// Applies the toggle truth table to a raw written value.
pub fn parse_toggle(raw: &str) -> (r: bool)
    ensures
        r == spec_toggle_value(raw@),
{
    str_eq(raw, "true") || str_eq(raw, "t") || str_eq(raw, "1")
}

/// Interprets a raw written value against a widget's kind.
pub fn plan_write(w: &Widget, raw: &str) -> (r: WritePlan)
    ensures
        r@ == spec_plan_write(w@, raw@),
{
    match w {
        Widget::Group => WritePlan::Reject,
        Widget::Text { .. } => WritePlan::SetText(raw.to_owned()),
        Widget::Range { .. } => {
            if is_float_literal(raw) {
                WritePlan::SetNumeric(raw.to_owned())
            } else {
                WritePlan::Reject
            }
        },
        Widget::Toggle { .. } => WritePlan::SetToggle(parse_toggle(raw)),
        Widget::Radio { .. } => WritePlan::SetChoice(raw.to_owned()),
        Widget::Button => WritePlan::Reject,
        Widget::Date { .. } => WritePlan::Reject,
    }
}

// ---------------------------------------------------------------------
// The simulated driver's canned table
// ---------------------------------------------------------------------
/// The choice set of the canned sensitivity setting.
pub open spec fn spec_iso_choices() -> Seq<Seq<char>> {
    seq!["100"@, "200"@, "400"@, "800"@, "1600"@, "3200"@, "6400"@, "12800"@, "25600"@]
}

/// The choice set of the canned shutter-speed setting.
pub open spec fn spec_shutterspeed_choices() -> Seq<Seq<char>> {
    seq![
        "0.0002s"@, "0.0003s"@, "0.0004s"@, "0.0005s"@, "0.0006s"@, "0.0008s"@, "0.0010s"@,
        "0.0012s"@, "0.0015s"@, "0.0020s"@, "0.0025s"@, "0.0031s"@, "0.0040s"@, "0.0050s"@,
        "0.0062s"@, "0.0080s"@, "0.0100s"@, "0.0125s"@, "0.0166s"@, "0.0200s"@, "0.0250s"@,
        "0.0333s"@, "0.0400s"@, "0.0500s"@, "0.0666s"@, "0.0769s"@, "0.1000s"@, "0.1250s"@,
        "0.1666s"@, "0.2000s"@, "0.2500s"@, "0.3333s"@, "0.4000s"@, "0.5000s"@, "0.6250s"@,
        "0.7692s"@, "1.0000s"@, "1.3000s"@, "1.6000s"@, "2.0000s"@, "2.5000s"@, "3.0000s"@,
        "4.0000s"@, "5.0000s"@, "6.0000s"@, "8.0000s"@, "10.0000s"@, "13.0000s"@, "15.0000s"@,
        "20.0000s"@, "25.0000s"@, "30.0000s"@,
    ]
}

/// The choice set of the canned aperture setting.
pub open spec fn spec_fnumber_choices() -> Seq<Seq<char>> {
    seq![
        "f/4.5"@, "f/5"@, "f/5.6"@, "f/6.3"@, "f/7.1"@, "f/8"@, "f/9"@, "f/10"@, "f/11"@,
        "f/13"@, "f/14"@, "f/16"@, "f/18"@, "f/20"@, "f/22"@,
    ]
}

/// The widget the simulated driver reports for a setting identifier:
/// three canned radio settings, the aperture one marked read-only.
pub open spec fn spec_sim_widget(id: Seq<char>) -> Option<WidgetModel> {
    if id == "iso"@ {
        Some(
            WidgetModel::Radio {
                choice: "12800"@,
                choices: spec_iso_choices(),
                readonly: false,
            },
        )
    } else if id == "shutterspeed"@ {
        Some(
            WidgetModel::Radio {
                choice: "0.0050s"@,
                choices: spec_shutterspeed_choices(),
                readonly: false,
            },
        )
    } else if id == "f-number"@ {
        Some(
            WidgetModel::Radio {
                choice: "f/14"@,
                choices: spec_fnumber_choices(),
                readonly: true,
            },
        )
    } else {
        None
    }
}

/// The setting identifiers the simulated driver enumerates, in order.
pub open spec fn spec_sim_ids() -> Seq<Seq<char>> {
    seq!["iso"@, "shutterspeed"@, "f-number"@]
}

/// Builds the canned widget for one setting identifier.
fn sim_widget(option: &str) -> (r: Option<Widget>)
    ensures
        match r {
            Some(w) => spec_sim_widget(option@) == Some(w@),
            None => spec_sim_widget(option@) is None,
        },
{
    if str_eq(option, "iso") {
        let mut choices: Vec<String> = Vec::new();
        choices.push("100".to_owned());
        choices.push("200".to_owned());
        choices.push("400".to_owned());
        choices.push("800".to_owned());
        choices.push("1600".to_owned());
        choices.push("3200".to_owned());
        choices.push("6400".to_owned());
        choices.push("12800".to_owned());
        choices.push("25600".to_owned());
        proof {
            assert(choices.deep_view() =~= spec_iso_choices());
        }
        Some(Widget::Radio { choice: "12800".to_owned(), choices, readonly: false })
    } else if str_eq(option, "shutterspeed") {
        let mut choices: Vec<String> = Vec::new();
        choices.push("0.0002s".to_owned());
        choices.push("0.0003s".to_owned());
        choices.push("0.0004s".to_owned());
        choices.push("0.0005s".to_owned());
        choices.push("0.0006s".to_owned());
        choices.push("0.0008s".to_owned());
        choices.push("0.0010s".to_owned());
        choices.push("0.0012s".to_owned());
        choices.push("0.0015s".to_owned());
        choices.push("0.0020s".to_owned());
        choices.push("0.0025s".to_owned());
        choices.push("0.0031s".to_owned());
        choices.push("0.0040s".to_owned());
        choices.push("0.0050s".to_owned());
        choices.push("0.0062s".to_owned());
        choices.push("0.0080s".to_owned());
        choices.push("0.0100s".to_owned());
        choices.push("0.0125s".to_owned());
        choices.push("0.0166s".to_owned());
        choices.push("0.0200s".to_owned());
        choices.push("0.0250s".to_owned());
        choices.push("0.0333s".to_owned());
        choices.push("0.0400s".to_owned());
        choices.push("0.0500s".to_owned());
        choices.push("0.0666s".to_owned());
        choices.push("0.0769s".to_owned());
        choices.push("0.1000s".to_owned());
        choices.push("0.1250s".to_owned());
        choices.push("0.1666s".to_owned());
        choices.push("0.2000s".to_owned());
        choices.push("0.2500s".to_owned());
        choices.push("0.3333s".to_owned());
        choices.push("0.4000s".to_owned());
        choices.push("0.5000s".to_owned());
        choices.push("0.6250s".to_owned());
        choices.push("0.7692s".to_owned());
        choices.push("1.0000s".to_owned());
        choices.push("1.3000s".to_owned());
        choices.push("1.6000s".to_owned());
        choices.push("2.0000s".to_owned());
        choices.push("2.5000s".to_owned());
        choices.push("3.0000s".to_owned());
        choices.push("4.0000s".to_owned());
        choices.push("5.0000s".to_owned());
        choices.push("6.0000s".to_owned());
        choices.push("8.0000s".to_owned());
        choices.push("10.0000s".to_owned());
        choices.push("13.0000s".to_owned());
        choices.push("15.0000s".to_owned());
        choices.push("20.0000s".to_owned());
        choices.push("25.0000s".to_owned());
        choices.push("30.0000s".to_owned());
        proof {
            assert(choices.deep_view() =~= spec_shutterspeed_choices());
        }
        Some(Widget::Radio { choice: "0.0050s".to_owned(), choices, readonly: false })
    } else if str_eq(option, "f-number") {
        let mut choices: Vec<String> = Vec::new();
        choices.push("f/4.5".to_owned());
        choices.push("f/5".to_owned());
        choices.push("f/5.6".to_owned());
        choices.push("f/6.3".to_owned());
        choices.push("f/7.1".to_owned());
        choices.push("f/8".to_owned());
        choices.push("f/9".to_owned());
        choices.push("f/10".to_owned());
        choices.push("f/11".to_owned());
        choices.push("f/13".to_owned());
        choices.push("f/14".to_owned());
        choices.push("f/16".to_owned());
        choices.push("f/18".to_owned());
        choices.push("f/20".to_owned());
        choices.push("f/22".to_owned());
        proof {
            assert(choices.deep_view() =~= spec_fnumber_choices());
        }
        Some(Widget::Radio { choice: "f/14".to_owned(), choices, readonly: true })
    } else {
        None
    }
}

// ---------------------------------------------------------------------
// The simulated commit, and what a whole read or write comes to
// ---------------------------------------------------------------------
/// Whether the simulated driver commits a planned write: it rejects a
/// rejection, every write to a read-only widget, and a choice outside
/// the declared set; it accepts the rest.
pub open spec fn spec_commit_ok(w: WidgetModel, plan: WritePlanModel) -> bool {
    match plan {
        WritePlanModel::Reject => false,
        WritePlanModel::SetChoice(c) => !spec_widget_readonly(w) && spec_widget_choices(
            w,
        ).contains(c),
        _ => !spec_widget_readonly(w),
    }
}

/// The record a read of `id` yields on the simulated driver.
pub open spec fn spec_get_config(id: Seq<char>) -> Option<ConfigModel> {
    match spec_sim_widget(id) {
        Some(w) => spec_record_of_widget(id, w),
        None => None,
    }
}

/// Whether a write of `raw` to `id` succeeds on the simulated driver.
pub open spec fn spec_set_config_ok(id: Seq<char>, raw: Seq<char>) -> bool {
    match spec_sim_widget(id) {
        Some(w) => spec_commit_ok(w, spec_plan_write(w, raw)),
        None => false,
    }
}

/// Whether a widget is marked read-only.
fn widget_readonly(w: &Widget) -> (r: bool)
    ensures
        r == spec_widget_readonly(w@),
{
    match w {
        Widget::Group => true,
        Widget::Text { readonly, .. } => *readonly,
        Widget::Range { readonly, .. } => *readonly,
        Widget::Toggle { readonly, .. } => *readonly,
        Widget::Radio { readonly, .. } => *readonly,
        Widget::Button => true,
        Widget::Date { readonly, .. } => *readonly,
    }
}

/// Whether `value` is one of the strings in `choices`.
fn choices_contain(choices: &Vec<String>, value: &str) -> (r: bool)
    ensures
        r == choices.deep_view().contains(value@),
{
    let mut i: usize = 0;
    while i < choices.len()
        invariant
            i <= choices.len(),
            forall|j: int| 0 <= j < i ==> choices.deep_view()[j] != value@,
        decreases choices.len() - i,
    {
        if str_eq(choices[i].as_str(), value) {
            proof {
                assert(choices.deep_view()[i as int] == value@);
            }
            return true;
        }
        i += 1;
    }
    false
}

/// The simulated driver's atomic validate-and-commit of one planned
/// write.
fn sim_commit(w: &Widget, plan: &WritePlan) -> (r: bool)
    ensures
        r == spec_commit_ok(w@, plan@),
{
    match plan {
        WritePlan::Reject => false,
        WritePlan::SetChoice(c) => {
            if widget_readonly(w) {
                false
            } else {
                match w {
                    Widget::Radio { choices, .. } => choices_contain(choices, c.as_str()),
                    _ => {
                        proof {
                            assert(!spec_widget_choices(w@).contains(c@));
                        }
                        false
                    },
                }
            }
        },
        _ => !widget_readonly(w),
    }
}

// ---------------------------------------------------------------------
// The controller
// ---------------------------------------------------------------------
/// The simulated camera controller: the deterministic stand-in for
/// the real-hardware adapter, behind the same interface. Every
/// operation first runs the cheap idempotent connect step; the
/// simulated connect always succeeds.
pub struct CameraController {
    connected: bool,
}

impl CameraController {
    /// Whether the controller holds a connection.
    pub closed spec fn connected(&self) -> bool {
        self.connected
    }

    /// Creates a new, not yet connected controller.
    pub fn new() -> (r: CameraController)
        ensures
            !r.connected(),
    {
        CameraController { connected: false }
    }

    /// Tries to connect to the camera. The simulated camera is always
    /// reachable.
    pub fn try_connect(&mut self) -> (r: bool)
        ensures
            r,
            final(self).connected(),
    {
        self.connected = true;
        true
    }

    /// Reads one setting and normalizes it to a record; nothing for
    /// an unknown identifier or a kind that carries no value.
    pub fn get_config(&mut self, option: &str) -> (r: Option<CameraConfig>)
        ensures
            final(self).connected(),
            match r {
                Some(c) => spec_get_config(option@) == Some(c@),
                None => spec_get_config(option@) is None,
            },
    {
        if !self.try_connect() {
            return None;
        }
        match sim_widget(option) {
            Some(w) => widget_to_record(option, &w),
            None => None,
        }
    }

    /// Writes one setting: interprets the raw value against the
    /// widget's kind and asks the driver to commit. Exactly one
    /// commit is attempted, and none where the plan is a rejection.
    pub fn set_config(&mut self, option: &str, value: &str) -> (r: bool)
        ensures
            final(self).connected(),
            r == spec_set_config_ok(option@, value@),
    {
        if !self.try_connect() {
            return false;
        }
        match sim_widget(option) {
            Some(w) => {
                let plan = plan_write(&w, value);
                sim_commit(&w, &plan)
            },
            None => false,
        }
    }

    /// Enumerates the setting identifiers the driver reports, in
    /// driver-reported order.
    pub fn list_config(&mut self) -> (r: Option<Vec<String>>)
        ensures
            final(self).connected(),
            r matches Some(v) && v.deep_view() == spec_sim_ids(),
    {
        if !self.try_connect() {
            return None;
        }
        let mut ids: Vec<String> = Vec::new();
        ids.push("iso".to_owned());
        ids.push("shutterspeed".to_owned());
        ids.push("f-number".to_owned());
        proof {
            assert(ids.deep_view() =~= spec_sim_ids());
        }
        Some(ids)
    }

    /// Triggers one capture attempt. The simulated camera has no
    /// shutter, so the attempt itself always reports failure; the
    /// dispatcher above deliberately acknowledges success anyway.
    pub fn capture(&mut self) -> (r: bool)
        ensures
            final(self).connected(),
            !r,
    {
        if !self.try_connect() {
            return false;
        }
        false
    }

    /// A preview frame; the simulated camera offers none.
    pub fn capture_preview(&mut self) -> (r: Option<Vec<u8>>)
        ensures
            final(self).connected(),
            r is None,
    {
        if !self.try_connect() {
            return None;
        }
        None
    }

    /// The camera's battery percentage.
    pub fn get_battery_level(&mut self) -> (r: Option<u8>)
        ensures
            final(self).connected(),
            r == Some(80u8),
    {
        if !self.try_connect() {
            return None;
        }
        Some(80)
    }
}

} // verus!
