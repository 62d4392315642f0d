//! The user's configuration: which USB device triggers switching, which
//! inputs to select on connect and disconnect, and the DDC/CI recipe
//! (display index, source address, feature code) for the monitor.
//!
//! Input sources are written in the configuration as text: a symbolic name
//! (`hdmi1`, `displayport2`, ...), a decimal number or a `0x` hexadecimal
//! number. [`ConfigurationFields`] is the configuration as stored; a
//! [`Configuration`] is read from it by [`Configuration::from_fields`] and
//! written back by [`Configuration::to_fields`].
use crate::text::{
    all_ascii, ascii_lower, ascii_lower_char, chars_of, digit_value, hex_text, is_ascii_char,
    lemma_radix_text_value, lemma_trim_unspaced, lowercase, parse_unsigned, parse_unsigned_range,
    push_radix_text, push_str, same_chars, string_from_chars, to_lowercase, trim, trim_chars,
    unsigned_digits,
};
use vstd::prelude::*;

verus! {

/// Input-select feature code of the DDC/CI standard.
pub const DEFAULT_VCP_CODE: u8 = 0x60;

/// Inputs known by name, with their MCCS input-select values.
#[derive(Clone, Copy, Debug, PartialEq, Eq, Structural)]
pub enum SymbolicInputSource {
    DisplayPort1,
    DisplayPort2,
    Hdmi1,
    Hdmi2,
}

impl SymbolicInputSource {
    /// The MCCS input-select value.
    pub open spec fn code(self) -> u16 {
        match self {
            SymbolicInputSource::DisplayPort1 => 0x0f,
            SymbolicInputSource::DisplayPort2 => 0x10,
            SymbolicInputSource::Hdmi1 => 0x11,
            SymbolicInputSource::Hdmi2 => 0x12,
        }
    }

    /// The input known by value `v`, if any.
    pub open spec fn of_code(v: u16) -> Option<SymbolicInputSource> {
        if v == 0x0f {
            Some(SymbolicInputSource::DisplayPort1)
        } else if v == 0x10 {
            Some(SymbolicInputSource::DisplayPort2)
        } else if v == 0x11 {
            Some(SymbolicInputSource::Hdmi1)
        } else if v == 0x12 {
            Some(SymbolicInputSource::Hdmi2)
        } else {
            None
        }
    }

    /// The lowercase name written in configurations.
    pub open spec fn name(self) -> Seq<char> {
        match self {
            SymbolicInputSource::DisplayPort1 => "displayport1"@,
            SymbolicInputSource::DisplayPort2 => "displayport2"@,
            SymbolicInputSource::Hdmi1 => "hdmi1"@,
            SymbolicInputSource::Hdmi2 => "hdmi2"@,
        }
    }

    /// The variant's own name (as `Debug` shows it).
    pub open spec fn variant_name(self) -> Seq<char> {
        match self {
            SymbolicInputSource::DisplayPort1 => "DisplayPort1"@,
            SymbolicInputSource::DisplayPort2 => "DisplayPort2"@,
            SymbolicInputSource::Hdmi1 => "Hdmi1"@,
            SymbolicInputSource::Hdmi2 => "Hdmi2"@,
        }
    }

    /// The input whose name is exactly `t`.
    pub open spec fn of_lowercase_name(t: Seq<char>) -> Option<SymbolicInputSource> {
        if t == "displayport1"@ {
            Some(SymbolicInputSource::DisplayPort1)
        } else if t == "displayport2"@ {
            Some(SymbolicInputSource::DisplayPort2)
        } else if t == "hdmi1"@ {
            Some(SymbolicInputSource::Hdmi1)
        } else if t == "hdmi2"@ {
            Some(SymbolicInputSource::Hdmi2)
        } else {
            None
        }
    }

    pub fn value(&self) -> (r: u16)
        ensures
            r == self.code(),
    {
        match self {
            SymbolicInputSource::DisplayPort1 => 0x0f,
            SymbolicInputSource::DisplayPort2 => 0x10,
            SymbolicInputSource::Hdmi1 => 0x11,
            SymbolicInputSource::Hdmi2 => 0x12,
        }
    }

    /// The input known by MCCS value `v`.
    pub fn from_value(v: u16) -> (r: Option<SymbolicInputSource>)
        ensures
            r == SymbolicInputSource::of_code(v),
    {
        if v == 0x0f {
            Some(SymbolicInputSource::DisplayPort1)
        } else if v == 0x10 {
            Some(SymbolicInputSource::DisplayPort2)
        } else if v == 0x11 {
            Some(SymbolicInputSource::Hdmi1)
        } else if v == 0x12 {
            Some(SymbolicInputSource::Hdmi2)
        } else {
            None
        }
    }

    /// The input whose name is exactly `name`.
    pub fn from_lowercase_name(name: &str) -> (r: Option<SymbolicInputSource>)
        ensures
            r == SymbolicInputSource::of_lowercase_name(name@),
    {
        let t = chars_of(name);
        if same_chars(&t, "displayport1") {
            Some(SymbolicInputSource::DisplayPort1)
        } else if same_chars(&t, "displayport2") {
            Some(SymbolicInputSource::DisplayPort2)
        } else if same_chars(&t, "hdmi1") {
            Some(SymbolicInputSource::Hdmi1)
        } else if same_chars(&t, "hdmi2") {
            Some(SymbolicInputSource::Hdmi2)
        } else {
            None
        }
    }

    /// The input named `name`, compared without regard to case.
    pub fn from_name(name: &str) -> (r: Option<SymbolicInputSource>)
        ensures
            r == SymbolicInputSource::of_lowercase_name(lowercase(name@)),
    {
        let lowered = to_lowercase(name);
        SymbolicInputSource::from_lowercase_name(lowered.as_str())
    }

    /// The lowercase name written in configurations.
    pub fn label(&self) -> (r: &'static str)
        ensures
            r@ == self.name(),
    {
        match self {
            SymbolicInputSource::DisplayPort1 => "displayport1",
            SymbolicInputSource::DisplayPort2 => "displayport2",
            SymbolicInputSource::Hdmi1 => "hdmi1",
            SymbolicInputSource::Hdmi2 => "hdmi2",
        }
    }

    fn variant_label(&self) -> (r: &'static str)
        ensures
            r@ == self.variant_name(),
    {
        match self {
            SymbolicInputSource::DisplayPort1 => "DisplayPort1",
            SymbolicInputSource::DisplayPort2 => "DisplayPort2",
            SymbolicInputSource::Hdmi1 => "Hdmi1",
            SymbolicInputSource::Hdmi2 => "Hdmi2",
        }
    }
}

impl TryFrom<u16> for SymbolicInputSource {
    type Error = ();

    fn try_from(v: u16) -> (r: Result<SymbolicInputSource, ()>) {
        match SymbolicInputSource::from_value(v) {
            Some(sym) => Ok(sym),
            None => Err(()),
        }
    }
}

impl vstd::std_specs::convert::TryFromSpecImpl<u16> for SymbolicInputSource {
    open spec fn obeys_try_from_spec() -> bool {
        true
    }

    open spec fn try_from_spec(v: u16) -> Result<SymbolicInputSource, ()> {
        match SymbolicInputSource::of_code(v) {
            Some(sym) => Ok(sym),
            None => Err(()),
        }
    }
}

impl<'a> TryFrom<&'a str> for SymbolicInputSource {
    type Error = ();

    fn try_from(v: &'a str) -> (r: Result<SymbolicInputSource, ()>) {
        match SymbolicInputSource::from_name(v) {
            Some(sym) => Ok(sym),
            None => Err(()),
        }
    }
}

impl<'a> vstd::std_specs::convert::TryFromSpecImpl<&'a str> for SymbolicInputSource {
    open spec fn obeys_try_from_spec() -> bool {
        true
    }

    open spec fn try_from_spec(v: &'a str) -> Result<SymbolicInputSource, ()> {
        match SymbolicInputSource::of_lowercase_name(lowercase(v@)) {
            Some(sym) => Ok(sym),
            None => Err(()),
        }
    }
}

/// An input source: one known by name, or any raw MCCS value.
#[derive(Clone, Copy, PartialEq, Eq, Structural)]
pub enum InputSource {
    Raw(u16),
    Symbolic(SymbolicInputSource),
}

/// An unsigned 16-bit number as configurations write it: `0x` followed by
/// hexadecimal digits, or decimal digits.
pub open spec fn int_value(s: Seq<char>) -> Option<nat> {
    if s.len() >= 2 && s[0] == '0' && s[1] == 'x' {
        parse_unsigned(s.skip(2), 16, 0xffff)
    } else {
        parse_unsigned(s, 10, 0xffff)
    }
}

/// Reads an input-source value: `0x` and hexadecimal digits, or decimal digits.
pub fn parse_int(text: &str) -> (r: Option<u16>)
    ensures
        match int_value(text@) {
            Some(v) => r == Some(v as u16),
            None => r is None,
        },
{
    let s = chars_of(text);
    if s.len() >= 2 && s[0] == '0' && s[1] == 'x' {
        assert(s@.subrange(2, s.len() as int) =~= s@.skip(2));
        match parse_unsigned_range(&s, 2, s.len(), 16, 0xffff) {
            Some(v) => Some(v as u16),
            None => None,
        }
    } else {
        assert(s@.subrange(0, s.len() as int) =~= s@);
        match parse_unsigned_range(&s, 0, s.len(), 10, 0xffff) {
            Some(v) => Some(v as u16),
            None => None,
        }
    }
}

impl InputSource {
    /// The MCCS input-select value.
    pub open spec fn code(self) -> u16 {
        match self {
            InputSource::Symbolic(sym) => sym.code(),
            InputSource::Raw(v) => v,
        }
    }

    /// A raw value that has a name is stated by name.
    pub open spec fn normalized(self) -> InputSource {
        match self {
            InputSource::Symbolic(_) => self,
            InputSource::Raw(v) => match SymbolicInputSource::of_code(v) {
                Some(sym) => InputSource::Symbolic(sym),
                None => InputSource::Raw(v),
            },
        }
    }

    /// How the source is written in configurations: its name, or `0x` and
    /// its value in lowercase hexadecimal.
    pub open spec fn text(self) -> Seq<char> {
        match self {
            InputSource::Symbolic(sym) => sym.name(),
            InputSource::Raw(v) => "0x"@ + hex_text(v as nat, false),
        }
    }

    /// The source as `Debug` shows it: `Hdmi1(0x11)`, `Custom(0x1f)`.
    pub open spec fn description(self) -> Seq<char> {
        match self {
            InputSource::Symbolic(sym) => sym.variant_name() + "(0x"@ + hex_text(
                sym.code() as nat,
                false,
            ) + ")"@,
            InputSource::Raw(v) => "Custom(0x"@ + hex_text(v as nat, false) + ")"@,
        }
    }

    /// The source read from text that is already trimmed and lowercase: a
    /// number is taken as a raw value (and normalized), otherwise a name.
    pub open spec fn of_normalized_text(t: Seq<char>) -> Option<InputSource> {
        match int_value(t) {
            Some(v) => Some(InputSource::Raw(v as u16).normalized()),
            None => match SymbolicInputSource::of_lowercase_name(lowercase(t)) {
                Some(sym) => Some(InputSource::Symbolic(sym)),
                None => None,
            },
        }
    }

    /// Text as configurations hold it, trimmed and lowercased.
    pub open spec fn normalized_text(s: Seq<char>) -> Seq<char> {
        lowercase(trim(s))
    }

    /// The source written as `s` in a configuration.
    pub open spec fn of_text(s: Seq<char>) -> Option<InputSource> {
        InputSource::of_normalized_text(InputSource::normalized_text(s))
    }

    pub fn value(&self) -> (r: u16)
        ensures
            r == self.code(),
    {
        match self {
            InputSource::Symbolic(sym) => sym.value(),
            InputSource::Raw(v) => *v,
        }
    }

    pub fn normalize(self) -> (r: InputSource)
        ensures
            r == self.normalized(),
            r.code() == self.code(),
            r.normalized() == r,
    {
        match self {
            InputSource::Symbolic(_) => self,
            InputSource::Raw(v) => match SymbolicInputSource::from_value(v) {
                Some(sym) => InputSource::Symbolic(sym),
                None => InputSource::Raw(v),
            },
        }
    }

    /// Trims and lowercases text of a configuration.
    pub fn normalize_text(s: &str) -> (r: String)
        ensures
            r@ == InputSource::normalized_text(s@),
    {
        let cs = chars_of(s);
        let trimmed = trim_chars(&cs);
        let t = string_from_chars(&trimmed);
        to_lowercase(t.as_str())
    }

    /// Reads a source from trimmed, lowercase text.
    pub fn from_normalized_text(t: &str) -> (r: Option<InputSource>)
        ensures
            r == InputSource::of_normalized_text(t@),
    {
        match parse_int(t) {
            Some(v) => Some(InputSource::Raw(v).normalize()),
            None => match SymbolicInputSource::from_name(t) {
                Some(sym) => Some(InputSource::Symbolic(sym)),
                None => None,
            },
        }
    }

    /// Reads a source as written in a configuration.
    pub fn from_text(s: &str) -> (r: Option<InputSource>)
        ensures
            r == InputSource::of_text(s@),
    {
        let t = InputSource::normalize_text(s);
        InputSource::from_normalized_text(t.as_str())
    }

    /// Writes the source as configurations hold it.
    pub fn to_text(&self) -> (r: String)
        ensures
            r@ == self.text(),
    {
        match self {
            InputSource::Symbolic(sym) => {
                let mut out: Vec<char> = Vec::new();
                push_str(&mut out, sym.label());
                assert(out@ =~= sym.name());
                string_from_chars(&out)
            },
            InputSource::Raw(v) => {
                let mut out: Vec<char> = Vec::new();
                push_str(&mut out, "0x");
                push_radix_text(&mut out, *v as u32, 16, false);
                string_from_chars(&out)
            },
        }
    }

    /// The source as `Debug` shows it.
    pub fn describe(&self) -> (r: String)
        ensures
            r@ == self.description(),
    {
        let mut out: Vec<char> = Vec::new();
        match self {
            InputSource::Symbolic(sym) => {
                push_str(&mut out, sym.variant_label());
                push_str(&mut out, "(0x");
                push_radix_text(&mut out, sym.value() as u32, 16, false);
                push_str(&mut out, ")");
            },
            InputSource::Raw(v) => {
                push_str(&mut out, "Custom(0x");
                push_radix_text(&mut out, *v as u32, 16, false);
                push_str(&mut out, ")");
            },
        }
        string_from_chars(&out)
    }
}

// ---------------------------------------------------------------------------
// The configuration
// ---------------------------------------------------------------------------

/// The configuration of the switching pipeline.
#[derive(Clone)]
pub struct Configuration {
    /// `vvvv:pppp` id of the USB device whose arrival means "switch to this host".
    pub usb_device: String,
    /// Optional keyboard receiver whose presence is shown to the user.
    pub mxkeys_usb_device: Option<String>,
    pub on_usb_connect: Option<InputSource>,
    pub on_usb_disconnect: Option<InputSource>,
    /// I2C source address override for the write path.
    pub on_usb_connect_source_addr: Option<u8>,
    /// VCP feature code for input select; `0x60` unless overridden.
    pub on_usb_connect_vcp_code: Option<u8>,
    pub display_index: Option<u32>,
}

/// The configuration as stored, with input sources as text.
#[derive(Clone)]
pub struct ConfigurationFields {
    pub usb_device: String,
    pub mxkeys_usb_device: Option<String>,
    pub on_usb_connect: Option<String>,
    pub on_usb_disconnect: Option<String>,
    pub on_usb_connect_source_addr: Option<u8>,
    pub on_usb_connect_vcp_code: Option<u8>,
    pub display_index: Option<u32>,
}

pub struct ConfigurationView {
    pub usb_device: Seq<char>,
    pub mxkeys_usb_device: Option<Seq<char>>,
    pub on_usb_connect: Option<InputSource>,
    pub on_usb_disconnect: Option<InputSource>,
    pub on_usb_connect_source_addr: Option<u8>,
    pub on_usb_connect_vcp_code: Option<u8>,
    pub display_index: Option<u32>,
}

impl ConfigurationView {
    /// The display to switch: `0` unless configured.
    pub open spec fn selected_display(self) -> u32 {
        match self.display_index {
            Some(i) => i,
            None => 0u32,
        }
    }

    /// The input-select feature code: `0x60` unless overridden.
    pub open spec fn selected_vcp_code(self) -> u8 {
        match self.on_usb_connect_vcp_code {
            Some(c) => c,
            None => DEFAULT_VCP_CODE,
        }
    }
}

pub struct ConfigurationFieldsView {
    pub usb_device: Seq<char>,
    pub mxkeys_usb_device: Option<Seq<char>>,
    pub on_usb_connect: Option<Seq<char>>,
    pub on_usb_disconnect: Option<Seq<char>>,
    pub on_usb_connect_source_addr: Option<u8>,
    pub on_usb_connect_vcp_code: Option<u8>,
    pub display_index: Option<u32>,
}

pub open spec fn text_view(s: Option<String>) -> Option<Seq<char>> {
    match s {
        Some(t) => Some(t@),
        None => None,
    }
}

impl View for Configuration {
    type V = ConfigurationView;

    open spec fn view(&self) -> ConfigurationView {
        ConfigurationView {
            usb_device: self.usb_device@,
            mxkeys_usb_device: text_view(self.mxkeys_usb_device),
            on_usb_connect: self.on_usb_connect,
            on_usb_disconnect: self.on_usb_disconnect,
            on_usb_connect_source_addr: self.on_usb_connect_source_addr,
            on_usb_connect_vcp_code: self.on_usb_connect_vcp_code,
            display_index: self.display_index,
        }
    }
}

impl View for ConfigurationFields {
    type V = ConfigurationFieldsView;

    open spec fn view(&self) -> ConfigurationFieldsView {
        ConfigurationFieldsView {
            usb_device: self.usb_device@,
            mxkeys_usb_device: text_view(self.mxkeys_usb_device),
            on_usb_connect: text_view(self.on_usb_connect),
            on_usb_disconnect: text_view(self.on_usb_disconnect),
            on_usb_connect_source_addr: self.on_usb_connect_source_addr,
            on_usb_connect_vcp_code: self.on_usb_connect_vcp_code,
            display_index: self.display_index,
        }
    }
}

/// The outcome of reading an optional input source from its text: `Err`
/// carries the normalized text that names no input.
pub open spec fn read_source(t: Option<Seq<char>>) -> Result<Option<InputSource>, Seq<char>> {
    match t {
        None => Ok(None),
        Some(s) => match InputSource::of_text(s) {
            Some(x) => Ok(Some(x)),
            None => Err(InputSource::normalized_text(s)),
        },
    }
}

/// The configuration read from stored fields: the USB device id is
/// lowercased, the input sources are read from their text (connect first);
/// `Err` carries the normalized text of the first source that names no input.
pub open spec fn configuration_of(f: ConfigurationFieldsView) -> Result<ConfigurationView, Seq<char>> {
    match read_source(f.on_usb_connect) {
        Err(e) => Err(e),
        Ok(connect) => match read_source(f.on_usb_disconnect) {
            Err(e) => Err(e),
            Ok(disconnect) => Ok(
                ConfigurationView {
                    usb_device: lowercase(f.usb_device),
                    mxkeys_usb_device: f.mxkeys_usb_device,
                    on_usb_connect: connect,
                    on_usb_disconnect: disconnect,
                    on_usb_connect_source_addr: f.on_usb_connect_source_addr,
                    on_usb_connect_vcp_code: f.on_usb_connect_vcp_code,
                    display_index: f.display_index,
                },
            ),
        },
    }
}

pub open spec fn source_text(x: Option<InputSource>) -> Option<Seq<char>> {
    match x {
        Some(s) => Some(s.text()),
        None => None,
    }
}

/// The stored fields of a configuration.
pub open spec fn fields_of(c: ConfigurationView) -> ConfigurationFieldsView {
    ConfigurationFieldsView {
        usb_device: c.usb_device,
        mxkeys_usb_device: c.mxkeys_usb_device,
        on_usb_connect: source_text(c.on_usb_connect),
        on_usb_disconnect: source_text(c.on_usb_disconnect),
        on_usb_connect_source_addr: c.on_usb_connect_source_addr,
        on_usb_connect_vcp_code: c.on_usb_connect_vcp_code,
        display_index: c.display_index,
    }
}

pub open spec fn normalized_source(x: Option<InputSource>) -> Option<InputSource> {
    match x {
        Some(s) => Some(s.normalized()),
        None => None,
    }
}

/// `c` as reading it back from its stored fields gives it: USB device id in
/// lowercase, raw input values that have a name stated by name.
pub open spec fn normalized_configuration(c: ConfigurationView) -> ConfigurationView {
    ConfigurationView {
        usb_device: ascii_lower(c.usb_device),
        on_usb_connect: normalized_source(c.on_usb_connect),
        on_usb_disconnect: normalized_source(c.on_usb_disconnect),
        ..c
    }
}

fn clone_text(s: &Option<String>) -> (r: Option<String>)
    ensures
        text_view(r) == text_view(*s),
{
    match s {
        Some(t) => Some(t.clone()),
        None => None,
    }
}

fn read_source_text(t: &Option<String>) -> (r: Result<Option<InputSource>, String>)
    ensures
        match read_source(text_view(*t)) {
            Ok(x) => r == Ok::<Option<InputSource>, String>(x),
            Err(e) => r matches Err(m) && m@ == e,
        },
{
    match t {
        None => Ok(None),
        Some(s) => match InputSource::from_text(s.as_str()) {
            Some(x) => Ok(Some(x)),
            None => Err(InputSource::normalize_text(s.as_str())),
        },
    }
}

fn write_source_text(x: &Option<InputSource>) -> (r: Option<String>)
    ensures
        text_view(r) == source_text(*x),
{
    match x {
        Some(s) => Some(s.to_text()),
        None => None,
    }
}

impl Configuration {
    /// The display to switch; `0` unless configured.
    pub fn display_index(&self) -> (r: u32)
        ensures
            r == self@.selected_display(),
    {
        match self.display_index {
            Some(i) => i,
            None => 0,
        }
    }

    /// VCP feature code for input select: `0x60` unless overridden.
    pub fn vcp_code(&self) -> (r: u8)
        ensures
            r == self@.selected_vcp_code(),
    {
        match self.on_usb_connect_vcp_code {
            Some(c) => c,
            None => DEFAULT_VCP_CODE,
        }
    }

    /// Lowercases a USB device id, as configurations store it.
    pub fn normalize_usb_device(usb_device: &str) -> (r: String)
        ensures
            r@ == lowercase(usb_device@),
    {
        to_lowercase(usb_device)
    }

    /// Reads a configuration from its stored fields; `Err` carries the
    /// normalized text of the first input source that names no input.
    pub fn from_fields(fields: &ConfigurationFields) -> (r: Result<Configuration, String>)
        ensures
            match configuration_of(fields@) {
                Ok(c) => r matches Ok(k) && k@ == c,
                Err(e) => r matches Err(m) && m@ == e,
            },
    {
        let connect = match read_source_text(&fields.on_usb_connect) {
            Ok(x) => x,
            Err(e) => {
                return Err(e);
            },
        };
        let disconnect = match read_source_text(&fields.on_usb_disconnect) {
            Ok(x) => x,
            Err(e) => {
                return Err(e);
            },
        };
        Ok(
            Configuration {
                usb_device: Configuration::normalize_usb_device(fields.usb_device.as_str()),
                mxkeys_usb_device: clone_text(&fields.mxkeys_usb_device),
                on_usb_connect: connect,
                on_usb_disconnect: disconnect,
                on_usb_connect_source_addr: fields.on_usb_connect_source_addr,
                on_usb_connect_vcp_code: fields.on_usb_connect_vcp_code,
                display_index: fields.display_index,
            },
        )
    }

    /// The stored fields of this configuration.
    pub fn to_fields(&self) -> (r: ConfigurationFields)
        ensures
            r@ == fields_of(self@),
    {
        ConfigurationFields {
            usb_device: self.usb_device.clone(),
            mxkeys_usb_device: clone_text(&self.mxkeys_usb_device),
            on_usb_connect: write_source_text(&self.on_usb_connect),
            on_usb_disconnect: write_source_text(&self.on_usb_disconnect),
            on_usb_connect_source_addr: self.on_usb_connect_source_addr,
            on_usb_connect_vcp_code: self.on_usb_connect_vcp_code,
            display_index: self.display_index,
        }
    }
}

// ---------------------------------------------------------------------------
// Laws
// ---------------------------------------------------------------------------

/// A text of ASCII characters that lowercasing leaves alone is its own
/// lowercase form.
proof fn lemma_lowercase_stable(t: Seq<char>)
    requires
        forall|i: int| 0 <= i < t.len() ==> is_ascii_char(#[trigger] t[i]) && ascii_lower_char(t[i]) == t[i],
    ensures
        all_ascii(t),
        lowercase(t) == t,
{
    assert(ascii_lower(t) =~= t);
}

/// The text a configuration holds for a source needs no trimming or
/// lowercasing.
proof fn lemma_text_is_normalized(x: InputSource)
    ensures
        InputSource::normalized_text(x.text()) == x.text(),
        lowercase(x.text()) == x.text(),
        x.text().len() > 0,
        x.text()[0] != '+',
{
    let t = x.text();
    match x {
        InputSource::Raw(v) => {
            reveal_strlit("0x");
            let h = hex_text(v as nat, false);
            lemma_radix_text_value(v as nat, 16, false);
            assert(t[0] == '0');
            assert(t[1] == 'x');
            assert forall|i: int| 0 <= i < t.len() implies is_ascii_char(#[trigger] t[i])
                && ascii_lower_char(t[i]) == t[i] by {
                if i >= 2 {
                    assert(t[i] == h[i - 2]);
                }
            }
            assert(t[t.len() - 1] == h[h.len() - 1]);
            lemma_trim_unspaced(t);
            lemma_lowercase_stable(t);
        },
        InputSource::Symbolic(sym) => {
            reveal_strlit("displayport1");
            reveal_strlit("displayport2");
            reveal_strlit("hdmi1");
            reveal_strlit("hdmi2");
            lemma_trim_unspaced(t);
            lemma_lowercase_stable(t);
        },
    }
}

/// Writing an input source as configuration text and reading it back gives
/// the source, with a raw value that has a name stated by name.
pub proof fn lemma_source_text_round_trip(x: InputSource)
    ensures
        InputSource::of_text(x.text()) == Some(x.normalized()),
        InputSource::of_text(x.text()).unwrap().code() == x.code(),
{
    lemma_text_is_normalized(x);
    let t = x.text();
    match x {
        InputSource::Raw(v) => {
            reveal_strlit("0x");
            let h = hex_text(v as nat, false);
            lemma_radix_text_value(v as nat, 16, false);
            assert(t.skip(2) =~= h);
            assert(h[0] != '+');
            assert(unsigned_digits(h) == h);
            assert(parse_unsigned(h, 16, 0xffff) == Some(v as nat));
            assert(int_value(t) == Some(v as nat));


        },
        InputSource::Symbolic(sym) => {
            reveal_strlit("displayport1");
            reveal_strlit("displayport2");
            reveal_strlit("hdmi1");
            reveal_strlit("hdmi2");
            assert(unsigned_digits(t) == t);
            assert(digit_value(t[0]) >= 10);
            assert(int_value(t) is None);
        },
    }
}

proof fn lemma_ascii_lower_idempotent(t: Seq<char>)
    requires
        all_ascii(t),
    ensures
        all_ascii(ascii_lower(t)),
        ascii_lower(ascii_lower(t)) == ascii_lower(t),
{
    assert(ascii_lower(ascii_lower(t)) =~= ascii_lower(t));
}

/// What is read from text is already normalized.
proof fn lemma_read_source_normalized(s: Seq<char>)
    ensures
        InputSource::of_text(s) matches Some(x) ==> x.normalized() == x,
{
}

/// Writing a configuration and reading it back gives the configuration with
/// its USB device id lowercased and raw input values that have a name stated
/// by name; on a configuration that was itself read from stored fields, the
/// round trip changes nothing. (Stated for ASCII device ids, which are what
/// `vvvv:pppp` ids are; lowercasing other text is not stated to be idempotent.)
pub proof fn lemma_configuration_round_trip(c: ConfigurationView)
    requires
        all_ascii(c.usb_device),
    ensures
        configuration_of(fields_of(c)) == Ok::<ConfigurationView, Seq<char>>(
            normalized_configuration(c),
        ),
        normalized_configuration(normalized_configuration(c)) == normalized_configuration(c),
{
    if let Some(x) = c.on_usb_connect {
        lemma_source_text_round_trip(x);
    }
    if let Some(x) = c.on_usb_disconnect {
        lemma_source_text_round_trip(x);
    }
    lemma_ascii_lower_idempotent(c.usb_device);
}

/// A configuration read from stored fields with an ASCII device id is
/// already normalized, so writing and reading it again gives it back.
pub proof fn lemma_read_configuration_is_stable(f: ConfigurationFieldsView)
    requires
        all_ascii(f.usb_device),
    ensures
        configuration_of(f) matches Ok(c) ==> normalized_configuration(c) == c
            && configuration_of(fields_of(c)) == Ok::<ConfigurationView, Seq<char>>(c),
{
    if let Ok(c) = configuration_of(f) {
        if let Some(s) = f.on_usb_connect {
            lemma_read_source_normalized(s);
        }
        if let Some(s) = f.on_usb_disconnect {
            lemma_read_source_normalized(s);
        }
        lemma_ascii_lower_idempotent(f.usb_device);
        lemma_configuration_round_trip(c);
    }
}

} // verus!
