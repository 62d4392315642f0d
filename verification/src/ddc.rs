//! Writing VCP feature values to a monitor over DDC/CI, and reading what a
//! monitor offers.
use crate::capabilities::{input_codes, parse_input_codes};
use crate::errors::error_with_message;
use crate::text::{
    chars_of, decimal_text, hex_text, push_padded_radix_text, push_radix_text, push_str, string_from_chars,
    trim, trim_chars, zero_padded,
};
use vstd::prelude::*;

verus! {

/// Writes one VCP feature value to a monitor.
pub trait DdcBackend {
    fn set_vcp(&self, monitor_index: u32, code: u8, value: u16, source_addr: Option<u8>) -> Result<
        (),
        anyhow::Error,
    >;
}

/// Fallback for non-NVIDIA GPUs (dxva2 `SetVCPFeature`); not implemented:
/// every write is refused with an error.
pub struct GenericDdcBackend;

impl DdcBackend for GenericDdcBackend {
    fn set_vcp(&self, monitor_index: u32, code: u8, value: u16, source_addr: Option<u8>) -> (r:
        Result<(), anyhow::Error>)
        ensures
            r is Err,
    {
        Err(
            error_with_message(
                "GenericDdcBackend (AMD/ADL fallback) is not implemented yet \u{2014} see DECISIONS.md #4/#10 and IMPROVEMENTS.md #4. This backend is not currently selected by any code path.",
            ),
        )
    }
}

/// A monitor found by [`MonitorReader::enumerate`]. `display_index` is the
/// ordinal that `DdcBackend::set_vcp` takes as `monitor_index`.
#[derive(Debug, Clone)]
pub struct MonitorInfo {
    pub display_index: u32,
    pub id: String,
    pub model_name: Option<String>,
}

/// Read-only discovery of monitors and what they offer; separate from the
/// write path.
pub trait MonitorReader {
    fn enumerate(&self) -> Result<Vec<MonitorInfo>, anyhow::Error>;

    fn input_codes(&self, display_index: u32) -> Result<Vec<u8>, anyhow::Error>;

    /// The current value of input select (`0x60`).
    fn current_input(&self, display_index: u32) -> Result<u8, anyhow::Error>;
}

/// The monitor entry that the user interface shows.
pub struct MonitorInfoDto {
    pub display_index: u32,
    pub id: String,
    pub model_name: Option<String>,
}

impl From<MonitorInfo> for MonitorInfoDto {
    fn from(info: MonitorInfo) -> (r: MonitorInfoDto) {
        MonitorInfoDto { display_index: info.display_index, id: info.id, model_name: info.model_name }
    }
}

impl vstd::std_specs::convert::FromSpecImpl<MonitorInfo> for MonitorInfoDto {
    open spec fn obeys_from_spec() -> bool {
        true
    }

    open spec fn from_spec(info: MonitorInfo) -> MonitorInfoDto {
        MonitorInfoDto { display_index: info.display_index, id: info.id, model_name: info.model_name }
    }
}

// ---------------------------------------------------------------------------
// Selecting the display to read from
// ---------------------------------------------------------------------------

/// The display to read from among enumerated displays whose entries say
/// whether each is driven through NVAPI: the first NVAPI-backed one (which
/// uses the same I2C source address as the write path), otherwise the one
/// at `display_index`; `None` when there is no such display.
pub open spec fn selected_display(is_nvapi: Seq<bool>, display_index: u32) -> Option<int> {
    if exists|i: int| 0 <= i < is_nvapi.len() && is_nvapi[i] {
        Some(first_nvapi_from(is_nvapi, 0))
    } else if display_index < is_nvapi.len() {
        Some(display_index as int)
    } else {
        None
    }
}

pub open spec fn first_nvapi_from(is_nvapi: Seq<bool>, i: int) -> int
    decreases is_nvapi.len() - i,
{
    if i >= is_nvapi.len() || i < 0 || is_nvapi[i] {
        i
    } else {
        first_nvapi_from(is_nvapi, i + 1)
    }
}

proof fn lemma_first_nvapi(is_nvapi: Seq<bool>, i: int)
    requires
        0 <= i <= is_nvapi.len(),
        forall|j: int| 0 <= j < i ==> !is_nvapi[j],
    ensures
        (exists|j: int| 0 <= j < is_nvapi.len() && is_nvapi[j]) ==> {
            let k = first_nvapi_from(is_nvapi, i);
            &&& i <= k < is_nvapi.len()
            &&& is_nvapi[k]
            &&& forall|j: int| 0 <= j < k ==> !is_nvapi[j]
        },
    decreases is_nvapi.len() - i,
{
    if i < is_nvapi.len() && !is_nvapi[i] {
        lemma_first_nvapi(is_nvapi, i + 1);
    }
}

/// Picks the display to read from (see [`selected_display`]).
pub fn select_display_index(is_nvapi: &Vec<bool>, display_index: u32) -> (r: Option<usize>)
    ensures
        match selected_display(is_nvapi@, display_index) {
            Some(k) => r == Some(k as usize),
            None => r is None,
        },
        r matches Some(k) ==> k < is_nvapi.len(),
{
    let mut i: usize = 0;
    while i < is_nvapi.len()
        invariant
            i <= is_nvapi.len(),
            forall|j: int| 0 <= j < i ==> !is_nvapi@[j],
        decreases is_nvapi.len() - i,
    {
        if is_nvapi[i] {
            proof {
                lemma_first_nvapi(is_nvapi@, 0);
                lemma_first_nvapi(is_nvapi@, i as int);
            }
            return Some(i);
        }
        i = i + 1;
    }
    if (display_index as usize) < is_nvapi.len() {
        Some(display_index as usize)
    } else {
        None
    }
}

// ---------------------------------------------------------------------------
// Reading a capabilities reply
// ---------------------------------------------------------------------------

/// What `String::from_utf8_lossy` makes of a byte string.
pub uninterp spec fn utf8_lossy(bytes: Seq<u8>) -> Seq<char>;

/// Calls `String::from_utf8_lossy`: the decoded text, where valid UTF-8 is
/// decoded as such (invalid sequences become U+FFFD; that part is named
/// [`utf8_lossy`], not stated).
#[verifier::external_body]
fn decode_utf8_lossy(bytes: &[u8]) -> (r: String)
    ensures
        r@ == utf8_lossy(bytes@),
        vstd::utf8::valid_utf8(bytes@) ==> r@ == vstd::utf8::decode_utf8(bytes@),
{
    String::from_utf8_lossy(bytes).into_owned()
}

/// The input-select values of a raw capabilities reply, read as UTF-8 with
/// invalid sequences replaced.
pub fn input_codes_from_reply(reply: &[u8]) -> (r: Vec<u8>)
    ensures
        r@ == input_codes(utf8_lossy(reply@)),
        vstd::utf8::valid_utf8(reply@) ==> r@ == input_codes(vstd::utf8::decode_utf8(reply@)),
{
    let text = decode_utf8_lossy(reply);
    parse_input_codes(text.as_str())
}

// ---------------------------------------------------------------------------
// The NVAPI write helper's arguments
// ---------------------------------------------------------------------------

/// I2C source address that the write path uses unless overridden.
pub const DEFAULT_SOURCE_ADDR: u8 = 0x50;

/// `0x` and at least two uppercase hexadecimal digits (`0x{:02X}`).
pub open spec fn hex_arg(v: nat) -> Seq<char> {
    seq!['0', 'x'] + zero_padded(hex_text(v, true), 2)
}

/// The arguments of the NVAPI write helper, in the order it expects:
/// display index in decimal, then value, feature code and source address
/// (default `0x50`) in hexadecimal. Note: value before code.
pub open spec fn nvapi_args(monitor_index: u32, code: u8, value: u16, source_addr: Option<u8>) -> Seq<
    Seq<char>,
> {
    let addr = match source_addr {
        Some(a) => a,
        None => DEFAULT_SOURCE_ADDR,
    };
    seq![
        decimal_text(monitor_index as nat),
        hex_arg(value as nat),
        hex_arg(code as nat),
        hex_arg(addr as nat),
    ]
}

fn hex_arg_string(v: u32) -> (r: String)
    ensures
        r@ == hex_arg(v as nat),
{
    let mut out: Vec<char> = Vec::new();
    out.push('0');
    out.push('x');
    push_padded_radix_text(&mut out, v, 16, true, 2);
    string_from_chars(&out)
}

/// Builds the NVAPI write helper's arguments (see [`nvapi_args`]).
pub fn build_args(monitor_index: u32, code: u8, value: u16, source_addr: Option<u8>) -> (r: [String; 4])
    ensures
        r@.len() == 4,
        forall|i: int| 0 <= i < 4 ==> r@[i]@ == #[trigger] nvapi_args(monitor_index, code, value, source_addr)[i],
{
    let addr = match source_addr {
        Some(a) => a,
        None => DEFAULT_SOURCE_ADDR,
    };
    let mut index_text: Vec<char> = Vec::new();
    push_radix_text(&mut index_text, monitor_index, 10, false);
    [
        string_from_chars(&index_text),
        hex_arg_string(value as u32),
        hex_arg_string(code as u32),
        hex_arg_string(addr as u32),
    ]
}

// ---------------------------------------------------------------------------
// Describing a failed run of the NVAPI write helper
// ---------------------------------------------------------------------------

/// What `{:?}` renders for a string: the text quoted, with escapes.
pub uninterp spec fn debug_text(s: Seq<char>) -> Seq<char>;

/// Text that `{:?}` leaves as it is between its quotes: printable ASCII
/// (space to `~`) with no `"` and no `\`.
pub open spec fn plain_text(s: Seq<char>) -> bool {
    forall|i: int|
        0 <= i < s.len() ==> ' ' <= #[trigger] s[i] <= '~' && s[i] != '"' && s[i] != '\\'
}

/// `hay` holds `needle` as a contiguous run.
pub open spec fn contains_text(hay: Seq<char>, needle: Seq<char>) -> bool {
    exists|k: int| 0 <= k && k + needle.len() <= hay.len() && #[trigger] hay.subrange(k, k + needle.len()) == needle
}

/// Calls `<str as Debug>::fmt` through `format!("{:?}", s)`. The escaping
/// rules are named [`debug_text`], not stated; stated is only that plain
/// text (see [`plain_text`]) comes back between double quotes, unchanged.
#[verifier::external_body]
fn debug_quoted(s: &str) -> (r: String)
    ensures
        r@ == debug_text(s@),
        plain_text(s@) ==> r@ == seq!['"'] + s@ + seq!['"'],
{
    format!("{:?}", s)
}

/// A signed number in decimal, with `-` before a negative one.
pub open spec fn signed_text(v: i32) -> Seq<char> {
    if v < 0 {
        seq!['-'] + decimal_text((-v) as nat)
    } else {
        decimal_text(v as nat)
    }
}

/// An exit code as `{:?}` renders an `Option<i32>`.
pub open spec fn exit_code_text(code: Option<i32>) -> Seq<char> {
    match code {
        Some(c) => "Some("@ + signed_text(c) + ")"@,
        None => "None"@,
    }
}

/// The helper's arguments as `{:?}` renders a `[String; 4]`.
pub open spec fn args_text(args: Seq<Seq<char>>) -> Seq<char> {
    "["@ + debug_text(args[0]) + ", "@ + debug_text(args[1]) + ", "@ + debug_text(args[2]) + ", "@
        + debug_text(args[3]) + "]"@
}

/// Captured output, decoded (invalid UTF-8 replaced) and trimmed.
pub open spec fn output_text(bytes: Seq<u8>) -> Seq<char> {
    trim(utf8_lossy(bytes))
}

/// The explanation that ends every failure message: the helper needs an
/// NVIDIA GPU, and an iGPU-only graphics mode makes it fail.
pub open spec fn nvidia_hint() -> Seq<char> {
    "This tool depends on an NVIDIA GPU/driver (NVAPI) being available \u{2014} if this machine has switched to an AMD/integrated-only graphics mode (e.g. a laptop's \"Eco\"/iGPU-only setting), switching back to the NVIDIA GPU is currently the only known fix (see DECISIONS.md #4/#10, IMPROVEMENTS.md #4)."@
}

/// The message for a failed run of the write helper: its exit code, its
/// arguments, its trimmed standard output and error, then the NVIDIA hint.
pub open spec fn failure_description(
    args: Seq<Seq<char>>,
    exit_code: Option<i32>,
    stdout: Seq<u8>,
    stderr: Seq<u8>,
) -> Seq<char> {
    "writeValueToDisplay.exe exited with "@ + exit_code_text(exit_code) + " (args: "@ + args_text(args)
        + "). stdout: "@ + debug_text(output_text(stdout)) + ", stderr: "@ + debug_text(
        output_text(stderr),
    ) + ". "@ + nvidia_hint()
}

proof fn lemma_contains_middle(pre: Seq<char>, t: Seq<char>, post: Seq<char>)
    ensures
        contains_text(pre + t + post, t),
{
    let k = pre.len() as int;
    assert((pre + t + post).subrange(k, k + t.len()) =~= t);
}

fn push_signed(out: &mut Vec<char>, v: i32)
    ensures
        final(out)@ == old(out)@ + signed_text(v),
{
    if v < 0 {
        out.push('-');
        let magnitude: u32 = (-(v as i64)) as u32;
        push_radix_text(out, magnitude, 10, false);
        assert(final(out)@ =~= old(out)@ + signed_text(v));
    } else {
        push_radix_text(out, v as u32, 10, false);
    }
}

fn push_debug(out: &mut Vec<char>, s: &str)
    ensures
        final(out)@ == old(out)@ + debug_text(s@),
        plain_text(s@) ==> debug_text(s@) == seq!['"'] + s@ + seq!['"'],
{
    let d = debug_quoted(s);
    push_str(out, d.as_str());
}

fn push_output(out: &mut Vec<char>, bytes: &[u8])
    ensures
        final(out)@ == old(out)@ + debug_text(output_text(bytes@)),
        plain_text(output_text(bytes@)) ==> debug_text(output_text(bytes@)) == seq!['"'] + output_text(
            bytes@,
        ) + seq!['"'],
{
    let decoded = decode_utf8_lossy(bytes);
    let chars = chars_of(decoded.as_str());
    let trimmed = string_from_chars(&trim_chars(&chars));
    push_debug(out, trimmed.as_str());
}

/// Describes a failed run of the write helper (see [`failure_description`]).
pub fn describe_failure(args: &[String; 4], exit_code: Option<i32>, stdout: &[u8], stderr: &[u8]) -> (r:
    String)
    ensures
        r@ == failure_description(
            Seq::new(4, |i: int| args@[i]@),
            exit_code,
            stdout@,
            stderr@,
        ),
        contains_text(r@, nvidia_hint()),
        plain_text(output_text(stdout@)) ==> contains_text(r@, output_text(stdout@)),
        plain_text(output_text(stderr@)) ==> contains_text(r@, output_text(stderr@)),
{
    let mut out: Vec<char> = Vec::new();
    push_str(&mut out, "writeValueToDisplay.exe exited with ");
    match exit_code {
        Some(c) => {
            push_str(&mut out, "Some(");
            push_signed(&mut out, c);
            push_str(&mut out, ")");
        },
        None => push_str(&mut out, "None"),
    }
    push_str(&mut out, " (args: ");
    push_str(&mut out, "[");
    push_debug(&mut out, args[0].as_str());
    push_str(&mut out, ", ");
    push_debug(&mut out, args[1].as_str());
    push_str(&mut out, ", ");
    push_debug(&mut out, args[2].as_str());
    push_str(&mut out, ", ");
    push_debug(&mut out, args[3].as_str());
    push_str(&mut out, "]");
    push_str(&mut out, "). stdout: ");
    push_output(&mut out, stdout);
    push_str(&mut out, ", stderr: ");
    push_output(&mut out, stderr);
    push_str(&mut out, ". ");
    push_str(
        &mut out,
        "This tool depends on an NVIDIA GPU/driver (NVAPI) being available \u{2014} if this machine has switched to an AMD/integrated-only graphics mode (e.g. a laptop's \"Eco\"/iGPU-only setting), switching back to the NVIDIA GPU is currently the only known fix (see DECISIONS.md #4/#10, IMPROVEMENTS.md #4).",
    );
    let ghost a = Seq::new(4, |i: int| args@[i]@);
    assert(out@ =~= failure_description(a, exit_code, stdout@, stderr@));
    proof {
        let t1 = output_text(stdout@);
        let t2 = output_text(stderr@);
        let head = "writeValueToDisplay.exe exited with "@ + exit_code_text(exit_code) + " (args: "@
            + args_text(a) + "). stdout: "@;
        let d1 = debug_text(t1);
        let d2 = debug_text(t2);
        let tail = ". "@ + nvidia_hint();
        assert(out@ =~= head + d1 + (", stderr: "@ + d2 + tail));
        assert(out@ =~= (head + d1 + ", stderr: "@) + d2 + tail);
        assert(out@ =~= (head + d1 + ", stderr: "@ + d2 + ". "@) + nvidia_hint() + Seq::<char>::empty());
        lemma_contains_middle(head + d1 + ", stderr: "@ + d2 + ". "@, nvidia_hint(), Seq::<char>::empty());
        if plain_text(t1) {
            assert(out@ =~= (head + seq!['"']) + t1 + (seq!['"'] + ", stderr: "@ + d2 + tail));
            lemma_contains_middle(head + seq!['"'], t1, seq!['"'] + ", stderr: "@ + d2 + tail);
        }
        if plain_text(t2) {
            assert(out@ =~= (head + d1 + ", stderr: "@ + seq!['"']) + t2 + (seq!['"'] + tail));
            lemma_contains_middle(head + d1 + ", stderr: "@ + seq!['"'], t2, seq!['"'] + tail);
        }
    }
    string_from_chars(&out)
}

} // verus!
