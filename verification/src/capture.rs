//! The screenshot payload: the first screen's PNG image as base64 text.

use vstd::prelude::*;

use base64::Engine;

verus! {

broadcast use vstd::string::group_string_axioms;

/// The symbol of the standard base64 alphabet for a six-bit value
/// (`A`-`Z`, `a`-`z`, `0`-`9`, `+`, `/`).
pub open spec fn base64_symbol(v: nat) -> char {
    if v < 26 {
        (65 + v) as char
    } else if v < 52 {
        (71 + v) as char
    } else if v < 62 {
        (v - 4) as char
    } else if v == 62 {
        '+'
    } else {
        '/'
    }
}

/// Base64 with the standard alphabet and `=` padding (RFC 4648, section 4):
/// each group of three bytes becomes four symbols, and a final group of one
/// or two bytes becomes two or three symbols followed by `=` up to four.
pub open spec fn base64_standard(s: Seq<u8>) -> Seq<char>
    decreases s.len(),
{
    if s.len() == 0 {
        Seq::empty()
    } else if s.len() == 1 {
        let n = s[0] as nat * 65536;
        seq![base64_symbol(n / 262144), base64_symbol((n / 4096) % 64), '=', '=']
    } else if s.len() == 2 {
        let n = s[0] as nat * 65536 + s[1] as nat * 256;
        seq![
            base64_symbol(n / 262144),
            base64_symbol((n / 4096) % 64),
            base64_symbol((n / 64) % 64),
            '=',
        ]
    } else {
        let n = s[0] as nat * 65536 + s[1] as nat * 256 + s[2] as nat;
        seq![
            base64_symbol(n / 262144),
            base64_symbol((n / 4096) % 64),
            base64_symbol((n / 64) % 64),
            base64_symbol(n % 64),
        ] + base64_standard(s.skip(3))
    }
}

/// The length of the base64 text for `len` bytes: four symbols per started
/// group of three.
pub open spec fn base64_len(len: nat) -> nat {
    (len + 2) / 3 * 4
}

/// `base64::engine::general_purpose::STANDARD.encode` (base64 0.21): the
/// standard alphabet with padding. The contract claims the result is the
/// RFC 4648 encoding of the bytes. The call panics when the encoded length
/// does not fit a `usize`, which `requires` rules out.
#[verifier::external_body]
fn encode_standard(data: &[u8]) -> (text: String)
    requires
        base64_len(data@.len()) <= usize::MAX,
    ensures
        text@ == base64_standard(data@),
{
    base64::engine::general_purpose::STANDARD.encode(data)
}

/// A captured screen's PNG bytes as the base64 text handed to the window.
pub fn encode_screenshot(png: &[u8]) -> (text: String)
    requires
        base64_len(png@.len()) <= usize::MAX,
    ensures
        text@ == base64_standard(png@),
{
    encode_standard(png)
}

/// The reason given when there is no screen to capture.
pub open spec fn no_screen_message() -> Seq<char> {
    "no screens available to capture"@
}

/// Which enumerated screen is captured: the primary one. `primary[i]` says
/// whether screen `i` is flagged as the primary (main) screen. When none is
/// flagged the first screen listed is taken; with no screen at all the
/// result is the reason.
pub fn primary_screen(primary: &[bool]) -> (r: Result<usize, String>)
    ensures
        primary@.len() == 0 ==> (r matches Err(m) && m@ == no_screen_message()),
        primary@.len() > 0 ==> (r matches Ok(i) && i < primary@.len()),
        r matches Ok(i) ==> (primary@[i as int] || forall|j: int| 0 <= j < primary@.len() ==> !#[trigger] primary@[j]),
        r matches Ok(i) ==> forall|j: int| 0 <= j < i ==> !#[trigger] primary@[j],
        r matches Ok(i) ==> i == 0 || primary@[i as int],
{
    let n = primary.len();
    if n == 0 {
        return Err("no screens available to capture".to_string());
    }
    let mut i: usize = 0;
    while i < n
        invariant
            i <= n,
            n == primary@.len(),
            forall|j: int| 0 <= j < i ==> !#[trigger] primary@[j],
        decreases n - i,
    {
        if primary[i] {
            return Ok(i);
        }
        i = i + 1;
    }
    Ok(0)
}

} // verus!
