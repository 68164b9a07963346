//! The regular expressions the text parsers match with, and the `regex` calls that apply
//! them.
//!
//! What a call finds in a text is a function of the pattern and the text; each call's result
//! is named here, and the parsers are stated in terms of those names applied to their
//! patterns.

use vstd::prelude::*;
use regex::Regex;
use regex_split::RegexSplit;
use crate::text::joined;

verus! {

/// The pieces `RegexSplit::split_inclusive` cuts `text` into at the matches of `pattern`, each
/// ending with its match (the text itself when the pattern does not compile).
pub uninterp spec fn split_inclusive_spec(pattern: Seq<char>, text: Seq<char>) -> Seq<Seq<char>>;

/// `Regex::is_match` of `pattern` on `text` (false when the pattern does not compile).
pub uninterp spec fn is_match_spec(pattern: Seq<char>, text: Seq<char>) -> bool;

/// The text of the first match of `pattern` in `text` (`Regex::find`).
pub uninterp spec fn find_spec(pattern: Seq<char>, text: Seq<char>) -> Option<Seq<char>>;

/// The capture groups of the first match of `pattern` in `text` (`Regex::captures`), group 0
/// (the whole match) first; a group that took no part is `None`.
pub uninterp spec fn captures_spec(pattern: Seq<char>, text: Seq<char>) -> Option<Seq<Option<Seq<char>>>>;

/// The first present entry.
pub open spec fn first_some(s: Seq<Option<Seq<char>>>) -> Option<Seq<char>>
    decreases s.len(),
{
    if s.len() == 0 {
        None
    } else {
        match first_some(s.drop_last()) {
            Some(x) => Some(x),
            None => s.last(),
        }
    }
}

/// The first capture group (after the whole match) that takes part in the first match.
pub open spec fn first_group_spec(pattern: Seq<char>, text: Seq<char>) -> Option<Seq<char>> {
    match captures_spec(pattern, text) {
        Some(groups) => if groups.len() > 0 {
            first_some(groups.drop_first())
        } else {
            None
        },
        None => None,
    }
}

/// The characters `regex::escape` backslashes: those with a meaning in a regular expression.
pub open spec fn is_meta_character(c: char) -> bool {
    c == '\\' || c == '.' || c == '+' || c == '*' || c == '?' || c == '(' || c == ')' || c == '|'
        || c == '[' || c == ']' || c == '{' || c == '}' || c == '^' || c == '$' || c == '#' || c
        == '&' || c == '-' || c == '~'
}

/// `regex::escape` of `text`: each meta character preceded by a backslash, every other
/// character kept as it is.
pub open spec fn escape_spec(text: Seq<char>) -> Seq<char>
    decreases text.len(),
{
    if text.len() == 0 {
        Seq::empty()
    } else {
        escape_spec(text.drop_last()) + if is_meta_character(text.last()) {
            seq!['\\', text.last()]
        } else {
            seq![text.last()]
        }
    }
}

/// `RegexSplit::split_inclusive` (regex-split). Stated: the pieces are a function of the
/// pattern and the text, and they follow one another through the whole text.
#[verifier::external_body]
fn split_inclusive(pattern: &str, text: &str) -> (pieces: Vec<String>)
    ensures
        pieces@.map_values(|b: String| b@) == split_inclusive_spec(pattern@, text@),
        pieces@.map_values(|b: String| b@).flatten() == text@,
{
    match Regex::new(pattern) {
        Ok(re) => re.split_inclusive(text).map(|b| b.to_string()).collect(),
        Err(_) => vec![text.to_string()],
    }
}

/// `Regex::is_match`. Stated: a function of the pattern and the text.
#[verifier::external_body]
fn is_match(pattern: &str, text: &str) -> (b: bool)
    ensures
        b == is_match_spec(pattern@, text@),
{
    match Regex::new(pattern) {
        Ok(re) => re.is_match(text),
        Err(_) => false,
    }
}

/// `Regex::find`, the matched text. Stated: a function of the pattern and the text.
#[verifier::external_body]
fn find(pattern: &str, text: &str) -> (r: Option<String>)
    ensures
        match find_spec(pattern@, text@) {
            Some(m) => r matches Some(s) && s@ == m,
            None => r is None,
        },
{
    let re = Regex::new(pattern).ok()?;
    re.find(text).map(|m| m.as_str().to_string())
}

pub open spec fn groups_view(r: Option<Vec<Option<String>>>) -> Option<Seq<Option<Seq<char>>>> {
    match r {
        Some(v) => Some(
            v@.map_values(
                |o: Option<String>|
                    match o {
                        Some(t) => Some(t@),
                        None => None,
                    },
            ),
        ),
        None => None,
    }
}

/// `Regex::captures`, each group's text. Stated: a function of the pattern and the text.
#[verifier::external_body]
fn captures(pattern: &str, text: &str) -> (r: Option<Vec<Option<String>>>)
    ensures
        groups_view(r) == captures_spec(pattern@, text@),
{
    let re = Regex::new(pattern).ok()?;
    let caps = re.captures(text)?;
    Some(caps.iter().map(|m| m.map(|m| m.as_str().to_string())).collect())
}

fn first_group(pattern: &str, text: &str) -> (r: Option<String>)
    ensures
        match first_group_spec(pattern@, text@) {
            Some(g) => r matches Some(s) && s@ == g,
            None => r is None,
        },
{
    let groups = match captures(pattern, text) {
        Some(g) => g,
        None => return None,
    };
    let ghost gv = groups_view(Some(groups))->0;
    if groups.len() == 0 {
        return None;
    }
    let mut i: usize = 1;
    while i < groups.len()
        invariant
            1 <= i <= groups@.len(),
            gv == groups@.map_values(
                |o: Option<String>|
                    match o {
                        Some(t) => Some(t@),
                        None => None,
                    },
            ),
            first_some(gv.subrange(1, i as int)) is None,
            captures_spec(pattern@, text@) == Some(gv),
        decreases groups@.len() - i,
    {
        assert(gv.subrange(1, i as int + 1).drop_last() =~= gv.subrange(1, i as int));
        match &groups[i] {
            Some(t) => {
                let found = t.clone();
                proof {
                    assert(gv[i as int] == Some(t@));
                    assert(gv.subrange(1, i as int + 1).last() == gv[i as int]);
                    assert(first_some(gv.subrange(1, i as int + 1)) == Some(t@));
                    assert(gv.drop_first().subrange(0, i as int) =~= gv.subrange(1, i as int + 1));
                    lemma_first_some_prefix(gv.drop_first(), i as int);
                }
                return Some(found);
            },
            None => {},
        }
        i = i + 1;
    }
    proof {
        assert(gv.subrange(1, gv.len() as int) =~= gv.drop_first());
    }
    None
}

/// A first present entry of a prefix is the first present entry of the whole.
proof fn lemma_first_some_prefix(s: Seq<Option<Seq<char>>>, k: int)
    requires
        0 <= k <= s.len(),
        first_some(s.subrange(0, k)) is Some,
    ensures
        first_some(s) == first_some(s.subrange(0, k)),
    decreases s.len() - k,
{
    if k < s.len() {
        assert(s.subrange(0, k + 1).drop_last() =~= s.subrange(0, k));
        lemma_first_some_prefix(s, k + 1);
    } else {
        assert(s.subrange(0, k) =~= s);
    }
}

/// `regex::escape` (regex-syntax's `escape_into` on an empty string): every character of the
/// text in order, a backslash before each meta character.
#[verifier::external_body]
fn escape(text: &str) -> (r: String)
    ensures
        r@ == escape_spec(text@),
{
    regex::escape(text)
}

/// A device-monitor header line.
pub const DEVICE_FOUND_PATTERN: &'static str = r"(?m)^\s*Device found:\s*$";

/// A `default: true` line, any case.
pub const DEFAULT_LINE_PATTERN: &'static str = r"(?im)^\s*default:\s*true\s*$";

/// A `gst-launch-1.0 ...` line.
pub const LAUNCH_LINE_PATTERN: &'static str = r"gst-launch-1\.0[^\n]*";

/// A `unique-id=`, `device-name=` or `device=` assignment: the double- or single-quoted text, or
/// the bare word up to white space or a quote.
pub const DEVICE_ASSIGNMENT_PATTERN: &'static str = r#"\b(?:unique-id|device-name|device)=(?:"([^"]*)"|'([^']*)'|([^\s'"]+))"#;

/// Before and after the escaped key of a `key: value` / `key = value` line.
pub const PROP_HEAD_PATTERN: &'static str = r"(?m)^\s*";

pub const PROP_TAIL_PATTERN: &'static str = r"\s*[:=]\s*(.+?)\s*$";

/// The 17-character MAC of a `bluez_{output,input,sink,source}.` device id.
pub const BLUEZ_MAC_PATTERN: &'static str = r"^bluez_(?:output|input|sink|source)\.([0-9A-Fa-f_:]{17})";

/// The four hex digits of an `ATTR{idVendor}=="18d1"` (any vendor id).
pub const VENDOR_ID_PATTERN: &'static str = r#"ATTR\{idVendor\}==\"([0-9a-fA-F]{4})\""#;

/// A `# LIVI-RULE-VERSION=<digits>` line.
pub const RULE_VERSION_PATTERN: &'static str = r"(?m)^# LIVI-RULE-VERSION=\d+$";

pub open spec fn device_blocks_spec(output: Seq<char>) -> Seq<Seq<char>> {
    split_inclusive_spec(DEVICE_FOUND_PATTERN@, output)
}

pub open spec fn default_line_spec(block: Seq<char>) -> bool {
    is_match_spec(DEFAULT_LINE_PATTERN@, block)
}

pub open spec fn launch_line_spec(block: Seq<char>) -> Option<Seq<char>> {
    find_spec(LAUNCH_LINE_PATTERN@, block)
}

pub open spec fn device_assignment_spec(line: Seq<char>) -> Option<Seq<char>> {
    first_group_spec(DEVICE_ASSIGNMENT_PATTERN@, line)
}

pub open spec fn prop_pattern(key: Seq<char>) -> Seq<char> {
    PROP_HEAD_PATTERN@ + escape_spec(key) + PROP_TAIL_PATTERN@
}

pub open spec fn prop_value_spec(block: Seq<char>, key: Seq<char>) -> Option<Seq<char>> {
    first_group_spec(prop_pattern(key), block)
}

pub open spec fn bluez_mac_spec(device_id: Seq<char>) -> Option<Seq<char>> {
    first_group_spec(BLUEZ_MAC_PATTERN@, device_id)
}

pub open spec fn vendor_id_spec(line: Seq<char>) -> Option<Seq<char>> {
    first_group_spec(VENDOR_ID_PATTERN@, line)
}

pub open spec fn rule_version_spec(template: Seq<char>) -> Option<Seq<char>> {
    find_spec(RULE_VERSION_PATTERN@, template)
}

/// The blocks a device-monitor listing splits into, each ending with its header line.
pub fn device_blocks(output: &str) -> (blocks: Vec<String>)
    ensures
        blocks@.map_values(|b: String| b@) == device_blocks_spec(output@),
        blocks@.map_values(|b: String| b@).flatten() == output@,
{
    split_inclusive(DEVICE_FOUND_PATTERN, output)
}

/// Whether a `default: true` line occurs in the block.
pub fn default_line(block: &str) -> (b: bool)
    ensures
        b == default_line_spec(block@),
{
    is_match(DEFAULT_LINE_PATTERN, block)
}

/// The first launch line of the block.
pub fn launch_line(block: &str) -> (r: Option<String>)
    ensures
        match launch_line_spec(block@) {
            Some(l) => r matches Some(s) && s@ == l,
            None => r is None,
        },
{
    find(LAUNCH_LINE_PATTERN, block)
}

/// The value of the first device assignment on the line.
pub fn device_assignment(line: &str) -> (r: Option<String>)
    ensures
        match device_assignment_spec(line@) {
            Some(v) => r matches Some(s) && s@ == v,
            None => r is None,
        },
{
    first_group(DEVICE_ASSIGNMENT_PATTERN, line)
}

/// The value (white space trimmed) of the first `key: value` or `key = value` line, with the
/// key matched literally.
pub fn prop_value(block: &str, key: &str) -> (r: Option<String>)
    ensures
        match prop_value_spec(block@, key@) {
            Some(v) => r matches Some(s) && s@ == v,
            None => r is None,
        },
{
    let escaped = escape(key);
    let head = joined(PROP_HEAD_PATTERN, escaped.as_str());
    let pattern = joined(head.as_str(), PROP_TAIL_PATTERN);
    first_group(pattern.as_str(), block)
}

/// The MAC of a BlueZ device id.
pub fn bluez_mac(device_id: &str) -> (r: Option<String>)
    ensures
        match bluez_mac_spec(device_id@) {
            Some(v) => r matches Some(s) && s@ == v,
            None => r is None,
        },
{
    first_group(BLUEZ_MAC_PATTERN, device_id)
}

/// The vendor id of a udev template line.
pub fn vendor_id(line: &str) -> (r: Option<String>)
    ensures
        match vendor_id_spec(line@) {
            Some(v) => r matches Some(s) && s@ == v,
            None => r is None,
        },
{
    first_group(VENDOR_ID_PATTERN, line)
}

/// The rule version line of the template.
pub fn rule_version(template: &str) -> (r: Option<String>)
    ensures
        match rule_version_spec(template@) {
            Some(v) => r matches Some(s) && s@ == v,
            None => r is None,
        },
{
    find(RULE_VERSION_PATTERN, template)
}

} // verus!
