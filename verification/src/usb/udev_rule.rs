//! The udev rule file: the phone vendors its template allows, its version marker, whether to
//! ask for installing it, and the script that installs it.

use vstd::prelude::*;
use vstd::string::StringExecFns;
use crate::patterns::{rule_version, rule_version_spec, vendor_id, vendor_id_spec};
use crate::text::{chars_of, contains, contains_text, joined, replace, replace_all, trim, trimmed};

verus! {

pub const RULE_FILE: &'static str = "/etc/udev/rules.d/99-AVIO.rules";

pub const TEMPLATE_FILENAME: &'static str = "99-AVIO.rules.template";

// ---------------------------------------------------------------------------------------
// Lines
// ---------------------------------------------------------------------------------------

/// Index of the first newline of `s`, or its length.
pub open spec fn newline_at(s: Seq<char>) -> nat
    decreases s.len(),
{
    if s.len() == 0 || s[0] == '\n' {
        0
    } else {
        1 + newline_at(s.drop_first())
    }
}

/// The lines of `s` as `str::lines` yields them: split at `\n`, a `\r` before the `\n`
/// dropped, no empty line after a final newline.
pub open spec fn lines_of(s: Seq<char>) -> Seq<Seq<char>>
    decreases s.len(),
{
    if s.len() == 0 {
        Seq::empty()
    } else {
        let k = newline_at(s);
        if k >= s.len() {
            seq![s]
        } else {
            let line = s.take(k as int);
            let line = if line.len() > 0 && line.last() == '\r' {
                line.drop_last()
            } else {
                line
            };
            seq![line] + lines_of(s.skip(k as int + 1))
        }
    }
}

proof fn lemma_newline_at(s: Seq<char>, k: int)
    requires
        0 <= k <= s.len(),
        forall|j: int| 0 <= j < k ==> s[j] != '\n',
        k < s.len() ==> s[k] == '\n',
    ensures
        newline_at(s) == k,
    decreases k,
{
    if k > 0 {
        assert forall|j: int| 0 <= j < k - 1 implies s.drop_first()[j] != '\n' by {
            assert(s.drop_first()[j] == s[j + 1]);
        }
        if k < s.len() {
            assert(s.drop_first()[k - 1] == s[k]);
        }
        lemma_newline_at(s.drop_first(), k - 1);
    }
}

pub fn lines(s: &str) -> (r: Vec<String>)
    ensures
        r@.map_values(|l: String| l@) == lines_of(s@),
{
    let cs = chars_of(s);
    let n = cs.len();
    let mut out: Vec<String> = Vec::new();
    let mut start: usize = 0;
    proof {
        assert(s@.skip(0) =~= s@);
        assert(out@.map_values(|l: String| l@) + lines_of(s@.skip(0)) =~= lines_of(s@));
    }
    while start < n
        invariant
            start <= n,
            n == s@.len(),
            cs@ == s@,
            out@.map_values(|l: String| l@) + lines_of(s@.skip(start as int)) == lines_of(s@),
        decreases n - start,
    {
        let ghost rest = s@.skip(start as int);
        let mut k: usize = start;
        while k < n && cs[k] != '\n'
            invariant
                start <= k <= n,
                n == s@.len(),
                cs@ == s@,
                forall|j: int| start <= j < k ==> s@[j] != '\n',
            decreases n - k,
        {
            k = k + 1;
        }
        proof {
            assert forall|j: int| 0 <= j < k - start implies rest[j] != '\n' by {
                assert(rest[j] == s@[start + j]);
            }
            if k < n {
                assert(rest[k - start] == s@[k as int]);
            }
            lemma_newline_at(rest, k - start);
        }
        let ghost before = out@.map_values(|l: String| l@);
        let mut end = k;
        if k < n && end > start && cs[end - 1] == '\r' {
            end = end - 1;
        }
        let line = s.substring_char(start, end).to_owned();
        proof {
            assert(line@ =~= if k < n {
                let l = rest.take((k - start) as int);
                if l.len() > 0 && l.last() == '\r' {
                    l.drop_last()
                } else {
                    l
                }
            } else {
                rest
            });
        }
        out.push(line);
        proof {
            assert(out@.map_values(|l: String| l@) =~= before.push(line@));
        }
        if k >= n {
            proof {
                assert(lines_of(rest) == seq![rest]);
                assert(s@.skip(n as int) =~= Seq::<char>::empty());
                assert(out@.map_values(|l: String| l@) + lines_of(s@.skip(n as int)) =~= before
                    + lines_of(rest));
            }
            start = n;
        } else {
            proof {
                assert(rest.skip((k - start) as int + 1) =~= s@.skip(k + 1));
                assert(out@.map_values(|l: String| l@) + lines_of(s@.skip(k + 1)) =~= before
                    + lines_of(rest));
            }
            start = k + 1;
        }
    }
    proof {
        assert(s@.skip(start as int) =~= Seq::<char>::empty());
        assert(out@.map_values(|l: String| l@) + Seq::<Seq<char>>::empty() =~= out@.map_values(
            |l: String| l@,
        ));
    }
    out
}

// ---------------------------------------------------------------------------------------
// Vendor ids
// ---------------------------------------------------------------------------------------

pub open spec fn hex_digit(c: char) -> Option<nat> {
    crate::video::hex_digit(c)
}

pub open spec fn hex_digits_value(s: Seq<char>) -> Option<nat>
    decreases s.len(),
{
    if s.len() == 0 {
        Some(0)
    } else {
        match (hex_digits_value(s.drop_last()), hex_digit(s.last())) {
            (Some(v), Some(d)) => Some(v * 16 + d),
            _ => None,
        }
    }
}

/// `u16::from_str_radix(s, 16)`: an optional `+`, then one or more hex digits whose value
/// fits in 16 bits.
pub open spec fn parse_hex_u16_spec(s: Seq<char>) -> Option<u16> {
    let digits = if s.len() > 0 && s[0] == '+' {
        s.drop_first()
    } else {
        s
    };
    if digits.len() == 0 {
        None
    } else {
        match hex_digits_value(digits) {
            Some(v) => if v < 0x10000 {
                Some(v as u16)
            } else {
                None
            },
            None => None,
        }
    }
}

pub fn parse_hex_u16(s: &str) -> (r: Option<u16>)
    ensures
        r == parse_hex_u16_spec(s@),
{
    let cs = chars_of(s);
    let start: usize = if cs.len() > 0 && cs[0] == '+' {
        1
    } else {
        0
    };
    let ghost digits = if s@.len() > 0 && s@[0] == '+' {
        s@.drop_first()
    } else {
        s@
    };
    proof {
        assert(cs@.skip(start as int) =~= digits);
    }
    if cs.len() == start {
        return None;
    }
    let mut v: u32 = 0;
    let mut i: usize = start;
    while i < cs.len()
        invariant
            start <= i <= cs@.len(),
            start <= 1,
            cs@ == s@,
            cs@.skip(start as int) == digits,
            digits == if s@.len() > 0 && s@[0] == '+' {
                s@.drop_first()
            } else {
                s@
            },
            digits.len() > 0,
            hex_digits_value(digits.take(i - start)) == Some(v as nat),
            v < 0x10000,
        decreases cs@.len() - i,
    {
        let c = cs[i];
        proof {
            assert(digits.take(i - start + 1).drop_last() =~= digits.take(i - start));
            assert(digits.take(i - start + 1).last() == c);
        }
        let d: u32 = if '0' <= c && c <= '9' {
            c as u32 - '0' as u32
        } else if 'a' <= c && c <= 'f' {
            c as u32 - 'a' as u32 + 10
        } else if 'A' <= c && c <= 'F' {
            c as u32 - 'A' as u32 + 10
        } else {
            proof {
                assert(hex_digit(c) is None);
                lemma_hex_stays_bad(digits, (i - start + 1) as nat);
            }
            return None;
        };
        let next = v * 16 + d;
        if next >= 0x10000 {
            proof {
                assert(hex_digit(c) == Some(d as nat));
                lemma_hex_stays_bad(digits, (i - start + 1) as nat);
            }
            return None;
        }
        proof {
            assert(hex_digit(c) == Some(d as nat));
        }
        v = next;
        i = i + 1;
    }
    proof {
        assert(digits.take(cs@.len() - start) =~= digits);
    }
    Some(v as u16)
}

pub open spec fn not_u16(o: Option<nat>) -> bool {
    match o {
        Some(v) => v >= 0x10000,
        None => true,
    }
}

/// Once a prefix is no hex number below 2^16, no longer prefix is.
proof fn lemma_hex_stays_bad(s: Seq<char>, k: nat)
    requires
        k <= s.len(),
        not_u16(hex_digits_value(s.take(k as int))),
    ensures
        not_u16(hex_digits_value(s)),
    decreases s.len() - k,
{
    if k < s.len() {
        assert(s.take(k as int + 1).drop_last() =~= s.take(k as int));
        lemma_hex_stays_bad(s, k + 1);
    } else {
        assert(s.take(k as int) =~= s);
    }
}

/// The vendor id a template line allows: none on a line that also names a product (a
/// dongle), else the parsed `ATTR{idVendor}` value.
pub open spec fn line_vendor(line: Seq<char>) -> Option<u16> {
    if contains_text(line, "ATTR{idProduct}"@) {
        None
    } else {
        match vendor_id_spec(line) {
            Some(v) => parse_hex_u16_spec(v),
            None => None,
        }
    }
}

/// The vendor ids of the lines, each once, in order of first appearance.
pub open spec fn vendor_ids_of(lines: Seq<Seq<char>>) -> Seq<u16>
    decreases lines.len(),
{
    if lines.len() == 0 {
        Seq::empty()
    } else {
        let ids = vendor_ids_of(lines.drop_last());
        match line_vendor(lines.last()) {
            Some(v) => if ids.contains(v) {
                ids
            } else {
                ids.push(v)
            },
            None => ids,
        }
    }
}

/// The Android phone vendors the udev template allows (lines that also match a product id,
/// the dongles, are skipped).
pub fn phone_vendor_ids_from_template(template: &str) -> (ids: Vec<u16>)
    ensures
        ids@ == vendor_ids_of(lines_of(template@)),
        ids@.no_duplicates(),
{
    let ls = lines(template);
    let ghost lv = lines_of(template@);
    let mut ids: Vec<u16> = Vec::new();
    let mut i: usize = 0;
    proof {
        assert(lv.take(0) =~= Seq::<Seq<char>>::empty());
    }
    while i < ls.len()
        invariant
            i <= ls@.len(),
            ls@.map_values(|l: String| l@) == lv,
            ids@ == vendor_ids_of(lv.take(i as int)),
            ids@.no_duplicates(),
        decreases ls@.len() - i,
    {
        let line = ls[i].as_str();
        proof {
            assert(lv[i as int] == line@);
            assert(lv.take(i + 1).drop_last() =~= lv.take(i as int));
        }
        if !contains(line, "ATTR{idProduct}") {
            if let Some(v) = vendor_id(line) {
                if let Some(id) = parse_hex_u16(v.as_str()) {
                    let mut found = false;
                    let mut j: usize = 0;
                    while j < ids.len()
                        invariant
                            j <= ids@.len(),
                            found == exists|m: int| 0 <= m < j && ids@[m] == id,
                        decreases ids@.len() - j,
                    {
                        if ids[j] == id {
                            found = true;
                        }
                        j = j + 1;
                    }
                    if !found {
                        ids.push(id);
                    }
                }
            }
        }
        i = i + 1;
    }
    proof {
        assert(lv.take(ls@.len() as int) =~= lv);
    }
    ids
}

// ---------------------------------------------------------------------------------------
// Version, content, installation
// ---------------------------------------------------------------------------------------

/// The template's version line, `# LIVI-RULE-VERSION=0` when it has none.
pub open spec fn template_marker_spec(template: Seq<char>) -> Seq<char> {
    match rule_version_spec(template) {
        Some(m) => m,
        None => "# LIVI-RULE-VERSION=0"@,
    }
}

pub fn template_marker(template: &str) -> (m: String)
    ensures
        m@ == template_marker_spec(template@),
{
    match rule_version(template) {
        Some(m) => m,
        None => "# LIVI-RULE-VERSION=0".to_owned(),
    }
}

/// The rule file: the template with `__USERNAME__` replaced by the user's name.
pub fn build_rule_content(template: &str, username: &str) -> (c: String)
    ensures
        c@ == replace_all(template@, "__USERNAME__"@, username@),
{
    proof {
        reveal_strlit("__USERNAME__");
    }
    replace(template, "__USERNAME__", username)
}

/// An installed rule is current when it holds the template's version line.
pub fn udev_rule_is_current(installed: Option<&str>, template: &str) -> (b: bool)
    ensures
        b == match installed {
            Some(c) => contains_text(c@, template_marker_spec(template@)),
            None => false,
        },
{
    match installed {
        Some(c) => {
            let marker = template_marker(template);
            contains(c, marker.as_str())
        },
        None => false,
    }
}

/// The question to ask before installing or updating the rule.
pub struct UdevPrompt {
    pub is_upgrade: bool,
    pub title: String,
    pub message: String,
    pub accept_label: String,
    pub skip_label: String,
}

/// Whether to ask at all: only on Linux, when the rule is missing or outdated, and when
/// `pkexec` can install it; an existing outdated rule is an upgrade.
pub open spec fn prompt_needed(is_linux: bool, exists: bool, is_current: bool, pkexec: bool) -> bool {
    is_linux && !(exists && is_current) && pkexec
}

pub fn udev_install_prompt(is_linux: bool, exists: bool, is_current: bool, pkexec: bool) -> (p:
    Option<UdevPrompt>)
    ensures
        p is Some <==> prompt_needed(is_linux, exists, is_current, pkexec),
        p matches Some(q) ==> q.is_upgrade == (exists && !is_current) && q.accept_label@ == if q.is_upgrade {
            "Update"@
        } else {
            "Install"@
        } && q.skip_label@ == "Skip"@ && q.title@ == if q.is_upgrade {
            "USB Permission Update"@
        } else {
            "USB Permission Required"@
        },
{
    if !is_linux || (exists && is_current) || !pkexec {
        return None;
    }
    let is_upgrade = exists && !is_current;
    let message = if is_upgrade {
        let m = joined(
            "AVIO needs to update its udev rule for USB device access.\n\nThe existing rule at ",
            RULE_FILE,
        );
        joined(
            m.as_str(),
            " is outdated (wired Android Auto needs additional phone vendor entries). It will be replaced.",
        )
    } else {
        let m = joined(
            "AVIO needs permission to access USB devices.\n\nA udev rule will be installed to ",
            RULE_FILE,
        );
        joined(m.as_str(), ".")
    };
    Some(
        UdevPrompt {
            is_upgrade,
            title: if is_upgrade {
                "USB Permission Update".to_owned()
            } else {
                "USB Permission Required".to_owned()
            },
            message,
            accept_label: if is_upgrade {
                "Update".to_owned()
            } else {
                "Install".to_owned()
            },
            skip_label: "Skip".to_owned(),
        },
    )
}

/// The shell script run as root to install the rule: write the trimmed content, reload the
/// rules, trigger.
pub fn install_script(content: &str) -> (s: String)
    ensures
        s@ == "echo \""@ + trimmed(content@) + "\" > "@ + RULE_FILE@
            + " && udevadm control --reload-rules && udevadm trigger"@,
{
    let mut s = String::from_str("echo \"");
    s.append(trim(content));
    s.append("\" > ");
    s.append(RULE_FILE);
    s.append(" && udevadm control --reload-rules && udevadm trigger");
    s
}

/// What follows an install attempt.
#[derive(PartialEq, Eq, Structural, Debug, Clone, Copy)]
pub enum UdevStep {
    /// Run the installer again.
    TryAgain,
    /// Show "Installation Complete" and restart the application.
    Finish,
}

/// The failure dialog (Retry / Skip) follows every install attempt, whether or not it
/// succeeded. The installer runs again only when the attempt failed and the user chose Retry;
/// otherwise the application announces the installation and restarts.
pub fn udev_after_attempt(installed_ok: bool, retry: bool) -> (step: UdevStep)
    ensures
        step == (if retry && !installed_ok {
            UdevStep::TryAgain
        } else {
            UdevStep::Finish
        }),
{
    if retry && !installed_ok {
        UdevStep::TryAgain
    } else {
        UdevStep::Finish
    }
}

} // verus!
