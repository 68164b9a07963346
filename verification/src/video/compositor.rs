//! Decisions of the nested-compositor bootstrap on Linux: whether to start it, the display
//! size read from the kernel's DRM listing, and the command line and environment it is given.

use vstd::prelude::*;
use vstd::string::{StrSliceExecFns, StringExecFns};
use crate::audio::audio_output::{push_text, texts};
use crate::text::{decimal, text_eq, trim, trimmed, uint_text};
use crate::usb::udev_rule::{lines, lines_of};

verus! {

/// Environment variable set on the instance that runs inside the compositor.
pub const COMPOSITOR_ENV: &'static str = "AVIO_COMPOSITOR";

/// Environment variable that opts out of the compositor.
pub const NO_COMPOSITOR_ENV: &'static str = "AVIO_NO_COMPOSITOR";

/// The compositor starts unless this process already runs inside it or the user opted out
/// (either variable set to "1").
pub open spec fn bootstrap_spec(compositor: Option<Seq<char>>, no_compositor: Option<Seq<char>>) -> bool {
    compositor != Some("1"@) && no_compositor != Some("1"@)
}

fn is_one(v: Option<&str>) -> (b: bool)
    ensures
        b == (match v {
            Some(s) => Some(s@),
            None => None,
        } == Some("1"@)),
{
    match v {
        Some(s) => text_eq(s, "1"),
        None => false,
    }
}

pub fn should_bootstrap(compositor: Option<&str>, no_compositor: Option<&str>) -> (b: bool)
    ensures
        b == bootstrap_spec(
            match compositor {
                Some(s) => Some(s@),
                None => None,
            },
            match no_compositor {
                Some(s) => Some(s@),
                None => None,
            },
        ),
{
    !is_one(compositor) && !is_one(no_compositor)
}

pub open spec fn dec_digit(c: char) -> Option<nat> {
    if '0' <= c <= '9' {
        Some((c as nat - '0' as nat) as nat)
    } else {
        None
    }
}

pub open spec fn dec_digits_value(s: Seq<char>) -> Option<nat>
    decreases s.len(),
{
    if s.len() == 0 {
        Some(0)
    } else {
        match (dec_digits_value(s.drop_last()), dec_digit(s.last())) {
            (Some(v), Some(d)) => Some(v * 10 + d),
            _ => None,
        }
    }
}

/// `str::parse::<u32>`: an optional `+`, then one or more decimal digits whose value fits in
/// 32 bits.
pub open spec fn parse_u32_spec(s: Seq<char>) -> Option<u32> {
    let digits = if s.len() > 0 && s[0] == '+' {
        s.drop_first()
    } else {
        s
    };
    if digits.len() == 0 {
        None
    } else {
        match dec_digits_value(digits) {
            Some(v) => if v < 0x1_0000_0000 {
                Some(v as u32)
            } else {
                None
            },
            None => None,
        }
    }
}

pub open spec fn not_u32(o: Option<nat>) -> bool {
    match o {
        Some(v) => v >= 0x1_0000_0000,
        None => true,
    }
}

/// Once a prefix is no decimal number below 2^32, no longer prefix is.
proof fn lemma_dec_stays_bad(s: Seq<char>, k: nat)
    requires
        k <= s.len(),
        not_u32(dec_digits_value(s.take(k as int))),
    ensures
        not_u32(dec_digits_value(s)),
    decreases s.len() - k,
{
    if k < s.len() {
        assert(s.take(k as int + 1).drop_last() =~= s.take(k as int));
        lemma_dec_stays_bad(s, k + 1);
    } else {
        assert(s.take(k as int) =~= s);
    }
}

pub fn parse_u32(s: &str) -> (r: Option<u32>)
    ensures
        r == parse_u32_spec(s@),
{
    let cs = crate::text::chars_of(s);
    let start: usize = if cs.len() > 0 && cs[0] == '+' {
        1
    } else {
        0
    };
    let ghost digits = if s@.len() > 0 && s@[0] == '+' {
        s@.drop_first()
    } else {
        s@
    };
    proof {
        assert(cs@.skip(start as int) =~= digits);
    }
    if cs.len() == start {
        return None;
    }
    let mut v: u64 = 0;
    let mut i: usize = start;
    while i < cs.len()
        invariant
            start <= i <= cs@.len(),
            start <= 1,
            cs@ == s@,
            cs@.skip(start as int) == digits,
            digits == if s@.len() > 0 && s@[0] == '+' {
                s@.drop_first()
            } else {
                s@
            },
            digits.len() > 0,
            dec_digits_value(digits.take(i - start)) == Some(v as nat),
            v < 0x1_0000_0000,
        decreases cs@.len() - i,
    {
        let c = cs[i];
        proof {
            assert(digits.take(i - start + 1).drop_last() =~= digits.take(i - start));
            assert(digits.take(i - start + 1).last() == c);
        }
        if c < '0' || c > '9' {
            proof {
                assert(dec_digit(c) is None);
                lemma_dec_stays_bad(digits, (i - start + 1) as nat);
            }
            return None;
        }
        let d: u64 = c as u64 - '0' as u64;
        let next = v * 10 + d;
        if next >= 0x1_0000_0000 {
            proof {
                assert(dec_digit(c) == Some(d as nat));
                lemma_dec_stays_bad(digits, (i - start + 1) as nat);
            }
            return None;
        }
        proof {
            assert(dec_digit(c) == Some(d as nat));
        }
        v = next;
        i = i + 1;
    }
    proof {
        assert(digits.take(cs@.len() - start) =~= digits);
    }
    Some(v as u32)
}

/// Index of the first `x` in `s`, when there is one.
pub open spec fn first_x(s: Seq<char>) -> Option<int> {
    if exists|k: int| 0 <= k < s.len() && s[k] == 'x' {
        Some(
            choose|k: int|
                0 <= k < s.len() && s[k] == 'x' && forall|j: int| 0 <= j < k ==> s[j] != 'x',
        )
    } else {
        None
    }
}

/// A DRM mode line `<width>x<height>` (split at the first `x`, both sides parsed as `u32`).
pub open spec fn mode_size_spec(line: Seq<char>) -> Option<(u32, u32)> {
    match first_x(line) {
        Some(k) => match (parse_u32_spec(line.take(k)), parse_u32_spec(line.skip(k + 1))) {
            (Some(w), Some(h)) => Some((w, h)),
            _ => None,
        },
        None => None,
    }
}

pub fn mode_size(line: &str) -> (r: Option<(u32, u32)>)
    ensures
        r == mode_size_spec(line@),
{
    let cs = crate::text::chars_of(line);
    let mut k: usize = 0;
    while k < cs.len() && cs[k] != 'x'
        invariant
            k <= cs@.len(),
            cs@ == line@,
            forall|j: int| 0 <= j < k ==> cs@[j] != 'x',
        decreases cs@.len() - k,
    {
        k = k + 1;
    }
    if k == cs.len() {
        assert(!exists|j: int| 0 <= j < line@.len() && line@[j] == 'x');
        return None;
    }
    proof {
        assert(line@[k as int] == 'x');
        assert(exists|j: int| 0 <= j < line@.len() && line@[j] == 'x');
        let c = choose|j: int|
            0 <= j < line@.len() && line@[j] == 'x' && forall|i: int| 0 <= i < j ==> line@[i] != 'x';
        assert(0 <= c < line@.len() && line@[c] == 'x' && forall|i: int| 0 <= i < c ==> line@[i] != 'x') by {
            assert(0 <= k < line@.len() && line@[k as int] == 'x' && forall|i: int| 0 <= i < k ==> line@[i] != 'x');
        }
        assert(c == k as int) by {
            if c < k as int {
                assert(cs@[c] != 'x');
            }
            if c > k as int {
                assert(line@[k as int] != 'x');
            }
        }
        assert(first_x(line@) == Some(k as int));
    }
    let w_text = line.substring_char(0, k);
    let h_text = line.substring_char(k + 1, cs.len());
    proof {
        assert(w_text@ =~= line@.take(k as int));
        assert(h_text@ =~= line@.skip(k as int + 1));
    }
    match (parse_u32(w_text), parse_u32(h_text)) {
        (Some(w), Some(h)) => Some((w, h)),
        _ => None,
    }
}

/// A connector of the DRM listing: its `status` file and its `modes` file when readable.
pub struct DrmOutput {
    pub status: String,
    pub modes: Option<String>,
}

/// The preferred size of a connector: connected, with a readable mode list whose first line
/// is a `<width>x<height>` mode.
pub open spec fn output_size_spec(status: Seq<char>, modes: Option<Seq<char>>) -> Option<(u32, u32)> {
    if trimmed(status) != "connected"@ {
        None
    } else {
        match modes {
            Some(m) => if lines_of(m).len() > 0 {
                mode_size_spec(lines_of(m)[0])
            } else {
                None
            },
            None => None,
        }
    }
}

/// The size of the first connector, in listing order, that has one.
pub open spec fn first_output_size(outputs: Seq<(Seq<char>, Option<Seq<char>>)>) -> Option<(u32, u32)>
    decreases outputs.len(),
{
    if outputs.len() == 0 {
        None
    } else {
        match first_output_size(outputs.drop_last()) {
            Some(s) => Some(s),
            None => output_size_spec(outputs.last().0, outputs.last().1),
        }
    }
}

pub open spec fn outputs_view(v: Seq<DrmOutput>) -> Seq<(Seq<char>, Option<Seq<char>>)> {
    v.map_values(
        |o: DrmOutput|
            (
                o.status@,
                match o.modes {
                    Some(m) => Some(m@),
                    None => None,
                },
            ),
    )
}

fn output_size(o: &DrmOutput) -> (r: Option<(u32, u32)>)
    ensures
        r == output_size_spec(
            o.status@,
            match o.modes {
                Some(m) => Some(m@),
                None => None,
            },
        ),
{
    proof {
        reveal_strlit("connected");
    }
    if !text_eq(trim(o.status.as_str()), "connected") {
        return None;
    }
    match &o.modes {
        Some(m) => {
            let ls = lines(m.as_str());
            proof {
                assert(ls@.map_values(|l: String| l@).len() == ls@.len());
            }
            if ls.len() == 0 {
                return None;
            }
            proof {
                assert(ls@.map_values(|l: String| l@)[0] == ls@[0]@);
            }
            mode_size(ls[0].as_str())
        },
        None => None,
    }
}

/// The display size to give the compositor on bare metal: the first connected output's
/// preferred mode.
pub fn detect_output_size(outputs: &Vec<DrmOutput>) -> (r: Option<(u32, u32)>)
    ensures
        r == first_output_size(outputs_view(outputs@)),
{
    let ghost ov = outputs_view(outputs@);
    let mut found: Option<(u32, u32)> = None;
    let mut i: usize = 0;
    while i < outputs.len()
        invariant
            i <= outputs@.len(),
            ov == outputs_view(outputs@),
            found == first_output_size(ov.subrange(0, i as int)),
        decreases outputs@.len() - i,
    {
        assert(ov.subrange(0, i as int + 1).drop_last() =~= ov.subrange(0, i as int));
        assert(ov.subrange(0, i as int + 1).last() == ov[i as int]);
        if found.is_none() {
            found = output_size(&outputs[i]);
        }
        i = i + 1;
    }
    assert(ov.subrange(0, ov.len() as int) =~= ov);
    found
}

/// The compositor's control socket file name for this process id.
pub fn control_socket_name(pid: u32) -> (s: String)
    ensures
        s@ == "avio-compositor-"@ + decimal(pid as int) + ".sock"@,
{
    let mut s = String::from_str("avio-compositor-");
    s.append(uint_text(pid as u64).as_str());
    s.append(".sock");
    s
}

/// How the compositor is started: its arguments and the variables set for it.
pub struct CompositorLaunch {
    pub args: Vec<String>,
    pub env: Vec<(String, String)>,
}

pub open spec fn pairs_view(v: Seq<(String, String)>) -> Seq<(Seq<char>, Seq<char>)> {
    v.map_values(|p: (String, String)| (p.0@, p.1@))
}

/// The compositor runs this executable again (marked as the inner instance, on Wayland) as its
/// session client, reports on the control socket, shows the "main" screen and recognizes the
/// UI by `app_id`. On bare metal (`!nested`) it is told the output size; a host Wayland display
/// is passed on for display-mode queries.
pub open spec fn launch_spec(
    relaunch: Seq<char>,
    ctrl_sock: Seq<char>,
    app_id: Seq<char>,
    nested: bool,
    output_size: Option<(u32, u32)>,
    host_wayland_display: Option<Seq<char>>,
) -> (Seq<Seq<char>>, Seq<(Seq<char>, Seq<char>)>) {
    (
        seq!["-s"@, "AVIO_COMPOSITOR=1 GDK_BACKEND=wayland '"@ + relaunch + "'"@],
        seq![
            ("AVIO_COMPOSITOR_CTRL"@, ctrl_sock),
            ("AVIO_SCREENS"@, "main"@),
            ("AVIO_OUTPUT_APP_ID"@, app_id),
        ] + (match output_size {
            Some((w, h)) => if !nested {
                seq![("AVIO_OUTPUT_SIZE"@, decimal(w as int) + "x"@ + decimal(h as int))]
            } else {
                Seq::empty()
            },
            None => Seq::empty(),
        }) + match host_wayland_display {
            Some(d) => seq![("AVIO_HOST_WAYLAND_DISPLAY"@, d)],
            None => Seq::empty(),
        },
    )
}

fn push_pair(env: &mut Vec<(String, String)>, k: &str, v: String)
    ensures
        pairs_view(final(env)@) == pairs_view(old(env)@).push((k@, v@)),
{
    let ghost before = pairs_view(env@);
    env.push((String::from_str(k), v));
    assert(pairs_view(env@) =~= before.push((k@, v@)));
}

pub fn compositor_launch(
    relaunch: &str,
    ctrl_sock: &str,
    app_id: &str,
    nested: bool,
    output_size: Option<(u32, u32)>,
    host_wayland_display: Option<&str>,
) -> (l: CompositorLaunch)
    ensures
        (texts(l.args@), pairs_view(l.env@)) == launch_spec(
            relaunch@,
            ctrl_sock@,
            app_id@,
            nested,
            output_size,
            match host_wayland_display {
                Some(d) => Some(d@),
                None => None,
            },
        ),
{
    let mut args: Vec<String> = Vec::new();
    push_text(&mut args, String::from_str("-s"));
    let mut inner = String::from_str("AVIO_COMPOSITOR=1 GDK_BACKEND=wayland '");
    inner.append(relaunch);
    inner.append("'");
    push_text(&mut args, inner);
    let mut env: Vec<(String, String)> = Vec::new();
    push_pair(&mut env, "AVIO_COMPOSITOR_CTRL", String::from_str(ctrl_sock));
    push_pair(&mut env, "AVIO_SCREENS", String::from_str("main"));
    push_pair(&mut env, "AVIO_OUTPUT_APP_ID", String::from_str(app_id));
    if !nested {
        if let Some((w, h)) = output_size {
            let mut size = uint_text(w as u64);
            size.append("x");
            size.append(uint_text(h as u64).as_str());
            push_pair(&mut env, "AVIO_OUTPUT_SIZE", size);
        }
    }
    if let Some(d) = host_wayland_display {
        push_pair(&mut env, "AVIO_HOST_WAYLAND_DISPLAY", String::from_str(d));
    }
    let l = CompositorLaunch { args, env };
    assert(texts(l.args@) =~= seq!["-s"@, "AVIO_COMPOSITOR=1 GDK_BACKEND=wayland '"@ + relaunch@ + "'"@]);
    assert((texts(l.args@), pairs_view(l.env@)) == launch_spec(
        relaunch@,
        ctrl_sock@,
        app_id@,
        nested,
        output_size,
        match host_wayland_display {
            Some(d) => Some(d@),
            None => None,
        },
    ));
    l
}

} // verus!
