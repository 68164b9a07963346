//! Messages of the compositor's control channel. Video planes are addressed by tag: claimed,
//! then placed and cropped (`videocfg`) and shown or hidden (`videoshow`). Settings are kept by
//! key and sent again on every flush, so a reconnected compositor gets the whole picture;
//! one-shot messages are sent once.

use vstd::prelude::*;
use vstd::string::StringExecFns;
use crate::audio::audio_output::texts;
use crate::text::{decimal, uint_text};
use crate::video::{hex_to_rgb255, rgb_of};

verus! {

pub open spec fn bit(b: bool) -> Seq<char> {
    if b {
        "1"@
    } else {
        "0"@
    }
}

/// `claim <tag>`: the next new video toplevel gets this tag.
pub open spec fn claim_line(tag: Seq<char>) -> Seq<char> {
    "claim "@ + tag + "\n"@
}

/// `videocfg <tag> <screen> <crop_l> <crop_t> <vis_w> <vis_h> <tier_w> <tier_h>`.
pub open spec fn videocfg_line(tag: Seq<char>, screen: Seq<char>, g: (u32, u32, u32, u32, u32, u32)) -> Seq<char> {
    "videocfg "@ + tag + " "@ + screen + " "@ + decimal(g.0 as int) + " "@ + decimal(g.1 as int)
        + " "@ + decimal(g.2 as int) + " "@ + decimal(g.3 as int) + " "@ + decimal(g.4 as int)
        + " "@ + decimal(g.5 as int) + "\n"@
}

/// `videoshow <tag> <0|1>`.
pub open spec fn videoshow_line(tag: Seq<char>, visible: bool) -> Seq<char> {
    "videoshow "@ + tag + " "@ + bit(visible) + "\n"@
}

/// `screen <role> <0|1>[ <w> <h>]`, the size only when both sides are positive.
pub open spec fn screen_line(role: Seq<char>, on: bool, size: Option<(u32, u32)>) -> Seq<char> {
    "screen "@ + role + " "@ + bit(on) + match size {
        Some((w, h)) => if w > 0 && h > 0 {
            " "@ + decimal(w as int) + " "@ + decimal(h as int)
        } else {
            Seq::empty()
        },
        None => Seq::empty(),
    } + "\n"@
}

/// `backdrop <r> <g> <b>` from a `#rrggbb` colour (black when malformed).
pub open spec fn backdrop_line(hex: Seq<char>) -> Seq<char> {
    let (r, g, b) = rgb_of(Some(hex));
    "backdrop "@ + decimal(r as int) + " "@ + decimal(g as int) + " "@ + decimal(b as int) + "\n"@
}

/// `settings` with `key` set to `line`: an existing entry for the key is replaced in place,
/// a new key is appended.
pub open spec fn set_setting(settings: Seq<(Seq<char>, Seq<char>)>, key: Seq<char>, line: Seq<char>) -> Seq<
    (Seq<char>, Seq<char>),
> {
    if exists|i: int| 0 <= i < settings.len() && settings[i].0 == key {
        settings.update(choose|i: int| 0 <= i < settings.len() && settings[i].0 == key, (key, line))
    } else {
        settings.push((key, line))
    }
}

pub open spec fn keys_unique(settings: Seq<(Seq<char>, Seq<char>)>) -> bool {
    forall|i: int, j: int| 0 <= i < j < settings.len() ==> settings[i].0 != settings[j].0
}

/// A later setting for the same key replaces the earlier one: the compositor is sent only the
/// latest placement, visibility or backdrop, once.
pub proof fn lemma_setting_replaces(
    settings: Seq<(Seq<char>, Seq<char>)>,
    key: Seq<char>,
    first: Seq<char>,
    second: Seq<char>,
)
    requires
        keys_unique(settings),
    ensures
        keys_unique(set_setting(settings, key, first)),
        set_setting(set_setting(settings, key, first), key, second) == set_setting(settings, key, second),
{
    let t = set_setting(settings, key, first);
    if exists|i: int| 0 <= i < settings.len() && settings[i].0 == key {
        let c = choose|i: int| 0 <= i < settings.len() && settings[i].0 == key;
        assert(t == settings.update(c, (key, first)));
        assert(keys_unique(t)) by {
            assert forall|a: int, b: int| 0 <= a < b < t.len() implies t[a].0 != t[b].0 by {
                assert(settings[a].0 != settings[b].0);
            }
        }
        assert(t[c].0 == key);
        let c2 = choose|i: int| 0 <= i < t.len() && t[i].0 == key;
        assert(c2 == c) by {
            if c2 != c {
                if c2 < c {
                    assert(t[c2].0 != t[c].0);
                } else {
                    assert(t[c].0 != t[c2].0);
                }
            }
        }
        assert(t.update(c2, (key, second)) =~= settings.update(c, (key, second)));
    } else {
        assert(t == settings.push((key, first)));
        assert(keys_unique(t)) by {
            assert forall|a: int, b: int| 0 <= a < b < t.len() implies t[a].0 != t[b].0 by {
                if b == settings.len() {
                    assert(settings[a].0 != key);
                } else {
                    assert(settings[a].0 != settings[b].0);
                }
            }
        }
        let n = settings.len() as int;
        assert(t[n].0 == key);
        let c2 = choose|i: int| 0 <= i < t.len() && t[i].0 == key;
        assert(c2 == n) by {
            if c2 < n {
                assert(settings[c2].0 == key);
            }
        }
        assert(t.update(c2, (key, second)) =~= settings.push((key, second)));
    }
}

pub struct ControlView {
    pub outbox: Seq<Seq<char>>,
    pub settings: Seq<(Seq<char>, Seq<char>)>,
}

/// What is waiting to go to the compositor.
pub struct CompositorMessages {
    /// One-shot messages, in order.
    pub outbox: Vec<String>,
    /// Settings by key, each key once; the lines are sent again on every flush.
    pub settings: Vec<(String, String)>,
}

impl View for CompositorMessages {
    type V = ControlView;

    open spec fn view(&self) -> ControlView {
        ControlView {
            outbox: texts(self.outbox@),
            settings: self.settings@.map_values(|p: (String, String)| (p.0@, p.1@)),
        }
    }
}

fn cat(a: &str, b: &str) -> (s: String)
    ensures
        s@ == a@ + b@,
{
    let mut s = String::from_str(a);
    s.append(b);
    s
}

fn bit_text(b: bool) -> (s: &'static str)
    ensures
        s@ == bit(b),
{
    if b {
        "1"
    } else {
        "0"
    }
}

impl CompositorMessages {
    pub open spec fn wf(&self) -> bool {
        keys_unique(self@.settings)
    }

    pub fn new() -> (m: Self)
        ensures
            m.wf(),
            m@.outbox.len() == 0,
            m@.settings.len() == 0,
    {
        let m = CompositorMessages { outbox: Vec::new(), settings: Vec::new() };
        assert(m@.settings =~= Seq::<(Seq<char>, Seq<char>)>::empty());
        m
    }

    fn set(&mut self, key: String, line: String)
        requires
            old(self).wf(),
        ensures
            final(self).wf(),
            final(self)@ == (ControlView {
                settings: set_setting(old(self)@.settings, key@, line@),
                ..old(self)@
            }),
    {
        let ghost k = key@;
        let ghost l = line@;
        let ghost before = self@.settings;
        let mut i: usize = 0;
        while i < self.settings.len()
            invariant
                i <= self.settings@.len(),
                before == self@.settings,
                self@ == old(self)@,
                keys_unique(before),
                k == key@,
                l == line@,
                forall|j: int| 0 <= j < i ==> before[j].0 != k,
            decreases self.settings@.len() - i,
        {
            if crate::text::text_eq(self.settings[i].0.as_str(), key.as_str()) {
                assert(before[i as int].0 == k);
                self.settings.set(i, (key, line));
                proof {
                    let c = choose|j: int| 0 <= j < before.len() && before[j].0 == k;
                    assert(c == i as int) by {
                        if c != i as int {
                            if c < i as int {
                                assert(before[c].0 != k);
                            } else {
                                assert(before[i as int].0 != before[c].0);
                            }
                        }
                    }
                    assert(self@.settings =~= before.update(i as int, (k, l)));
                    assert(keys_unique(self@.settings)) by {
                        assert forall|a: int, b: int| 0 <= a < b < self@.settings.len() implies
                            self@.settings[a].0 != self@.settings[b].0 by {
                            assert(before[a].0 != before[b].0);
                        }
                    }
                }
                return;
            }
            i = i + 1;
        }
        self.settings.push((key, line));
        assert(self@.settings =~= before.push((k, l)));
        assert(keys_unique(self@.settings)) by {
            assert forall|a: int, b: int| 0 <= a < b < self@.settings.len() implies self@.settings[a].0
                != self@.settings[b].0 by {
                if b == before.len() {
                    assert(before[a].0 != k);
                }
            }
        }
    }

    fn send_once(&mut self, line: String)
        ensures
            final(self)@ == (ControlView { outbox: old(self)@.outbox.push(line@), ..old(self)@ }),
            final(self).settings == old(self).settings,
    {
        let ghost before = self@.outbox;
        self.outbox.push(line);
        assert(self@.outbox =~= before.push(line@));
    }

    /// Tag the next video toplevel.
    pub fn claim(&mut self, tag: &str)
        requires
            old(self).wf(),
        ensures
            final(self).wf(),
            final(self)@ == (ControlView { outbox: old(self)@.outbox.push(claim_line(tag@)), ..old(self)@ }),
    {
        let mut line = cat("claim ", tag);
        line.append("\n");
        self.send_once(line);
    }

    /// Place the tagged plane on a screen with its content region (kept as `cfg:<tag>`).
    pub fn videocfg(&mut self, tag: &str, screen: &str, crop_l: u32, crop_t: u32, vis_w: u32, vis_h: u32, tier_w: u32, tier_h: u32)
        requires
            old(self).wf(),
        ensures
            final(self).wf(),
            final(self)@ == (ControlView {
                settings: set_setting(
                    old(self)@.settings,
                    "cfg:"@ + tag@,
                    videocfg_line(tag@, screen@, (crop_l, crop_t, vis_w, vis_h, tier_w, tier_h)),
                ),
                ..old(self)@
            }),
    {
        let mut line = cat("videocfg ", tag);
        line.append(" ");
        line.append(screen);
        let nums = [crop_l, crop_t, vis_w, vis_h, tier_w, tier_h];
        let ghost head = line@;
        let mut i: usize = 0;
        while i < 6
            invariant
                i <= 6,
                nums@ == seq![crop_l, crop_t, vis_w, vis_h, tier_w, tier_h],
                line@ == head + nums_text(nums@.take(i as int)),
            decreases 6 - i,
        {
            line.append(" ");
            line.append(uint_text(nums[i] as u64).as_str());
            proof {
                assert(nums@.take(i as int + 1).drop_last() =~= nums@.take(i as int));
            }
            i = i + 1;
        }
        line.append("\n");
        proof {
            assert(nums@.take(6) =~= nums@);
            reveal_with_fuel(nums_text, 7);
            assert(nums_text(nums@) =~= " "@ + decimal(crop_l as int) + " "@ + decimal(crop_t as int)
                + " "@ + decimal(vis_w as int) + " "@ + decimal(vis_h as int) + " "@ + decimal(tier_w as int)
                + " "@ + decimal(tier_h as int)) by {
                assert(nums@.take(1).drop_last() =~= Seq::<u32>::empty());
                assert(nums@.take(2).drop_last() =~= nums@.take(1));
                assert(nums@.take(3).drop_last() =~= nums@.take(2));
                assert(nums@.take(4).drop_last() =~= nums@.take(3));
                assert(nums@.take(5).drop_last() =~= nums@.take(4));
                assert(nums@.drop_last() =~= nums@.take(5));
            }
        }
        assert(line@ =~= videocfg_line(tag@, screen@, (crop_l, crop_t, vis_w, vis_h, tier_w, tier_h)));
        let key = cat("cfg:", tag);
        self.set(key, line);
    }

    /// Show or hide the tagged plane (kept as `show:<tag>`).
    pub fn videoshow(&mut self, tag: &str, visible: bool)
        requires
            old(self).wf(),
        ensures
            final(self).wf(),
            final(self)@ == (ControlView {
                settings: set_setting(old(self)@.settings, "show:"@ + tag@, videoshow_line(tag@, visible)),
                ..old(self)@
            }),
    {
        let mut line = cat("videoshow ", tag);
        line.append(" ");
        line.append(bit_text(visible));
        line.append("\n");
        let key = cat("show:", tag);
        self.set(key, line);
    }

    /// Open or close a role's nested output (kept as `screen:<role>`).
    pub fn screen(&mut self, role: &str, on: bool, size: Option<(u32, u32)>)
        requires
            old(self).wf(),
        ensures
            final(self).wf(),
            final(self)@ == (ControlView {
                settings: set_setting(old(self)@.settings, "screen:"@ + role@, screen_line(role@, on, size)),
                ..old(self)@
            }),
    {
        let mut line = cat("screen ", role);
        line.append(" ");
        line.append(bit_text(on));
        if let Some((w, h)) = size {
            if w > 0 && h > 0 {
                line.append(" ");
                line.append(uint_text(w as u64).as_str());
                line.append(" ");
                line.append(uint_text(h as u64).as_str());
            }
        }
        line.append("\n");
        assert(line@ =~= screen_line(role@, on, size));
        let key = cat("screen:", role);
        self.set(key, line);
    }

    /// The compositor's backdrop colour (kept as `__backdrop__`).
    pub fn set_backdrop(&mut self, hex: &str)
        requires
            old(self).wf(),
        ensures
            final(self).wf(),
            final(self)@ == (ControlView {
                settings: set_setting(old(self)@.settings, "__backdrop__"@, backdrop_line(hex@)),
                ..old(self)@
            }),
    {
        let (r, g, b) = hex_to_rgb255(Some(hex));
        let mut line = String::from_str("backdrop ");
        line.append(uint_text(r as u64).as_str());
        line.append(" ");
        line.append(uint_text(g as u64).as_str());
        line.append(" ");
        line.append(uint_text(b as u64).as_str());
        line.append("\n");
        self.set(String::from_str("__backdrop__"), line);
    }

    /// Ask the compositor to relaunch its inner UI (sent once).
    pub fn restart(&mut self)
        requires
            old(self).wf(),
        ensures
            final(self).wf(),
            final(self)@ == (ControlView { outbox: old(self)@.outbox.push("restart\n"@), ..old(self)@ }),
    {
        self.send_once(String::from_str("restart\n"));
    }

    /// Everything a flush writes, in order: the one-shot messages (which then are gone), then
    /// every kept setting.
    pub fn flush(&mut self) -> (lines: Vec<String>)
        requires
            old(self).wf(),
        ensures
            final(self).wf(),
            final(self)@ == (ControlView { outbox: Seq::empty(), ..old(self)@ }),
            texts(lines@) == old(self)@.outbox + old(self)@.settings.map_values(
                |p: (Seq<char>, Seq<char>)| p.1,
            ),
    {
        let mut lines: Vec<String> = Vec::new();
        std::mem::swap(&mut lines, &mut self.outbox);
        let ghost head = texts(lines@);
        let ghost kept = self@.settings;
        let mut i: usize = 0;
        while i < self.settings.len()
            invariant
                i <= self.settings@.len(),
                kept == self@.settings,
                texts(lines@) == head + kept.subrange(0, i as int).map_values(
                    |p: (Seq<char>, Seq<char>)| p.1,
                ),
            decreases self.settings@.len() - i,
        {
            let ghost before = texts(lines@);
            lines.push(self.settings[i].1.clone());
            proof {
                assert(texts(lines@) =~= before.push(kept[i as int].1));
                assert(kept.subrange(0, i as int + 1).map_values(|p: (Seq<char>, Seq<char>)| p.1)
                    =~= kept.subrange(0, i as int).map_values(|p: (Seq<char>, Seq<char>)| p.1).push(
                    kept[i as int].1,
                ));
            }
            i = i + 1;
        }
        proof {
            assert(kept.subrange(0, kept.len() as int) =~= kept);
            assert(self@.outbox =~= Seq::<Seq<char>>::empty());
        }
        lines
    }
}

/// ` <n>` for each number, in order.
pub open spec fn nums_text(nums: Seq<u32>) -> Seq<char>
    decreases nums.len(),
{
    if nums.len() == 0 {
        Seq::empty()
    } else {
        nums_text(nums.drop_last()) + " "@ + decimal(nums.last() as int)
    }
}

} // verus!
