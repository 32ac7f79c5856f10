//! App: the settings the program runs with, and the report of the headless
//! self-check.
//!
//! Loading the configuration, decoding the sounds and running the input
//! listener happen outside the library; the self-check hands the compiled
//! configuration and which slots decoded to `check_report`.
use crate::config::{opt_view, CompiledConfig};
use crate::domain::SoundId;
use std::path::PathBuf;
use vstd::prelude::*;

verus! {

/// The standard library's owned filesystem path, carried as the configuration
/// directory.
#[verifier::external_type_specification]
#[verifier::external_body]
pub struct ExPathBuf(PathBuf);

/// The settings of one run.
pub struct App {
    config_dir: PathBuf,
    enable_trackpads: bool,
    buffer_frames: Option<u32>,
}

impl App {
    pub closed spec fn config_dir_spec(&self) -> PathBuf {
        self.config_dir
    }

    pub closed spec fn trackpads_enabled(&self) -> bool {
        self.enable_trackpads
    }

    pub closed spec fn buffer_frames_spec(&self) -> Option<u32> {
        self.buffer_frames
    }

    pub fn new(config_dir: PathBuf, enable_trackpads: bool, buffer_frames: Option<u32>) -> (r: App)
        ensures
            r.config_dir_spec() == config_dir,
            r.trackpads_enabled() == enable_trackpads,
            r.buffer_frames_spec() == buffer_frames,
    {
        App { config_dir, enable_trackpads, buffer_frames }
    }

    /// The configuration directory.
    pub fn config_dir(&self) -> (r: &PathBuf)
        ensures
            *r == self.config_dir_spec(),
    {
        &self.config_dir
    }

    /// Whether trackpad input also plays.
    pub fn enable_trackpads(&self) -> (r: bool)
        ensures
            r == self.trackpads_enabled(),
    {
        self.enable_trackpads
    }

    /// The fixed audio buffer size (frames), if one was asked for.
    pub fn buffer_frames(&self) -> (r: Option<u32>)
        ensures
            r == self.buffer_frames_spec(),
    {
        self.buffer_frames
    }
}

/// One line of the self-check: a sound slot, its filename, and whether it
/// decoded.
#[derive(Debug, Clone, PartialEq, Eq)]
pub struct SoundReport {
    pub index: u16,
    pub name: String,
    pub ok: bool,
}

/// What the self-check reports.
#[derive(Debug, Clone, PartialEq, Eq)]
pub struct CheckReport {
    /// Number of sound slots.
    pub total: u16,
    /// Number of slots that decoded.
    pub loaded: usize,
    /// Number of rules.
    pub rules: usize,
    /// Number of default sounds.
    pub defaults: usize,
    /// One entry per slot `1..=total` that holds a filename, in order.
    pub sounds: Vec<SoundReport>,
}

/// How many entries of `s` are `true`.
pub open spec fn count_true(s: Seq<bool>) -> nat
    decreases s.len(),
{
    if s.len() == 0 {
        0
    } else {
        count_true(s.drop_last()) + if s.last() {
            1nat
        } else {
            0nat
        }
    }
}

/// The count of `true` entries is order-independent and additive: it is the
/// length of the `true` entries filtered out, adding a `true` adds one and
/// adding a `false` adds nothing, and a concatenation counts both parts.
pub proof fn lemma_count_true(s: Seq<bool>, t: Seq<bool>)
    ensures
        count_true(s) == s.filter(|b: bool| b).len(),
        count_true(s.push(true)) == count_true(s) + 1,
        count_true(s.push(false)) == count_true(s),
        count_true(s + t) == count_true(s) + count_true(t),
        count_true(s) <= s.len(),
    decreases t.len(),
{
    lemma_count_filter(s);
    assert(s.push(true).drop_last() =~= s);
    assert(s.push(false).drop_last() =~= s);
    lemma_count_bounded(s);
    if t.len() == 0 {
        assert(s + t =~= s);
    } else {
        lemma_count_true(s, t.drop_last());
        assert((s + t).drop_last() =~= s + t.drop_last());
    }
}

proof fn lemma_count_bounded(s: Seq<bool>)
    ensures
        count_true(s) <= s.len(),
    decreases s.len(),
{
    if s.len() > 0 {
        lemma_count_bounded(s.drop_last());
    }
}

proof fn lemma_count_filter(s: Seq<bool>)
    ensures
        count_true(s) == s.filter(|b: bool| b).len(),
    decreases s.len(),
{
    reveal(Seq::filter);
    if s.len() > 0 {
        lemma_count_filter(s.drop_last());
    }
}

/// The report line of slot `index` (1-based): present when the slot holds a
/// filename; `ok` when that slot decoded.
pub open spec fn slot_line(sounds: Seq<Option<String>>, decoded: Seq<bool>, index: int) -> Option<
    (u16, Seq<char>, bool),
> {
    if 1 <= index <= sounds.len() && sounds[index - 1] is Some {
        Some(
            (
                index as u16,
                opt_view(sounds[index - 1])->0,
                index - 1 < decoded.len() && decoded[index - 1],
            ),
        )
    } else {
        None
    }
}

/// The report lines of slots `1..=total`.
pub open spec fn report_lines(sounds: Seq<Option<String>>, decoded: Seq<bool>, total: u16) -> Seq<
    (u16, Seq<char>, bool),
> {
    Seq::new(total as nat, |k: int| k + 1).filter_map(|i: int| slot_line(sounds, decoded, i))
}

/// The view of one report line.
pub open spec fn line_view(l: SoundReport) -> (u16, Seq<char>, bool) {
    (l.index, l.name@, l.ok)
}

/// The headless self-check: counts of slots, decoded slots, rules and
/// defaults, and one line per named slot. `decoded[i]` says whether slot
/// `i + 1` decoded.
pub fn check_report(config: &CompiledConfig, decoded: &Vec<bool>) -> (r: CheckReport)
    ensures
        r.total == config.sounds@.len() as u16,
        r.loaded == count_true(decoded@),
        r.rules == config.rules@.len(),
        r.defaults == config.default_ids@.len(),
        r.sounds@.map_values(|l: SoundReport| line_view(l)) == report_lines(
            config.sounds@,
            decoded@,
            r.total,
        ),
{
    let total = config.sound_count();
    let mut loaded: usize = 0;
    let mut i: usize = 0;
    while i < decoded.len()
        invariant
            i <= decoded@.len(),
            loaded == count_true(decoded@.take(i as int)),
            loaded <= i,
        decreases decoded@.len() - i,
    {
        proof {
            assert(decoded@.take(i + 1).drop_last() =~= decoded@.take(i as int));
        }
        if decoded[i] {
            loaded = loaded + 1;
        }
        i = i + 1;
    }
    assert(decoded@.take(decoded@.len() as int) =~= decoded@);

    let ghost idx = Seq::new(total as nat, |k: int| k + 1);
    let ghost f = |i: int| slot_line(config.sounds@, decoded@, i);
    let mut lines: Vec<SoundReport> = Vec::new();
    let mut n: u16 = 0;
    while n < total
        invariant
            n <= total,
            total == config.sounds@.len() as u16,
            idx == Seq::new(total as nat, |k: int| k + 1),
            f == (|i: int| slot_line(config.sounds@, decoded@, i)),
            lines@.map_values(|l: SoundReport| line_view(l)) == idx.take(n as int).filter_map(f),
        decreases total - n,
    {
        proof {
            idx.lemma_filter_map_take_succ(f, n as int);
        }
        let index: u16 = n + 1;
        match SoundId::new(index) {
            Some(sid) => {
                let ghost before = lines@;
                match config.filename(sid) {
                    Some(name) => {
                        let ok = (index as usize - 1) < decoded.len() && decoded[index as usize
                            - 1];
                        lines.push(SoundReport { index, name: name.to_owned(), ok });
                        assert(lines@.map_values(|l: SoundReport| line_view(l)) =~= before.map_values(
                            |l: SoundReport| line_view(l),
                        ).push(line_view(lines@[before.len() as int])));
                    },
                    None => {},
                }
            },
            None => {},
        }
        n = n + 1;
    }
    assert(idx.take(total as int) =~= idx);
    CheckReport {
        total,
        loaded,
        rules: config.rules.len(),
        defaults: config.default_ids.len(),
        sounds: lines,
    }
}

} // verus!
