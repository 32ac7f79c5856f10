//! Configuration: a raw sound configuration is *compiled* into `SoundId`-only
//! rules.
//!
//! The pipeline only ever sees `CompiledConfig`, which holds `SoundId`s.
//! Filenames are resolved exactly once, in `compile`.
use crate::domain::{Action, CompiledRule, InputEvent, MouseButton, SoundId};
use std::path::PathBuf;
use vstd::prelude::*;

verus! {

broadcast use SoundId::lemma_value_injective;

/// The I/O error of the standard library, carried in `ConfigError::Io`.
#[verifier::external_type_specification]
#[verifier::external_body]
pub struct ExIoError(std::io::Error);

/// The JSON error of serde_json, carried in `ConfigError::Json`.
#[verifier::external_type_specification]
#[verifier::external_body]
pub struct ExJsonError(serde_json::Error);

/// Raw configuration, as written in `config.json`.
///
/// `mappings` holds the `"<keycode>" -> "<soundfile>"` object as a list of
/// pairs; a configuration read from JSON has no key twice (see `wf`).
pub struct RawConfig {
    /// Sounds played when a key has no explicit mapping.
    pub defaults: Vec<String>,
    /// `"<keycode>" -> "<soundfile.wav>"` pairs.
    pub mappings: Vec<(String, String)>,
}

/// The character sequences of a list of strings.
pub open spec fn str_views(v: Seq<String>) -> Seq<Seq<char>> {
    v.map_values(|s: String| s@)
}

/// The character sequences of a list of string pairs.
pub open spec fn pair_views(v: Seq<(String, String)>) -> Seq<(Seq<char>, Seq<char>)> {
    v.map_values(|p: (String, String)| (p.0@, p.1@))
}

impl RawConfig {
    pub open spec fn defaults_view(&self) -> Seq<Seq<char>> {
        str_views(self.defaults@)
    }

    pub open spec fn mappings_view(&self) -> Seq<(Seq<char>, Seq<char>)> {
        pair_views(self.mappings@)
    }

    /// No mapping key occurs twice (what a JSON object guarantees).
    pub open spec fn wf(&self) -> bool {
        forall|i: int, j: int|
            0 <= i < j < self.mappings@.len() ==> #[trigger] self.mappings@[i].0@
                != #[trigger] self.mappings@[j].0@
    }

    /// Every filename the configuration names: the defaults first, then the
    /// mapping values, in order.
    pub open spec fn filenames(&self) -> Seq<Seq<char>> {
        self.defaults_view() + self.mappings_view().map_values(
            |p: (Seq<char>, Seq<char>)| p.1,
        )
    }
}

/// The distinct elements of `s`, in the order in which each first occurs.
pub open spec fn first_seen(s: Seq<Seq<char>>) -> Seq<Seq<char>>
    decreases s.len(),
{
    if s.len() == 0 {
        Seq::empty()
    } else {
        let d = first_seen(s.drop_last());
        if d.contains(s.last()) {
            d
        } else {
            d.push(s.last())
        }
    }
}

/// The slot number (1-based) of `name` in the sound table.
pub open spec fn slot_of(table: Seq<Seq<char>>, name: Seq<char>) -> u16 {
    (table.index_of(name) + 1) as u16
}

/// `true` for an ASCII decimal digit.
pub open spec fn is_digit(c: char) -> bool {
    '0' <= c && c <= '9'
}

/// The value of a sequence of decimal digits (0 for the empty sequence).
pub open spec fn digits_value(s: Seq<char>) -> int
    decreases s.len(),
{
    if s.len() == 0 {
        0
    } else {
        digits_value(s.drop_last()) * 10 + (s.last() as int - '0' as int)
    }
}

/// The part of a number after an optional leading `+`.
pub open spec fn unsigned_digits(s: Seq<char>) -> Seq<char> {
    if s.len() > 0 && s[0] == '+' {
        s.drop_first()
    } else {
        s
    }
}

/// What the standard library's `str::parse::<u16>` accepts: an optional `+`,
/// then one or more ASCII digits whose value fits in 16 bits.
pub open spec fn parse_u16_spec(s: Seq<char>) -> Option<u16> {
    let body = unsigned_digits(s);
    if body.len() > 0 && (forall|i: int| 0 <= i < body.len() ==> is_digit(#[trigger] body[i]))
        && digits_value(body) <= 65535 {
        Some(digits_value(body) as u16)
    } else {
        None
    }
}

/// The decimal digit for `d` (0..=9).
pub open spec fn digit_char(d: int) -> char {
    if d == 0 {
        '0'
    } else if d == 1 {
        '1'
    } else if d == 2 {
        '2'
    } else if d == 3 {
        '3'
    } else if d == 4 {
        '4'
    } else if d == 5 {
        '5'
    } else if d == 6 {
        '6'
    } else if d == 7 {
        '7'
    } else if d == 8 {
        '8'
    } else {
        '9'
    }
}

/// The decimal text of `n`, without sign or leading zeros.
pub open spec fn decimal(n: nat) -> Seq<char>
    decreases n,
{
    if n < 10 {
        seq![digit_char(n as int)]
    } else {
        decimal(n / 10).push(digit_char((n % 10) as int))
    }
}

proof fn lemma_decimal_digits(n: nat)
    ensures
        decimal(n).len() > 0,
        forall|i: int| 0 <= i < decimal(n).len() ==> is_digit(#[trigger] decimal(n)[i]),
        digits_value(decimal(n)) == n,
        decimal(n)[0] != '+',
    decreases n,
{
    if n < 10 {
        assert(decimal(n).drop_last() =~= Seq::<char>::empty());
        assert(digits_value(Seq::<char>::empty()) == 0);
        assert(digit_char(n as int) as int - '0' as int == n);
    } else {
        lemma_decimal_digits(n / 10);
        let d = decimal(n / 10);
        assert(decimal(n).drop_last() =~= d);
        assert(decimal(n)[0] == d[0]);
        assert(digit_char((n % 10) as int) as int - '0' as int == n % 10);
        assert(digits_value(decimal(n)) == digits_value(d) * 10 + (n % 10));
        assert forall|i: int| 0 <= i < decimal(n).len() implies is_digit(#[trigger] decimal(n)[i]) by {
            if i < d.len() {
                assert(decimal(n)[i] == d[i]);
            }
        }
    }
}

/// Every number that fits in 16 bits parses back from its decimal text, as
/// `str::parse::<u16>` parses it; a mapping key that is that text triggers the
/// keyboard key with that code (the three mouse keys 272, 273 and 274 aside).
pub proof fn lemma_decimal_keys_parse(n: nat)
    requires
        n <= 65535,
    ensures
        parse_u16_spec(decimal(n)) == Some(n as u16),
        !(n == 272 || n == 273 || n == 274) ==> trigger_of(decimal(n)) == Some(
            InputEvent::Key(n as u16),
        ),
{
    lemma_decimal_digits(n);
    assert(unsigned_digits(decimal(n)) == decimal(n));
    if !(n == 272 || n == 273 || n == 274) {
        assert(decimal(n) != seq!['2', '7', '2']) by {
            if decimal(n) == seq!['2', '7', '2'] {
                lemma_digits_272();
            }
        }
        assert(decimal(n) != seq!['2', '7', '3']) by {
            if decimal(n) == seq!['2', '7', '3'] {
                lemma_digits_272();
            }
        }
        assert(decimal(n) != seq!['2', '7', '4']) by {
            if decimal(n) == seq!['2', '7', '4'] {
                lemma_digits_272();
            }
        }
    }
}

proof fn lemma_digits_272()
    ensures
        digits_value(seq!['2', '7', '2']) == 272,
        digits_value(seq!['2', '7', '3']) == 273,
        digits_value(seq!['2', '7', '4']) == 274,
{
    assert(seq!['2', '7', '2'].drop_last() =~= seq!['2', '7']);
    assert(seq!['2', '7', '3'].drop_last() =~= seq!['2', '7']);
    assert(seq!['2', '7', '4'].drop_last() =~= seq!['2', '7']);
    assert(seq!['2', '7'].drop_last() =~= seq!['2']);
    assert(seq!['2'].drop_last() =~= Seq::<char>::empty());
    assert(digits_value(Seq::<char>::empty()) == 0);
    assert(digits_value(seq!['2']) == 2);
    assert(digits_value(seq!['2', '7']) == 27);
}

/// A key that parses is made of an optional `+` and digits only, and its
/// value is the number those digits write; so parsing never accepts any
/// other character and never changes the number.
pub proof fn lemma_parsed_keys_are_decimal(s: Seq<char>)
    ensures
        parse_u16_spec(s) is Some ==> {
            let body = if s.len() > 0 && s[0] == '+' {
                s.drop_first()
            } else {
                s
            };
            &&& body.len() > 0
            &&& forall|i: int| 0 <= i < body.len() ==> '0' <= #[trigger] body[i] <= '9'
            &&& parse_u16_spec(s)->0 as int == digits_value(body)
        },
{
    let body = unsigned_digits(s);
    if parse_u16_spec(s) is Some {
        lemma_digits_prefix(body, 0);
    }
}

/// The trigger of a mapping key: `"272"`, `"273"`, `"274"` are the left, right
/// and middle mouse buttons; any other key that parses as a `u16` is that
/// keyboard code; anything else has no trigger.
pub open spec fn trigger_of(key: Seq<char>) -> Option<InputEvent> {
    if key == seq!['2', '7', '2'] {
        Some(InputEvent::Mouse(MouseButton::Left))
    } else if key == seq!['2', '7', '3'] {
        Some(InputEvent::Mouse(MouseButton::Right))
    } else if key == seq!['2', '7', '4'] {
        Some(InputEvent::Mouse(MouseButton::Middle))
    } else {
        match parse_u16_spec(key) {
            Some(code) => Some(InputEvent::Key(code)),
            None => None,
        }
    }
}

/// A rule as a trigger and the slot numbers it plays.
pub open spec fn rule_summary(r: CompiledRule) -> (InputEvent, Seq<u16>) {
    (r.trigger, r.actions@.map_values(|a: Action| action_slot(a)))
}

/// The slot number an action plays.
pub open spec fn action_slot(a: Action) -> u16 {
    match a {
        Action::PlaySound(id) => id.value(),
    }
}

/// The rule a mapping pair compiles to, if its key has a trigger.
pub open spec fn rule_of(table: Seq<Seq<char>>) -> spec_fn((Seq<char>, Seq<char>)) -> Option<
    (InputEvent, Seq<u16>),
> {
    |p: (Seq<char>, Seq<char>)|
        match trigger_of(p.0) {
            Some(t) => Some((t, seq![slot_of(table, p.1)])),
            None => None,
        }
}

/// The view of an optional filename.
pub open spec fn opt_view(o: Option<String>) -> Option<Seq<char>> {
    match o {
        Some(s) => Some(s@),
        None => None,
    }
}

/// Error type for loading and compiling a configuration.
#[derive(Debug)]
pub enum ConfigError {
    Io(std::io::Error),
    Json(serde_json::Error),
    Empty,
}

/// A resolved sound table plus the rules that refer to it by `SoundId`.
///
/// `sounds[i]` is the filename of `SoundId(i + 1)`.
#[derive(Debug, Clone)]
pub struct CompiledConfig {
    /// Indexed by `SoundId.get() - 1`.
    pub sounds: Vec<Option<String>>,
    pub rules: Vec<CompiledRule>,
    /// Sounds played when a key has no explicit mapping.
    pub default_ids: Vec<SoundId>,
}

impl CompiledConfig {
    /// Number of sound slots (`SoundId` values are `1..=len`), as a `u16`.
    pub fn sound_count(&self) -> (r: u16)
        ensures
            r == self.sounds@.len() as u16,
    {
        self.sounds.len() as u16
    }

    /// The filename of a `SoundId`, if its slot exists and is filled.
    pub fn filename(&self, id: SoundId) -> (r: Option<&str>)
        ensures
            match r {
                Some(name) => id.value() <= self.sounds@.len() && opt_view(
                    self.sounds@[id.value() - 1],
                ) == Some(name@),
                None => id.value() > self.sounds@.len() || self.sounds@[id.value() - 1] is None,
            },
    {
        let i = (id.get() - 1) as usize;
        if i < self.sounds.len() {
            match &self.sounds[i] {
                Some(s) => Some(s.as_str()),
                None => None,
            }
        } else {
            None
        }
    }
}

/// Reads `config.json` from a directory (the reading itself happens outside
/// the library).
pub struct FileConfigSource {
    dir: PathBuf,
}

impl FileConfigSource {
    pub closed spec fn dir_spec(&self) -> PathBuf {
        self.dir
    }

    pub fn new(dir: PathBuf) -> (r: FileConfigSource)
        ensures
            r.dir_spec() == dir,
    {
        FileConfigSource { dir }
    }

    /// The directory that holds `config.json`.
    pub fn dir(&self) -> (r: &PathBuf)
        ensures
            *r == self.dir_spec(),
    {
        &self.dir
    }
}

proof fn lemma_first_seen(s: Seq<Seq<char>>)
    ensures
        first_seen(s).no_duplicates(),
        forall|x: Seq<char>| #[trigger] first_seen(s).contains(x) <==> s.contains(x),
        first_seen(s).len() <= s.len(),
    decreases s.len(),
{
    if s.len() > 0 {
        lemma_first_seen(s.drop_last());
        let d = first_seen(s.drop_last());
        assert forall|x: Seq<char>| #[trigger] first_seen(s).contains(x) <==> s.contains(x) by {
            if s.contains(x) {
                let k = choose|k: int| 0 <= k < s.len() && s[k] == x;
                if k < s.len() - 1 {
                    assert(s.drop_last()[k] == x);
                }
            }
            if s.drop_last().contains(x) {
                let k = choose|k: int| 0 <= k < s.drop_last().len() && s.drop_last()[k] == x;
                assert(s[k] == x);
            }
            if !d.contains(s.last()) {
                if d.push(s.last()).contains(x) {
                    let k = choose|k: int| 0 <= k < d.push(s.last()).len() && d.push(s.last())[k] == x;
                    if k < d.len() {
                        assert(d[k] == x);
                    }
                }
                if d.contains(x) {
                    let k = choose|k: int| 0 <= k < d.len() && d[k] == x;
                    assert(d.push(s.last())[k] == x);
                }
                assert(d.push(s.last())[d.len() as int] == s.last());
            }
            assert(s[s.len() - 1] == s.last());
        }
    }
}


/// The sound table of a configuration holds each filename it names exactly
/// once, and nothing else; so it has as many slots as there are distinct
/// filenames. A filename that first occurs before another gets the lower slot.
pub proof fn lemma_sound_table(raw: RawConfig)
    ensures
        first_seen(raw.filenames()).no_duplicates(),
        forall|x: Seq<char>| #[trigger]
            first_seen(raw.filenames()).contains(x) <==> raw.filenames().contains(x),
        first_seen(raw.filenames()).len() == raw.filenames().to_set().len(),
        forall|i: int, j: int|
            0 <= i < j < first_seen(raw.filenames()).len() ==> first_before(
                raw.filenames(),
                #[trigger] first_seen(raw.filenames())[i],
                #[trigger] first_seen(raw.filenames())[j],
            ),
{
    let s = raw.filenames();
    lemma_first_seen(s);
    lemma_first_seen_order(s);
    let t = first_seen(s);
    assert(t.to_set() =~= s.to_set()) by {
        assert forall|x: Seq<char>| t.to_set().contains(x) <==> s.to_set().contains(x) by {
            assert(t.contains(x) <==> s.contains(x));
        }
    }
    t.unique_seq_to_set();
}

/// `x` occurs in `s` before any occurrence of `y`.
pub open spec fn first_before(s: Seq<Seq<char>>, x: Seq<char>, y: Seq<char>) -> bool {
    exists|p: int| 0 <= p < s.len() && s[p] == x && forall|q: int| 0 <= q <= p ==> s[q] != y
}

proof fn lemma_first_seen_order(s: Seq<Seq<char>>)
    ensures
        forall|i: int, j: int|
            0 <= i < j < first_seen(s).len() ==> first_before(
                s,
                #[trigger] first_seen(s)[i],
                #[trigger] first_seen(s)[j],
            ),
    decreases s.len(),
{
    if s.len() > 0 {
        let r = s.drop_last();
        lemma_first_seen_order(r);
        lemma_first_seen(r);
        let d = first_seen(r);
        let t = first_seen(s);
        assert forall|i: int, j: int|
            0 <= i < j < t.len() implies first_before(s, #[trigger] t[i], #[trigger] t[j]) by {
            if j < d.len() {
                assert(t[i] == d[i] && t[j] == d[j]);
                assert(first_before(r, d[i], d[j]));
                let p = choose|p: int|
                    0 <= p < r.len() && r[p] == d[i] && forall|q: int| 0 <= q <= p ==> r[q] != d[j];
                assert(s[p] == d[i]);
                assert forall|q: int| 0 <= q <= p implies s[q] != t[j] by {
                    assert(s[q] == r[q]);
                }
            } else {
                assert(!d.contains(s.last()));
                assert(t[j] == s.last());
                assert(t[i] == d[i]);
                assert(d.contains(d[i]));
                assert(r.contains(d[i]));
                let p = choose|p: int| 0 <= p < r.len() && r[p] == d[i];
                assert(s[p] == d[i]);
                assert forall|q: int| 0 <= q <= p implies s[q] != t[j] by {
                    assert(s[q] == r[q]);
                    if r[q] == s.last() {
                        assert(r.contains(s.last()));
                    }
                }
            }
        }
    }
}

/// Every filename the configuration names resolves to a slot of the sound
/// table, and that slot holds the filename.
pub proof fn lemma_slot_round_trip(raw: RawConfig, name: Seq<char>)
    requires
        raw.filenames().contains(name),
        first_seen(raw.filenames()).len() <= 65535,
    ensures
        1 <= slot_of(first_seen(raw.filenames()), name) <= first_seen(raw.filenames()).len(),
        first_seen(raw.filenames())[slot_of(first_seen(raw.filenames()), name) - 1] == name,
{
    let t = first_seen(raw.filenames());
    lemma_first_seen(raw.filenames());
    assert(t.contains(name));
}

/// A configuration compiled as `compile` promises plays, for each rule, the
/// file that some mapping with that rule's trigger names: the rule's slot
/// holds that filename.
pub proof fn lemma_rules_play_their_files(raw: RawConfig, cfg: CompiledConfig, k: int)
    requires
        first_seen(raw.filenames()).len() <= 65535,
        cfg.sounds@.map_values(|o: Option<String>| opt_view(o)) == first_seen(
            raw.filenames(),
        ).map_values(|n: Seq<char>| Some(n)),
        cfg.rules@.map_values(|rule: CompiledRule| rule_summary(rule))
            == raw.mappings_view().filter_map(rule_of(first_seen(raw.filenames()))),
        0 <= k < cfg.rules@.len(),
    ensures
        exists|m: int|
            0 <= m < raw.mappings@.len() && trigger_of(raw.mappings@[m].0@) == Some(
                cfg.rules@[k].trigger,
            ) && rule_summary(cfg.rules@[k]).1 == seq![
                slot_of(first_seen(raw.filenames()), raw.mappings@[m].1@),
            ] && opt_view(
                cfg.sounds@[slot_of(first_seen(raw.filenames()), raw.mappings@[m].1@) - 1],
            ) == Some(raw.mappings@[m].1@),
{
    let t = first_seen(raw.filenames());
    let mv = raw.mappings_view();
    let summaries = cfg.rules@.map_values(|rule: CompiledRule| rule_summary(rule));
    let elt = summaries[k];
    assert(summaries.contains(elt));
    mv.lemma_filter_map_contains(rule_of(t), elt);
    let p = choose|p: (Seq<char>, Seq<char>)| #[trigger]
        mv.contains(p) && (rule_of(t))(p) == Some(elt);
    let m = choose|m: int| 0 <= m < mv.len() && mv[m] == p;
    assert(mv[m] == (raw.mappings@[m].0@, raw.mappings@[m].1@));
    let name = raw.mappings@[m].1@;
    let d = raw.defaults_view().len();
    assert(raw.filenames()[d + m] == name);
    assert(raw.filenames().contains(name));
    lemma_slot_round_trip(raw, name);
    let v = slot_of(t, name);
    assert(cfg.sounds@.map_values(|o: Option<String>| opt_view(o)).len() == t.len());
    assert(cfg.sounds@.map_values(|o: Option<String>| opt_view(o))[v - 1] == Some(t[v - 1]));
    assert(opt_view(cfg.sounds@[v - 1]) == Some(name));
    assert(elt == rule_summary(cfg.rules@[k]));
    assert(trigger_of(p.0) is Some);
    assert(elt == (trigger_of(p.0)->0, seq![slot_of(t, p.1)]));
    assert(trigger_of(raw.mappings@[m].0@) == Some(cfg.rules@[k].trigger));
}

/// The default ids of a configuration compiled as `compile` promises are
/// the slots of the default filenames, in order: slot `k` holds default `k`.
pub proof fn lemma_defaults_play_their_files(raw: RawConfig, cfg: CompiledConfig, k: int)
    requires
        first_seen(raw.filenames()).len() <= 65535,
        cfg.sounds@.map_values(|o: Option<String>| opt_view(o)) == first_seen(
            raw.filenames(),
        ).map_values(|n: Seq<char>| Some(n)),
        cfg.default_ids@.map_values(|id: SoundId| id.value()) == raw.defaults_view().map_values(
            |d: Seq<char>| slot_of(first_seen(raw.filenames()), d),
        ),
        0 <= k < raw.defaults@.len(),
    ensures
        1 <= cfg.default_ids@[k].value() <= cfg.sounds@.len(),
        opt_view(cfg.sounds@[cfg.default_ids@[k].value() - 1]) == Some(raw.defaults@[k]@),
{
    let t = first_seen(raw.filenames());
    let name = raw.defaults@[k]@;
    assert(raw.filenames()[k] == name);
    assert(raw.filenames().contains(name));
    lemma_slot_round_trip(raw, name);
    assert(cfg.default_ids@.map_values(|id: SoundId| id.value()).len() == raw.defaults@.len());
    assert(cfg.default_ids@.map_values(|id: SoundId| id.value())[k] == slot_of(t, name));
    let v = slot_of(t, name);
    assert(cfg.sounds@.map_values(|o: Option<String>| opt_view(o)).len() == t.len());
    assert(cfg.sounds@.map_values(|o: Option<String>| opt_view(o))[v - 1] == Some(t[v - 1]));
}

/// In a table without duplicates, the index of an element is where it stands.
proof fn lemma_index_of_unique(table: Seq<Seq<char>>, i: int)
    requires
        table.no_duplicates(),
        0 <= i < table.len(),
    ensures
        table.index_of(table[i]) == i,
{
    assert(table.contains(table[i]));
}

proof fn lemma_take_push<A>(s: Seq<A>, i: int)
    requires
        0 <= i < s.len(),
    ensures
        s.take(i + 1).drop_last() =~= s.take(i),
        s.take(i + 1).last() == s[i],
{
}

/// Position of `name` in `names`, or `names.len()` when absent.
fn find_name(names: &Vec<String>, name: &String) -> (r: usize)
    ensures
        r <= names@.len(),
        r < names@.len() ==> names@[r as int]@ == name@,
        forall|j: int| 0 <= j < r ==> names@[j]@ != name@,
{
    let mut i: usize = 0;
    while i < names.len()
        invariant
            i <= names@.len(),
            forall|j: int| 0 <= j < i ==> names@[j]@ != name@,
        decreases names@.len() - i,
    {
        if names[i] == *name {
            return i;
        }
        i = i + 1;
    }
    i
}

/// Add `name` to the table unless it is already there.
fn intern(names: &mut Vec<String>, name: &String)
    ensures
        str_views(final(names)@) == (if str_views(old(names)@).contains(name@) {
            str_views(old(names)@)
        } else {
            str_views(old(names)@).push(name@)
        }),
{
    let i = find_name(names, name);
    let ghost old_views = str_views(names@);
    if i < names.len() {
        assert(old_views[i as int] == name@);
    } else {
        assert(!old_views.contains(name@)) by {
            if old_views.contains(name@) {
                let k = choose|k: int| 0 <= k < old_views.len() && old_views[k] == name@;
                assert(names@[k]@ == name@);
            }
        }
        names.push(name.clone());
        assert(str_views(names@) =~= old_views.push(name@));
    }
}

/// The sound id of a name that is in the table.
fn lookup(names: &Vec<String>, name: &String) -> (r: SoundId)
    requires
        str_views(names@).contains(name@),
        str_views(names@).no_duplicates(),
        names@.len() <= 65535,
    ensures
        r.value() == slot_of(str_views(names@), name@),
{
    let ghost views = str_views(names@);
    let i = find_name(names, name);
    if i >= names.len() {
        proof {
            let k = choose|k: int| 0 <= k < views.len() && views[k] == name@;
            assert(names@[k]@ == name@);
        }
    }
    proof {
        assert(views[i as int] == name@);
        lemma_index_of_unique(views, i as int);
    }
    let id = SoundId::new((i + 1) as u16);
    id.unwrap()
}

/// The characters of a string, one by one.
pub(crate) fn chars_of(s: &str) -> (r: Vec<char>)
    ensures
        r@ == s@,
{
    let n = s.unicode_len();
    let mut out: Vec<char> = Vec::new();
    let mut i: usize = 0;
    while i < n
        invariant
            n == s@.len(),
            i <= n,
            out@ =~= s@.take(i as int),
        decreases n - i,
    {
        out.push(s.get_char(i));
        i = i + 1;
    }
    out
}

proof fn lemma_digits_prefix(s: Seq<char>, k: int)
    requires
        0 <= k <= s.len(),
        forall|i: int| 0 <= i < s.len() ==> is_digit(#[trigger] s[i]),
    ensures
        digits_value(s.take(k)) <= digits_value(s),
        0 <= digits_value(s),
    decreases s.len(),
{
    if s.len() > 0 {
        lemma_digits_prefix(s.drop_last(), if k == s.len() { 0 } else { k });
        if k < s.len() {
            assert(s.drop_last().take(k) =~= s.take(k));
        } else {
            assert(s.take(k) =~= s);
        }
    }
}

/// Parse a decimal `u16` the way `str::parse::<u16>` does.
fn parse_u16(s: &Vec<char>) -> (r: Option<u16>)
    ensures
        r == parse_u16_spec(s@),
{
    let n = s.len();
    let start: usize = if n > 0 && s[0] == '+' {
        1
    } else {
        0
    };
    let ghost body = s@.subrange(start as int, n as int);
    assert(body =~= unsigned_digits(s@));
    if start >= n {
        return None;
    }
    let mut acc: u32 = 0;
    let mut i: usize = start;
    while i < n
        invariant
            start <= i <= n,
            n == s@.len(),
            body == s@.subrange(start as int, n as int),
            body == unsigned_digits(s@),
            acc == digits_value(body.take(i - start)),
            acc <= 65535,
            forall|j: int| 0 <= j < i - start ==> is_digit(#[trigger] body[j]),
        decreases n - i,
    {
        let c = s[i];
        assert(body[i - start] == c);
        if !('0' <= c && c <= '9') {
            assert(!is_digit(body[i - start]));
            assert(!(forall|j: int| 0 <= j < body.len() ==> is_digit(#[trigger] body[j])));
            return None;
        }
        let d = (c as u32) - ('0' as u32);
        proof {
            lemma_take_push(body, i - start);
        }
        acc = acc * 10 + d;
        i = i + 1;
        if acc > 65535 {
            proof {
                if forall|j: int| 0 <= j < body.len() ==> is_digit(#[trigger] body[j]) {
                    lemma_digits_prefix(body, i - start);
                    assert(digits_value(body) > 65535);
                }
                assert(parse_u16_spec(s@) is None);
            }
            return None;
        }
    }
    assert(body.take(n - start) =~= body);
    Some(acc as u16)
}

/// Parse a mapping key into a trigger.
///
/// - `"272" | "273" | "274"` are the left, right and middle mouse buttons.
/// - any other key that parses as a `u16` is `InputEvent::Key(code)`.
/// - anything else is `None` (the mapping is skipped).
fn parse_trigger(key: &str) -> (r: Option<InputEvent>)
    ensures
        r == trigger_of(key@),
{
    let cs = chars_of(key);
    if cs.len() == 3 && cs[0] == '2' && cs[1] == '7' {
        if cs[2] == '2' {
            assert(cs@ =~= seq!['2', '7', '2']);
            return Some(InputEvent::Mouse(MouseButton::Left));
        } else if cs[2] == '3' {
            assert(cs@ =~= seq!['2', '7', '3']);
            return Some(InputEvent::Mouse(MouseButton::Right));
        } else if cs[2] == '4' {
            assert(cs@ =~= seq!['2', '7', '4']);
            return Some(InputEvent::Mouse(MouseButton::Middle));
        }
    }
    assert(cs@ != seq!['2', '7', '2'] && cs@ != seq!['2', '7', '3'] && cs@ != seq!['2', '7', '4'])
        by {
        if cs@.len() == 3 {
            assert(seq!['2', '7', '2'][0] == '2' && seq!['2', '7', '2'][1] == '7'
                && seq!['2', '7', '2'][2] == '2');
            assert(seq!['2', '7', '3'][2] == '3');
            assert(seq!['2', '7', '4'][2] == '4');
            assert(seq!['2', '7', '3'][0] == '2' && seq!['2', '7', '3'][1] == '7');
            assert(seq!['2', '7', '4'][0] == '2' && seq!['2', '7', '4'][1] == '7');
        }
    }
    match parse_u16(&cs) {
        Some(code) => Some(InputEvent::Key(code)),
        None => None,
    }
}

/// Resolve a `RawConfig` into a `CompiledConfig`.
///
/// Every distinct filename (defaults, then mapping values) gets a `SoundId`
/// in first-seen order. Each mapping key is parsed into a trigger (see
/// `trigger_of`); a key without one is skipped. A configuration that names no
/// filename at all is `ConfigError::Empty`.
pub fn compile(raw: RawConfig) -> (r: Result<CompiledConfig, ConfigError>)
    requires
        first_seen(raw.filenames()).len() <= 65535,
    ensures
        match r {
            Ok(cfg) => {
                let table = first_seen(raw.filenames());
                &&& raw.filenames().len() > 0
                &&& cfg.sounds@.map_values(|o: Option<String>| opt_view(o)) == table.map_values(
                    |n: Seq<char>| Some(n),
                )
                &&& cfg.default_ids@.map_values(|id: SoundId| id.value())
                    == raw.defaults_view().map_values(|d: Seq<char>| slot_of(table, d))
                &&& cfg.rules@.map_values(|rule: CompiledRule| rule_summary(rule))
                    == raw.mappings_view().filter_map(rule_of(table))
            },
            Err(e) => raw.filenames().len() == 0 && e is Empty,
        },
{
    let ghost all = raw.filenames();
    let ghost dv = raw.defaults_view();
    let ghost mv = raw.mappings_view();
    let mut names: Vec<String> = Vec::new();
    let nd = raw.defaults.len();
    let nm = raw.mappings.len();

    // Defaults first so their ordering is stable, then mapping values.
    let mut i: usize = 0;
    while i < nd
        invariant
            nd == raw.defaults@.len(),
            nm == raw.mappings@.len(),
            all == raw.filenames(),
            all.len() == nd + nm,
            i <= nd,
            str_views(names@) == first_seen(all.take(i as int)),
        decreases nd - i,
    {
        proof {
            lemma_take_push(all, i as int);
            assert(all[i as int] == raw.defaults@[i as int]@);
        }
        intern(&mut names, &raw.defaults[i]);
        i = i + 1;
    }
    let mut j: usize = 0;
    while j < nm
        invariant
            nd == raw.defaults@.len(),
            nm == raw.mappings@.len(),
            all == raw.filenames(),
            all.len() == nd + nm,
            j <= nm,
            str_views(names@) == first_seen(all.take(nd + j)),
        decreases nm - j,
    {
        proof {
            lemma_take_push(all, nd + j);
            assert(all[nd + j] == raw.mappings@[j as int].1@);
        }
        intern(&mut names, &raw.mappings[j].1);
        j = j + 1;
    }
    let ghost table = first_seen(all);
    proof {
        assert(all.take(nd + nm) =~= all);
        lemma_first_seen(all);
    }
    if names.len() == 0 {
        proof {
            if all.len() > 0 {
                assert(all.contains(all[0]));
                assert(table.contains(all[0]));
            }
        }
        return Err(ConfigError::Empty);
    }
    // Default ids, in the order of the defaults.

    let mut default_ids: Vec<SoundId> = Vec::new();
    let mut i: usize = 0;
    while i < nd
        invariant
            nd == raw.defaults@.len(),
            dv == raw.defaults_view(),
            all == raw.filenames(),
            table == first_seen(all),
            str_views(names@) == table,
            table.no_duplicates(),
            forall|x: Seq<char>| #[trigger] table.contains(x) <==> all.contains(x),
            names@.len() <= 65535,
            i <= nd,
            default_ids@.len() == i,
            forall|k: int|
                0 <= k < i ==> #[trigger] default_ids@[k].value() == slot_of(table, dv[k]),
        decreases nd - i,
    {
        proof {
            assert(all[i as int] == dv[i as int]);
            assert(all.contains(dv[i as int]));
        }
        let id = lookup(&names, &raw.defaults[i]);
        default_ids.push(id);
        i = i + 1;
    }
    assert(default_ids@.map_values(|id: SoundId| id.value()) =~= dv.map_values(
        |d: Seq<char>| slot_of(table, d),
    ));

    // Rules, in the order of the mappings.
    let mut rules: Vec<CompiledRule> = Vec::new();
    let mut j: usize = 0;
    while j < nm
        invariant
            nd == raw.defaults@.len(),
            nm == raw.mappings@.len(),
            mv == raw.mappings_view(),
            all == raw.filenames(),
            all.len() == nd + nm,
            table == first_seen(all),
            str_views(names@) == table,
            table.no_duplicates(),
            forall|x: Seq<char>| #[trigger] table.contains(x) <==> all.contains(x),
            names@.len() <= 65535,
            j <= nm,
            rules@.map_values(|rule: CompiledRule| rule_summary(rule)) == mv.take(
                j as int,
            ).filter_map(rule_of(table)),
        decreases nm - j,
    {
        proof {
            mv.lemma_filter_map_take_succ(rule_of(table), j as int);
        }
        let trigger = parse_trigger(raw.mappings[j].0.as_str());
        match trigger {
            Some(t) => {
                proof {
                    assert(all[nd + j] == mv[j as int].1);
                    assert(all.contains(mv[j as int].1));
                }
                let id = lookup(&names, &raw.mappings[j].1);
                let mut actions: Vec<Action> = Vec::new();
                actions.push(Action::PlaySound(id));
                let rule = CompiledRule::new(t, actions);
                let ghost before = rules@;
                rules.push(rule);
                proof {
                    assert(rule.actions@.map_values(|a: Action| action_slot(a)) =~= seq![
                        slot_of(table, mv[j as int].1),
                    ]);
                    assert(rules@.map_values(|rule: CompiledRule| rule_summary(rule))
                        =~= before.map_values(|rule: CompiledRule| rule_summary(rule)).push(
                        rule_summary(rule),
                    ));
                }
            },
            None => {},
        }
        j = j + 1;
    }
    assert(mv.take(nm as int) =~= mv);

    // Every slot holds its filename.
    let mut sounds: Vec<Option<String>> = Vec::new();
    let mut k: usize = 0;
    while k < names.len()
        invariant
            k <= names@.len(),
            str_views(names@) == table,
            sounds@.len() == k,
            forall|m: int| 0 <= m < k ==> #[trigger] opt_view(sounds@[m]) == Some(table[m]),
        decreases names@.len() - k,
    {
        sounds.push(Some(names[k].clone()));
        k = k + 1;
    }
    assert(sounds@.map_values(|o: Option<String>| opt_view(o)) =~= table.map_values(
        |n: Seq<char>| Some(n),
    ));
    Ok(CompiledConfig { sounds, rules, default_ids })
}

} // verus!
