use vstd::prelude::*;

use crate::app::{
    city_matches, city_matches_query, fixed4, min_of, next_position, next_position_spec,
    preset_table, presets, presets_view, push_fixed4, SetupState, PRESET_COUNT,
};
use crate::keys::Key;
use crate::text::{chars_of, string_from, trim, trim_chars};

verus! {

/// Field of the location form that searches the presets.
pub const SETUP_PRESET_FIELD: usize = 0;

/// Field of the location form that saves it.
pub const SETUP_SAVE_FIELD: usize = 1;

/// A preset as the form reads it: English name, Chinese name, latitude and
/// longitude in ten-thousandths of a degree, timezone, placeholder flag.
pub type PresetRow = (Seq<char>, Seq<char>, i32, i32, Seq<char>, bool);

/// The location form as values.
pub struct SetupForm {
    pub preset_index: usize,
    pub query: Seq<char>,
    pub field: usize,
    pub name: Seq<char>,
    pub latitude: Seq<char>,
    pub longitude: Seq<char>,
    pub timezone: Seq<char>,
}

impl View for SetupState {
    type V = SetupForm;

    open spec fn view(&self) -> SetupForm {
        SetupForm {
            preset_index: self.preset_index,
            query: self.preset_query@,
            field: self.field,
            name: self.name@,
            latitude: self.latitude@,
            longitude: self.longitude@,
            timezone: self.timezone@,
        }
    }
}

// ---------------------------------------------------------------------------
// Which presets a query keeps
// ---------------------------------------------------------------------------

/// Positions, in order, of the real cities of `t` that match the query `q`.
pub open spec fn matching_positions(t: Seq<PresetRow>, q: Seq<char>) -> Seq<usize>
    decreases t.len(),
{
    if t.len() == 0 {
        Seq::empty()
    } else {
        let rest = matching_positions(t.drop_last(), q);
        if !t.last().5 && city_matches(t.last(), q) {
            rest.push((t.len() - 1) as usize)
        } else {
            rest
        }
    }
}

/// The presets the form offers for a query: every preset, the placeholder
/// included, when the trimmed query is empty, and otherwise the real cities
/// that match it.
pub open spec fn preset_matches(query: Seq<char>) -> Seq<usize> {
    let q = trim(query);
    if q.len() == 0 {
        Seq::new(PRESET_COUNT as nat, |i: int| i as usize)
    } else {
        matching_positions(preset_table(), q)
    }
}

proof fn lemma_matching_positions_bounded(t: Seq<PresetRow>, q: Seq<char>)
    ensures
        forall|k: int|
            0 <= k < matching_positions(t, q).len() ==> #[trigger] matching_positions(t, q)[k]
                < t.len(),
    decreases t.len(),
{
    if t.len() > 0 {
        lemma_matching_positions_bounded(t.drop_last(), q);
        let rest = matching_positions(t.drop_last(), q);
        assert forall|k: int| 0 <= k < matching_positions(t, q).len() implies #[trigger] matching_positions(t, q)[k] < t.len() by {
            if k < rest.len() {
                assert(rest[k] < t.drop_last().len());
            }
        }
    }
}

/// Every preset a query keeps is a preset of the list.
pub proof fn lemma_preset_matches_bounded(query: Seq<char>)
    ensures
        forall|k: int|
            0 <= k < preset_matches(query).len() ==> #[trigger] preset_matches(query)[k]
                < PRESET_COUNT,
{
    lemma_matching_positions_bounded(preset_table(), trim(query));
}

/// The presets that the form offers for `query`.
pub fn setup_preset_matches(query: &str) -> (r: Vec<usize>)
    ensures
        r@ == preset_matches(query@),
{
    let qv = chars_of(query);
    let qt = trim_chars(&qv);
    let t = presets();
    let ghost tv = presets_view(t@);
    let mut r: Vec<usize> = Vec::new();
    let mut i: usize = 0;
    if qt.len() == 0 {
        while i < t.len()
            invariant
                i <= t.len(),
                t.len() == PRESET_COUNT,
                r@ =~= Seq::new(i as nat, |k: int| k as usize),
            decreases t.len() - i,
        {
            r.push(i);
            i = i + 1;
        }
        return r;
    }
    let q = string_from(qt.as_slice());
    while i < t.len()
        invariant
            i <= t.len(),
            tv == presets_view(t@),
            tv == preset_table(),
            q@ == trim(query@),
            r@ == matching_positions(tv.take(i as int), q@),
        decreases t.len() - i,
    {
        assert(tv.take(i + 1).drop_last() =~= tv.take(i as int));
        assert(tv.take(i + 1).last() == t@[i as int]@);
        if !t[i].custom && city_matches_query(&t[i], q.as_str()) {
            r.push(i);
        }
        i = i + 1;
    }
    assert(tv.take(t.len() as int) =~= tv);
    r
}

// ---------------------------------------------------------------------------
// The form's transitions
// ---------------------------------------------------------------------------

/// The form with preset `i` chosen: a real city fills in its name,
/// coordinates (four decimals) and timezone; the placeholder leaves them.
pub open spec fn with_preset(f: SetupForm, i: int) -> SetupForm {
    let p = preset_table()[i];
    if p.5 {
        SetupForm { preset_index: i as usize, ..f }
    } else {
        SetupForm {
            preset_index: i as usize,
            name: p.0,
            latitude: fixed4(p.2 as int),
            longitude: fixed4(p.3 as int),
            timezone: p.4,
            ..f
        }
    }
}

/// The first position of `x` in `m`.
pub open spec fn position_of(m: Seq<usize>, x: usize) -> Option<usize>
    decreases m.len(),
{
    if m.len() == 0 {
        None
    } else {
        match position_of(m.drop_last(), x) {
            Some(k) => Some(k),
            None => if m.last() == x {
                Some((m.len() - 1) as usize)
            } else {
                None
            },
        }
    }
}

/// The form after its query changed: with no match nothing moves; otherwise
/// the first match is chosen when asked for or when the current preset is no
/// longer offered, and the current preset is filled in again if it is.
pub open spec fn refreshed(f: SetupForm, prefer_first: bool) -> SetupForm {
    let m = preset_matches(f.query);
    if m.len() == 0 {
        f
    } else if prefer_first || !m.contains(f.preset_index) {
        with_preset(f, m[0] as int)
    } else {
        with_preset(f, f.preset_index as int)
    }
}

/// The form after stepping to the next (or previous) offered preset.
pub open spec fn cycled(f: SetupForm, forward: bool) -> SetupForm {
    let m = preset_matches(f.query);
    if m.len() == 0 {
        f
    } else {
        with_preset(f, m[next_position_spec(position_of(m, f.preset_index), m.len() as int, forward)] as int)
    }
}

/// The form after its preset search is settled: a pending query chooses as a
/// refresh does and is then cleared.
pub open spec fn confirmed(f: SetupForm) -> SetupForm {
    if f.query.len() == 0 {
        f
    } else {
        SetupForm { query: Seq::empty(), ..refreshed(f, false) }
    }
}

/// The form with the focus moved to `field` (held to the save field);
/// leaving the preset field settles its search.
pub open spec fn moved(f: SetupForm, field: int) -> SetupForm {
    let to = min_of(field, SETUP_SAVE_FIELD as int);
    let g = if f.field == SETUP_PRESET_FIELD && to != SETUP_PRESET_FIELD {
        confirmed(f)
    } else {
        f
    };
    SetupForm { field: to as usize, ..g }
}

/// What a key on the location form asks of the rest of the program.
#[derive(Debug, Clone, Copy, PartialEq, Eq, Structural)]
pub enum SetupEffect {
    Nothing,
    /// Leave the form for the sky.
    Close,
    /// Quit: the form cannot be left before a location is saved.
    Quit,
    /// Save the form.
    Commit,
}

/// The form and effect after a key: Esc leaves (or quits when the form must
/// be filled); Tab and Down move to the save field, BackTab and Up to the
/// preset field; on the preset field Left and Right step through the offered
/// presets, Backspace shortens the query and a character extends it; Enter
/// saves from the save field and moves there from the preset field.
pub open spec fn setup_key_spec(f: SetupForm, key: Key, can_cancel: bool) -> (SetupForm, SetupEffect) {
    match key {
        Key::Esc => (f, if can_cancel {
            SetupEffect::Close
        } else {
            SetupEffect::Quit
        }),
        Key::Tab | Key::Down => (moved(f, SETUP_SAVE_FIELD as int), SetupEffect::Nothing),
        Key::BackTab | Key::Up => (moved(f, SETUP_PRESET_FIELD as int), SetupEffect::Nothing),
        Key::Left => (if f.field == SETUP_PRESET_FIELD {
            cycled(f, false)
        } else {
            f
        }, SetupEffect::Nothing),
        Key::Right => (if f.field == SETUP_PRESET_FIELD {
            cycled(f, true)
        } else {
            f
        }, SetupEffect::Nothing),
        Key::Enter => if f.field == SETUP_SAVE_FIELD {
            (f, SetupEffect::Commit)
        } else {
            (moved(f, SETUP_SAVE_FIELD as int), SetupEffect::Nothing)
        },
        Key::Backspace => (if f.field == SETUP_PRESET_FIELD && f.query.len() > 0 {
            let g = SetupForm { query: f.query.drop_last(), ..f };
            if g.query.len() > 0 {
                refreshed(g, false)
            } else {
                g
            }
        } else {
            f
        }, SetupEffect::Nothing),
        Key::Char(c) => (if f.field == SETUP_PRESET_FIELD {
            refreshed(SetupForm { query: f.query.push(c), ..f }, true)
        } else {
            f
        }, SetupEffect::Nothing),
        _ => (f, SetupEffect::Nothing),
    }
}

/// Whether the form names a preset of the list and one of its two fields.
pub open spec fn form_in_range(f: SetupForm) -> bool {
    f.preset_index < PRESET_COUNT && f.field <= SETUP_SAVE_FIELD
}

proof fn lemma_refreshed_in_range(f: SetupForm, prefer_first: bool)
    ensures
        preset_matches(f.query).len() > 0 ==> refreshed(f, prefer_first).preset_index < PRESET_COUNT,
        refreshed(f, prefer_first).field == f.field,
        refreshed(f, prefer_first).query == f.query,
{
    let m = preset_matches(f.query);
    lemma_preset_matches_bounded(f.query);
    if m.len() > 0 {
        assert(m[0] < PRESET_COUNT);
        if m.contains(f.preset_index) {
            let j = choose|j: int| 0 <= j < m.len() && m[j] == f.preset_index;
            assert(m[j] < PRESET_COUNT);
        }
    }
}

proof fn lemma_moved_in_range(f: SetupForm, field: int)
    requires
        form_in_range(f),
        0 <= field,
    ensures
        form_in_range(moved(f, field)),
{
    lemma_refreshed_in_range(f, false);
}

proof fn lemma_cycled_in_range(f: SetupForm, forward: bool)
    requires
        form_in_range(f),
    ensures
        form_in_range(cycled(f, forward)),
{
    let m = preset_matches(f.query);
    lemma_preset_matches_bounded(f.query);
    if m.len() > 0 {
        lemma_position_in_list(m, f.preset_index);
        lemma_next_in_list(position_of(m, f.preset_index), m, forward);
        let k = next_position_spec(position_of(m, f.preset_index), m.len() as int, forward);
        assert(m[k] < PRESET_COUNT);
    }
}

proof fn lemma_edited_in_range(f: SetupForm, q: Seq<char>, prefer_first: bool)
    requires
        form_in_range(f),
    ensures
        form_in_range(refreshed(SetupForm { query: q, ..f }, prefer_first)),
{
    lemma_refreshed_in_range(SetupForm { query: q, ..f }, prefer_first);
}

/// Whatever key arrives, the form stays on a preset of the list and on one
/// of its two fields.
pub proof fn lemma_setup_key_keeps_range(f: SetupForm, key: Key, can_cancel: bool)
    requires
        form_in_range(f),
    ensures
        form_in_range(setup_key_spec(f, key, can_cancel).0),
{
    match key {
        Key::Tab | Key::Down | Key::Enter => lemma_moved_in_range(f, SETUP_SAVE_FIELD as int),
        Key::BackTab | Key::Up => lemma_moved_in_range(f, SETUP_PRESET_FIELD as int),
        Key::Left => lemma_cycled_in_range(f, false),
        Key::Right => lemma_cycled_in_range(f, true),
        Key::Backspace => lemma_edited_in_range(f, f.query.drop_last(), false),
        Key::Char(c) => lemma_edited_in_range(f, f.query.push(c), true),
        _ => {},
    }
}

proof fn lemma_position_in_list(m: Seq<usize>, x: usize)
    ensures
        position_of(m, x) matches Some(k) ==> k < m.len(),
    decreases m.len(),
{
    if m.len() > 0 {
        lemma_position_in_list(m.drop_last(), x);
    }
}

proof fn lemma_next_in_list(current: Option<usize>, m: Seq<usize>, forward: bool)
    requires
        m.len() > 0,
        current matches Some(k) ==> k < m.len(),
    ensures
        0 <= next_position_spec(current, m.len() as int, forward) < m.len(),
{
    match current {
        Some(p) => {
            if forward {
                vstd::arithmetic::div_mod::lemma_mod_bound((p + 1) as int, m.len() as int);
            }
        },
        None => {},
    }
}

fn fixed4_string(v: i32) -> (r: String)
    ensures
        r@ == fixed4(v as int),
{
    let mut out: Vec<char> = Vec::new();
    push_fixed4(v, &mut out);
    assert(out@ =~= fixed4(v as int));
    string_from(out.as_slice())
}

fn contains_index(m: &Vec<usize>, x: usize) -> (r: bool)
    ensures
        r == m@.contains(x),
{
    let mut k: usize = 0;
    while k < m.len()
        invariant
            k <= m.len(),
            forall|j: int| 0 <= j < k ==> m@[j] != x,
        decreases m.len() - k,
    {
        if m[k] == x {
            return true;
        }
        k = k + 1;
    }
    false
}

fn position_in(m: &Vec<usize>, x: usize) -> (r: Option<usize>)
    ensures
        r == position_of(m@, x),
        r matches Some(k) ==> k < m.len(),
{
    let mut k: usize = 0;
    while k < m.len()
        invariant
            k <= m.len(),
            position_of(m@.take(k as int), x) is None,
        decreases m.len() - k,
    {
        assert(m@.take(k + 1).drop_last() =~= m@.take(k as int));
        if m[k] == x {
            proof {
                lemma_position_prefix(m@, x, (k + 1) as int);
            }
            return Some(k);
        }
        k = k + 1;
    }
    assert(m@.take(m.len() as int) =~= m@);
    None
}

proof fn lemma_position_prefix(m: Seq<usize>, x: usize, n: int)
    requires
        0 < n <= m.len(),
        position_of(m.take(n - 1), x) is None,
        m[n - 1] == x,
    ensures
        position_of(m, x) == Some((n - 1) as usize),
    decreases m.len(),
{
    assert(m.take(n).drop_last() =~= m.take(n - 1));
    if n == m.len() {
        assert(m.take(n) =~= m);
    } else {
        assert(m.take(m.len() as int).drop_last() =~= m.drop_last());
        assert(m.drop_last().take(n) =~= m.take(n));
        assert(m.drop_last().take(n - 1) =~= m.take(n - 1));
        lemma_position_prefix(m.drop_last(), x, n);
    }
}

impl SetupState {
    fn apply_preset(&mut self)
        requires
            old(self).preset_index < PRESET_COUNT,
        ensures
            final(self)@ == with_preset(old(self)@, old(self).preset_index as int),
    {
        let t = presets();
        let ghost tv = presets_view(t@);
        assert(tv[self.preset_index as int] == t@[self.preset_index as int]@);
        let p = &t[self.preset_index];
        if !p.custom {
            self.name = String::from_str(p.en);
            self.latitude = fixed4_string(p.latitude_e4);
            self.longitude = fixed4_string(p.longitude_e4);
            self.timezone = String::from_str(p.timezone);
        }
    }

    /// Chooses among the presets the query offers, as `refreshed` says.
    pub fn refresh_preset(&mut self, prefer_first: bool)
        ensures
            final(self)@ == refreshed(old(self)@, prefer_first),
    {
        let m = setup_preset_matches(self.preset_query.as_str());
        if m.len() == 0 {
            return;
        }
        proof {
            lemma_preset_matches_bounded(self.preset_query@);
        }
        assert(m@[0] < PRESET_COUNT);
        let current_in = contains_index(&m, self.preset_index);
        if prefer_first || !current_in {
            self.preset_index = m[0];
        } else {
            assert(m@.contains(self.preset_index));
            let ghost j = choose|j: int| 0 <= j < m@.len() && m@[j] == self.preset_index;
            assert(m@[j] < PRESET_COUNT);
        }
        self.apply_preset();
    }

    /// Steps to the next (`forward`) or previous preset the query offers.
    pub fn cycle_preset(&mut self, forward: bool)
        ensures
            final(self)@ == cycled(old(self)@, forward),
    {
        let m = setup_preset_matches(self.preset_query.as_str());
        if m.len() == 0 {
            return;
        }
        proof {
            lemma_preset_matches_bounded(self.preset_query@);
        }
        let current = position_in(&m, self.preset_index);
        let k = next_position(current, m.len(), forward);
        assert(0 <= k < m.len()) by {
            match current {
                Some(p) => {
                    if forward {
                        assert((p + 1) % (m.len() as int) < m.len());
                    }
                },
                None => {},
            }
        }
        self.preset_index = m[k];
        self.apply_preset();
    }

    /// Settles a pending preset search, as `confirmed` says.
    pub fn confirm_preset_search(&mut self)
        ensures
            final(self)@ == confirmed(old(self)@),
    {
        if self.preset_query.as_str().unicode_len() == 0 {
            return;
        }
        self.refresh_preset(false);
        self.preset_query = String::new();
    }

    /// Moves the focus to `field`, as `moved` says.
    pub fn move_field(&mut self, field: usize)
        ensures
            final(self)@ == moved(old(self)@, field as int),
    {
        let to = if field < SETUP_SAVE_FIELD {
            field
        } else {
            SETUP_SAVE_FIELD
        };
        if self.field == SETUP_PRESET_FIELD && to != SETUP_PRESET_FIELD {
            self.confirm_preset_search();
        }
        self.field = to;
    }

    /// A key on the location form, as `setup_key_spec` says; `can_cancel`
    /// tells whether a location was saved before.
    pub fn handle_key(&mut self, key: Key, can_cancel: bool) -> (r: SetupEffect)
        ensures
            (final(self)@, r) == setup_key_spec(old(self)@, key, can_cancel),
    {
        let ghost f0 = self@;
        proof {
            lemma_preset_matches_bounded(f0.query);
        }
        match key {
            Key::Esc => {
                if can_cancel {
                    SetupEffect::Close
                } else {
                    SetupEffect::Quit
                }
            },
            Key::Tab | Key::Down => {
                self.move_field(SETUP_SAVE_FIELD);
                SetupEffect::Nothing
            },
            Key::BackTab | Key::Up => {
                self.move_field(SETUP_PRESET_FIELD);
                SetupEffect::Nothing
            },
            Key::Left => {
                if self.field == SETUP_PRESET_FIELD {
                    self.cycle_preset(false);
                }
                SetupEffect::Nothing
            },
            Key::Right => {
                if self.field == SETUP_PRESET_FIELD {
                    self.cycle_preset(true);
                }
                SetupEffect::Nothing
            },
            Key::Enter => {
                if self.field == SETUP_SAVE_FIELD {
                    SetupEffect::Commit
                } else {
                    self.move_field(SETUP_SAVE_FIELD);
                    SetupEffect::Nothing
                }
            },
            Key::Backspace => {
                if self.field == SETUP_PRESET_FIELD {
                    let mut v = chars_of(self.preset_query.as_str());
                    if v.len() > 0 {
                        v.pop();
                        assert(v@ =~= f0.query.drop_last());
                        self.preset_query = string_from(v.as_slice());
                        if v.len() > 0 {
                            self.refresh_preset(false);
                        }
                    }
                }
                SetupEffect::Nothing
            },
            Key::Char(c) => {
                if self.field == SETUP_PRESET_FIELD {
                    let mut v = chars_of(self.preset_query.as_str());
                    v.push(c);
                    self.preset_query = string_from(v.as_slice());
                    self.refresh_preset(true);
                }
                SetupEffect::Nothing
            },
            _ => SetupEffect::Nothing,
        }
    }
}

} // verus!
