//! Choosing the entries that fire for a key.

use vstd::prelude::*;
use crate::config::application::{
    application_passes, match_application, match_mode, mode_passes, optional_application,
    optional_string, optional_strings, Application,
};
use crate::config::key_press::{
    diff_modifiers, extra_modifiers, missing_modifiers, modifier_held, named_by, Modifier,
};
use crate::config::keymap::{KeymapEntryView, OverrideEntryView};
use crate::config::keymap_action::{is_remap, only_remaps, KeymapAction};
use crate::key::Key;
use crate::text::views;

verus! {

/// What the lookup of a key depends on besides the entries.
pub struct Situation {
    /// The held modifier keys.
    pub pressed: Seq<Key>,
    pub mode: Seq<char>,
    /// The application that has the focus, if one is known.
    pub application: Option<Seq<char>>,
}

/// Whether `entry` fires in `s`.  Its application and mode filters must
/// pass and each of its modifiers must be held.  In the exact pass no other
/// modifier may be held; in the loose pass others may be, but an entry with
/// `exact_match` does not take part.
pub open spec fn entry_fires(entry: KeymapEntryView, s: Situation, exact: bool) -> bool {
    &&& exact || !entry.exact_match
    &&& missing_modifiers(s.pressed, entry.modifiers).len() == 0
    &&& exact ==> extra_modifiers(s.pressed, entry.modifiers).len() == 0
    &&& application_passes(entry.application, s.application)
    &&& mode_passes(entry.mode, s.mode)
}

/// The indices of the entries among `entries[from..]` that one pass lets
/// fire.  The first entry that fires is one of them.  If it opens nested
/// remaps, so are all later entries that fire and open nested remaps;
/// otherwise it is the only one.  `started` says that such a first entry
/// stands before `from`.
pub open spec fn pass(
    entries: Seq<KeymapEntryView>,
    s: Situation,
    exact: bool,
    from: int,
    started: bool,
) -> Seq<int>
    decreases entries.len() - from,
{
    if from >= entries.len() || from < 0 {
        Seq::empty()
    } else if entry_fires(entries[from], s, exact) {
        if is_remap(entries[from].actions) {
            seq![from] + pass(entries, s, exact, from + 1, true)
        } else if started {
            pass(entries, s, exact, from + 1, true)
        } else {
            seq![from]
        }
    } else {
        pass(entries, s, exact, from + 1, started)
    }
}

/// The indices of the entries that fire for a key whose entries are
/// `entries`: those of the exact pass if it lets any fire, else those of the
/// loose pass.
pub open spec fn select(entries: Seq<KeymapEntryView>, s: Situation) -> Seq<int> {
    let exact = pass(entries, s, true, 0, false);
    if exact.len() > 0 {
        exact
    } else {
        pass(entries, s, false, 0, false)
    }
}

/// An override entry as an entry without filters.
pub open spec fn unfiltered(entry: OverrideEntryView) -> KeymapEntryView {
    KeymapEntryView {
        actions: entry.actions,
        modifiers: entry.modifiers,
        application: None,
        mode: None,
        exact_match: entry.exact_match,
    }
}

/// An entry that the lookup considers, borrowed from where it is kept.
pub struct Candidate<'a> {
    pub actions: &'a Vec<KeymapAction>,
    pub modifiers: &'a Vec<Modifier>,
    pub application: &'a Option<Application>,
    pub mode: &'a Option<Vec<String>>,
    pub exact_match: bool,
}

impl<'a> View for Candidate<'a> {
    type V = KeymapEntryView;

    open spec fn view(&self) -> KeymapEntryView {
        KeymapEntryView {
            actions: views(self.actions@),
            modifiers: self.modifiers@,
            application: optional_application(*self.application),
            mode: optional_strings(*self.mode),
            exact_match: self.exact_match,
        }
    }
}

/// The numbers of a list of indices.
pub open spec fn indices(v: Seq<usize>) -> Seq<int> {
    v.map_values(|i: usize| i as int)
}

/// Whether `candidate` fires, and the held keys that its chord does not
/// name.
fn fires(
    candidate: &Candidate,
    pressed: &Vec<Key>,
    mode: &String,
    application: &Option<String>,
    exact: bool,
) -> (b: bool)
    ensures
        b == entry_fires(
            candidate@,
            Situation {
                pressed: pressed@,
                mode: mode@,
                application: optional_string(*application),
            },
            exact,
        ),
{
    if candidate.exact_match && !exact {
        return false;
    }
    let (extra, missing) = diff_modifiers(pressed, candidate.modifiers);
    if (exact && extra.len() > 0) || missing.len() > 0 {
        return false;
    }
    match_application(candidate.application, application) && match_mode(candidate.mode, mode)
}

/// One pass over the candidates.
fn run_pass(
    candidates: &Vec<Candidate>,
    pressed: &Vec<Key>,
    mode: &String,
    application: &Option<String>,
    exact: bool,
) -> (fired: Vec<usize>)
    ensures
        indices(fired@) == pass(
            views(candidates@),
            Situation {
                pressed: pressed@,
                mode: mode@,
                application: optional_string(*application),
            },
            exact,
            0,
            false,
        ),
        forall|k: int| 0 <= k < fired.len() ==> fired@[k] < candidates.len(),
{
    let ghost s = Situation {
        pressed: pressed@,
        mode: mode@,
        application: optional_string(*application),
    };
    let ghost entries = views(candidates@);
    let mut fired: Vec<usize> = Vec::new();
    let mut i: usize = 0;
    while i < candidates.len()
        invariant
            i <= candidates.len(),
            entries == views(candidates@),
            s == (Situation {
                pressed: pressed@,
                mode: mode@,
                application: optional_string(*application),
            }),
            pass(entries, s, exact, 0, false) == indices(fired@) + pass(
                entries,
                s,
                exact,
                i as int,
                fired.len() > 0,
            ),
            forall|k: int| 0 <= k < fired.len() ==> fired@[k] < candidates.len(),
        decreases candidates.len() - i,
    {
        if fires(&candidates[i], pressed, mode, application, exact) {
            if only_remaps(candidates[i].actions) {
                fired.push(i);
            } else if fired.len() == 0 {
                fired.push(i);
                return fired;
            }
        }
        i += 1;
    }
    fired
}

/// The candidates that fire: the indices into `candidates`, in order.
pub fn select_candidates(
    candidates: &Vec<Candidate>,
    pressed: &Vec<Key>,
    mode: &String,
    application: &Option<String>,
) -> (fired: Vec<usize>)
    ensures
        indices(fired@) == select(
            views(candidates@),
            Situation {
                pressed: pressed@,
                mode: mode@,
                application: optional_string(*application),
            },
        ),
        forall|k: int| 0 <= k < fired.len() ==> fired@[k] < candidates.len(),
{
    let exact = run_pass(candidates, pressed, mode, application, true);
    if exact.len() > 0 {
        return exact;
    }
    run_pass(candidates, pressed, mode, application, false)
}

/// No held key is left over exactly when every held key is named.
pub proof fn lemma_no_extra(pressed: Seq<Key>, required: Seq<Modifier>)
    ensures
        extra_modifiers(pressed, required).len() == 0 <==> forall|i: int|
            0 <= i < pressed.len() ==> named_by(required, #[trigger] pressed[i]),
        forall|i: int|
            0 <= i < extra_modifiers(pressed, required).len() ==> pressed.contains(
                #[trigger] extra_modifiers(pressed, required)[i],
            ) && !named_by(required, extra_modifiers(pressed, required)[i]),
    decreases pressed.len(),
{
    if pressed.len() > 0 {
        let rest = pressed.drop_last();
        lemma_no_extra(rest, required);
        let e = extra_modifiers(pressed, required);
        if e.len() == 0 {
            assert forall|i: int| 0 <= i < pressed.len() implies named_by(
                required,
                #[trigger] pressed[i],
            ) by {
                if i < rest.len() {
                    assert(rest[i] == pressed[i]);
                }
            }
        }
    }
}

/// No key is missing exactly when every required modifier is held; and a
/// missing key is never held, nor listed twice.
pub proof fn lemma_no_missing(pressed: Seq<Key>, required: Seq<Modifier>)
    ensures
        missing_modifiers(pressed, required).len() == 0 <==> forall|j: int|
            0 <= j < required.len() ==> modifier_held(#[trigger] required[j], pressed),
        forall|i: int|
            0 <= i < missing_modifiers(pressed, required).len() ==> !pressed.contains(
                #[trigger] missing_modifiers(pressed, required)[i],
            ),
        missing_modifiers(pressed, required).no_duplicates(),
    decreases required.len(),
{
    if required.len() > 0 {
        let rest = required.drop_last();
        lemma_no_missing(pressed, rest);
        let m = missing_modifiers(pressed, required);
        if m.len() == 0 {
            assert forall|j: int| 0 <= j < required.len() implies modifier_held(
                #[trigger] required[j],
                pressed,
            ) by {
                if j < rest.len() {
                    assert(rest[j] == required[j]);
                }
            }
        }
    }
}

/// Whether `found` holds indices of entries that fire in the pass, in
/// rising order, none before `from`.
pub open spec fn rising_hits(
    entries: Seq<KeymapEntryView>,
    s: Situation,
    exact: bool,
    from: int,
    found: Seq<int>,
) -> bool {
    &&& forall|k: int|
        0 <= k < found.len() ==> from <= #[trigger] found[k] < entries.len() && entry_fires(
            entries[found[k]],
            s,
            exact,
        )
    &&& forall|k: int, l: int| 0 <= k < l < found.len() ==> #[trigger] found[k] < #[trigger] found[l]
}

/// What a pass yields are indices of entries that fire in it, in rising
/// order, none before `from`.
pub proof fn lemma_pass_sound(
    entries: Seq<KeymapEntryView>,
    s: Situation,
    exact: bool,
    from: int,
    started: bool,
)
    requires
        0 <= from,
    ensures
        rising_hits(entries, s, exact, from, pass(entries, s, exact, from, started)),
    decreases entries.len() - from,
{
    if from < entries.len() {
        lemma_pass_sound(entries, s, exact, from + 1, true);
        lemma_pass_sound(entries, s, exact, from + 1, started);
    }
}

/// A pass that has not started yields the first entry that fires in it, if
/// one does, at its head.
pub proof fn lemma_pass_first(
    entries: Seq<KeymapEntryView>,
    s: Situation,
    exact: bool,
    from: int,
    m: int,
)
    requires
        0 <= from <= m < entries.len(),
        entry_fires(entries[m], s, exact),
    ensures
        pass(entries, s, exact, from, false).len() > 0,
        pass(entries, s, exact, from, false)[0] <= m,
    decreases entries.len() - from,
{
    if !entry_fires(entries[from], s, exact) {
        lemma_pass_first(entries, s, exact, from + 1, m);
    }
}

/// A pass in which no entry fires yields nothing.
pub proof fn lemma_pass_none(
    entries: Seq<KeymapEntryView>,
    s: Situation,
    exact: bool,
    from: int,
    started: bool,
)
    requires
        0 <= from,
        forall|i: int| from <= i < entries.len() ==> !entry_fires(#[trigger] entries[i], s, exact),
    ensures
        pass(entries, s, exact, from, started).len() == 0,
    decreases entries.len() - from,
{
    if from < entries.len() {
        lemma_pass_none(entries, s, exact, from + 1, started);
    }
}

/// Where no entry fires in either pass, the lookup lets none fire.
pub proof fn lemma_nothing_fires_without_match(entries: Seq<KeymapEntryView>, s: Situation)
    requires
        forall|i: int|
            0 <= i < entries.len() ==> !entry_fires(#[trigger] entries[i], s, true) && !entry_fires(
                entries[i],
                s,
                false,
            ),
    ensures
        select(entries, s).len() == 0,
{
    lemma_pass_none(entries, s, true, 0, false);
    lemma_pass_none(entries, s, false, 0, false);
}

/// An entry with `exact_match` never fires while a modifier is held that its
/// chord does not name: every entry that the lookup lets fire either has
/// all held keys named by its modifiers, or has `exact_match` unset.
pub proof fn lemma_exact_match_forbids_extra_modifiers(
    entries: Seq<KeymapEntryView>,
    s: Situation,
    k: int,
)
    requires
        0 <= k < select(entries, s).len(),
    ensures
        0 <= select(entries, s)[k] < entries.len(),
        entries[select(entries, s)[k]].exact_match ==> forall|i: int|
            0 <= i < s.pressed.len() ==> named_by(
                entries[select(entries, s)[k]].modifiers,
                #[trigger] s.pressed[i],
            ),
        forall|j: int|
            0 <= j < entries[select(entries, s)[k]].modifiers.len() ==> modifier_held(
                #[trigger] entries[select(entries, s)[k]].modifiers[j],
                s.pressed,
            ),
        application_passes(entries[select(entries, s)[k]].application, s.application),
        mode_passes(entries[select(entries, s)[k]].mode, s.mode),
{
    lemma_pass_sound(entries, s, true, 0, false);
    lemma_pass_sound(entries, s, false, 0, false);
    let found = select(entries, s);
    let e = entries[found[k]];
    lemma_no_extra(s.pressed, e.modifiers);
    lemma_no_missing(s.pressed, e.modifiers);
}

/// An entry without `exact_match` fires although other modifiers are held:
/// if all its modifiers are held and its filters pass, the lookup lets some
/// entry fire, and none that stands after it comes first.
pub proof fn lemma_loose_entry_allows_extra_modifiers(
    entries: Seq<KeymapEntryView>,
    s: Situation,
    m: int,
)
    requires
        0 <= m < entries.len(),
        !entries[m].exact_match,
        forall|j: int|
            0 <= j < entries[m].modifiers.len() ==> modifier_held(
                #[trigger] entries[m].modifiers[j],
                s.pressed,
            ),
        application_passes(entries[m].application, s.application),
        mode_passes(entries[m].mode, s.mode),
    ensures
        select(entries, s).len() > 0,
        pass(entries, s, true, 0, false).len() == 0 ==> select(entries, s)[0] <= m,
{
    lemma_no_missing(s.pressed, entries[m].modifiers);
    lemma_pass_first(entries, s, false, 0, m);
}

/// Of two entries that fire in the same pass the earlier one wins: the
/// first entry that the lookup lets fire stands at or before either, and an
/// entry fires after it only where both open nested remaps.
pub proof fn lemma_earlier_entry_wins(
    entries: Seq<KeymapEntryView>,
    s: Situation,
    exact: bool,
    i: int,
    j: int,
)
    requires
        0 <= i < j < entries.len(),
        entry_fires(entries[i], s, exact),
        entry_fires(entries[j], s, exact),
        exact || pass(entries, s, true, 0, false).len() == 0,
    ensures
        select(entries, s) == pass(entries, s, exact, 0, false),
        select(entries, s).len() > 0,
        select(entries, s)[0] <= i,
        !is_remap(entries[select(entries, s)[0]].actions) ==> select(entries, s).len() == 1,
        forall|k: int|
            1 <= k < select(entries, s).len() ==> is_remap(
                entries[#[trigger] select(entries, s)[k]].actions,
            ),
{
    lemma_pass_first(entries, s, exact, 0, i);
    lemma_pass_shape(entries, s, exact, 0);
}

/// The shape of what a fresh pass yields: one entry that opens no nested
/// remaps, or entries that all open nested remaps.
pub proof fn lemma_pass_shape(entries: Seq<KeymapEntryView>, s: Situation, exact: bool, from: int)
    requires
        0 <= from,
    ensures
        pass(entries, s, exact, from, false).len() > 0 && !is_remap(
            entries[pass(entries, s, exact, from, false)[0]].actions,
        ) ==> pass(entries, s, exact, from, false).len() == 1,
        forall|k: int|
            1 <= k < pass(entries, s, exact, from, false).len() ==> is_remap(
                entries[#[trigger] pass(entries, s, exact, from, false)[k]].actions,
            ),
    decreases entries.len() - from,
{
    if from < entries.len() {
        if entry_fires(entries[from], s, exact) {
            if is_remap(entries[from].actions) {
                lemma_pass_started(entries, s, exact, from + 1);
            }
        } else {
            lemma_pass_shape(entries, s, exact, from + 1);
        }
    }
}

/// After its first entry a pass yields only entries that open nested
/// remaps.
pub proof fn lemma_pass_started(entries: Seq<KeymapEntryView>, s: Situation, exact: bool, from: int)
    requires
        0 <= from,
    ensures
        forall|k: int|
            0 <= k < pass(entries, s, exact, from, true).len() ==> is_remap(
                entries[#[trigger] pass(entries, s, exact, from, true)[k]].actions,
            ),
    decreases entries.len() - from,
{
    if from < entries.len() {
        lemma_pass_started(entries, s, exact, from + 1);
    }
}

} // verus!
