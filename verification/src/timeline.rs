//! Tracks of the animation editor's timeline: adding tracks under unique
//! names, deleting tracks and keyframes, and the labels of new keyframes.
//! Keyframes are of the caller's type (they hold a time on the timeline);
//! the timeline keeps the names unique and the selection consistent.

use vstd::prelude::*;

use crate::canvas::anim_path;
use crate::panel::PanelContext;
use crate::paths::path_join;
use crate::selection::{clamped_selection, SelectList};
use crate::status::{
    load_error_status, load_error_text, loaded_status, no_project_status, save_status, save_text,
    LoadError, SaveError,
};
use crate::text::{decimal, lemma_decimal_injective, owned, push_decimal, str_eq, trim, trimmed};

verus! {

/// A named track of keyframes.
pub struct Track<K> {
    /// The name shown in the track's label column.
    pub name: String,
    /// The track's keyframes.
    pub keyframes: Vec<K>,
}

/// The names of `tracks`, in order.
pub open spec fn names_of<K>(tracks: Seq<Track<K>>) -> Seq<Seq<char>> {
    tracks.map_values(|t: Track<K>| t.name@)
}

/// The `k`-th name tried for a new track called `base`: `base` itself
/// first, then `base 2`, `base 3`, and so on.
pub open spec fn name_candidate(base: Seq<char>, k: nat) -> Seq<char> {
    if k <= 1 {
        base
    } else {
        base + " "@ + decimal(k)
    }
}

/// `name` is the first of `base`, `base 2`, `base 3`, … that is not in
/// `taken`.
pub open spec fn first_free_name(taken: Seq<Seq<char>>, base: Seq<char>, name: Seq<char>) -> bool {
    exists|k: nat|
        #![trigger name_candidate(base, k)]
        k >= 1 && name == name_candidate(base, k) && !taken.contains(name) && forall|j: nat|
            1 <= j < k ==> taken.contains(#[trigger] name_candidate(base, j))
}

proof fn lemma_candidate_injective(base: Seq<char>, a: nat, b: nat)
    requires
        a >= 1,
        b >= 1,
        name_candidate(base, a) == name_candidate(base, b),
    ensures
        a == b,
{
    if a > 1 && b > 1 {
        let da = decimal(a);
        let db = decimal(b);
        let prefix = base + " "@;
        assert(name_candidate(base, a) =~= prefix + da);
        assert(name_candidate(base, b) =~= prefix + db);
        assert((prefix + da).subrange(prefix.len() as int, (prefix + da).len() as int) =~= da);
        assert((prefix + db).subrange(prefix.len() as int, (prefix + db).len() as int) =~= db);
        lemma_decimal_injective(a, b);
    } else if a > 1 {
        assert(name_candidate(base, a).len() > base.len());
    } else if b > 1 {
        assert(name_candidate(base, b).len() > base.len());
    }
}

/// When the first `m` candidates are all taken, `taken` has at least `m`
/// entries: the candidates are pairwise different.
proof fn lemma_candidates_fit(taken: Seq<Seq<char>>, base: Seq<char>, m: nat)
    requires
        forall|j: nat| 1 <= j <= m ==> taken.contains(#[trigger] name_candidate(base, j)),
    ensures
        m <= taken.len(),
{
    let f = |j: int| name_candidate(base, j as nat);
    let dom = vstd::set_lib::set_int_range(1, m as int + 1);
    vstd::set_lib::lemma_int_range(1, m as int + 1);
    assert forall|a: int, b: int| dom.contains(a) && dom.contains(b) && #[trigger] f(a) == #[trigger] f(b) implies a == b by {
        lemma_candidate_injective(base, a as nat, b as nat);
    }
    let img = dom.map(f);
    vstd::set_lib::lemma_map_size(dom, img, f);
    assert forall|x: Seq<char>| img.contains(x) implies taken.to_set().contains(x) by {
        let j = choose|j: int| dom.contains(j) && f(j) == x;
        assert(taken.contains(name_candidate(base, j as nat)));
    }
    vstd::seq_lib::seq_to_set_is_finite(taken);
    vstd::set_lib::lemma_len_subset(img, taken.to_set());
    taken.lemma_cardinality_of_set();
}

/// Some track is named `name`.
fn name_taken<K>(tracks: &Vec<Track<K>>, name: &str) -> (r: bool)
    ensures
        r == names_of(tracks@).contains(name@),
{
    for i in 0..tracks.len()
        invariant
            forall|j: int| 0 <= j < i ==> tracks@[j].name@ != name@,
    {
        if str_eq(tracks[i].name.as_str(), name) {
            assert(names_of(tracks@)[i as int] == name@);
            return true;
        }
    }
    assert forall|j: int| 0 <= j < names_of(tracks@).len() implies names_of(tracks@)[j] != name@ by {
        assert(names_of(tracks@)[j] == tracks@[j].name@);
    }
    false
}

/// The name a new track called `base` gets: `base` when no track has it,
/// else the first of `base 2`, `base 3`, … that no track has.
pub fn unique_track_name<K>(tracks: &Vec<Track<K>>, base: &str) -> (name: String)
    requires
        tracks@.len() + 2 <= u32::MAX,
    ensures
        first_free_name(names_of(tracks@), base@, name@),
{
    let ghost taken = names_of(tracks@);
    let mut name = owned(base);
    let mut suffix: u32 = 2;
    while name_taken(tracks, name.as_str())
        invariant
            taken == names_of(tracks@),
            tracks@.len() + 2 <= u32::MAX,
            2 <= suffix <= tracks@.len() + 2,
            name@ == name_candidate(base@, (suffix - 1) as nat),
            forall|j: nat| 1 <= j < suffix - 1 ==> taken.contains(#[trigger] name_candidate(base@, j)),
        decreases tracks@.len() + 2 - suffix,
    {
        proof {
            assert(forall|j: nat| 1 <= j <= suffix - 1 ==> taken.contains(#[trigger] name_candidate(base@, j)));
            lemma_candidates_fit(taken, base@, (suffix - 1) as nat);
        }
        let mut next = owned(base);
        next.append(" ");
        push_decimal(&mut next, suffix as u64);
        name = next;
        suffix = suffix + 1;
    }
    assert(first_free_name(taken, base@, name@)) by {
        let k = (suffix - 1) as nat;
        assert(name@ == name_candidate(base@, k));
    }
    name
}

/// No two entries of `names` are equal.
pub open spec fn all_distinct(names: Seq<Seq<char>>) -> bool {
    forall|i: int, j: int| 0 <= i < j < names.len() ==> #[trigger] names[i] != #[trigger] names[j]
}

/// Adding a track under the name [`unique_track_name`] chooses keeps the
/// track names pairwise different.
pub proof fn lemma_added_name_keeps_names_distinct(taken: Seq<Seq<char>>, base: Seq<char>, name: Seq<char>)
    requires
        all_distinct(taken),
        first_free_name(taken, base, name),
    ensures
        all_distinct(taken.push(name)),
{
    assert forall|i: int, j: int| 0 <= i < j < taken.push(name).len() implies #[trigger] taken.push(name)[i]
        != #[trigger] taken.push(name)[j] by {
        if j == taken.len() {
            assert(taken.push(name)[i] == taken[i]);
            assert(!taken.contains(name));
        } else {
            assert(taken.push(name)[i] == taken[i] && taken.push(name)[j] == taken[j]);
        }
    }
}

/// The letter of the `n`-th keyframe added: `A` to `Z` over and over.
pub open spec fn keyframe_letter(n: u32) -> char {
    (65 + n % 26) as char
}

fn letter_at(i: u32) -> (c: char)
    requires
        i < 26,
    ensures
        c == (65 + i) as char,
{
    let letters = ['A', 'B', 'C', 'D', 'E', 'F', 'G', 'H', 'I', 'J', 'K', 'L', 'M', 'N', 'O', 'P', 'Q', 'R', 'S', 'T', 'U', 'V', 'W', 'X', 'Y', 'Z'];
    let c = letters[i as usize];
    assert(c == (65 + i) as char) by {
        assert(letters@ == seq!['A', 'B', 'C', 'D', 'E', 'F', 'G', 'H', 'I', 'J', 'K', 'L', 'M', 'N', 'O', 'P', 'Q', 'R', 'S', 'T', 'U', 'V', 'W', 'X', 'Y', 'Z']);
    }
    c
}

/// Tracks of the timeline, the selected track and keyframe, the count of
/// keyframes added so far and the name typed for a new track.
pub struct Timeline<K> {
    /// The tracks, with the selected one.
    pub tracks: SelectList<Track<K>>,
    /// Index of the selected keyframe within the selected track.
    pub selected_keyframe: Option<usize>,
    /// Counts the keyframes added; gives each new keyframe its letter.
    pub keyframe_counter: u32,
    /// Text typed in the "new track name" box.
    pub new_track_name: String,
    /// Status line of loading and saving.
    pub status: String,
}

impl<K> Timeline<K> {
    /// The track selection names an existing track.
    pub open spec fn wf(&self) -> bool {
        self.tracks.wf()
    }

    /// A timeline of `tracks` with nothing selected, whose keyframe counter
    /// starts at `keyframe_counter`.
    pub fn new(tracks: Vec<Track<K>>, keyframe_counter: u32) -> (t: Self)
        ensures
            t.wf(),
            t.tracks.items == tracks,
            t.tracks.selected is None,
            t.selected_keyframe is None,
            t.keyframe_counter == keyframe_counter,
            t.new_track_name@.len() == 0,
            t.status@.len() == 0,
    {
        Timeline {
            tracks: SelectList::new(tracks),
            selected_keyframe: None,
            keyframe_counter,
            new_track_name: String::new(),
            status: String::new(),
        }
    }

    /// The "add track" button is enabled: the typed name is not blank.
    pub fn can_add_track(&self) -> (r: bool)
        ensures
            r == (trimmed(self.new_track_name@).len() > 0),
    {
        trim(self.new_track_name.as_str()).as_str().unicode_len() > 0
    }

    /// Add an empty track named after the typed name (trimmed, made unique
    /// with a number), select it and clear the name box. Nothing happens
    /// when the typed name is blank.
    pub fn add_track(&mut self)
        requires
            old(self).wf(),
            old(self).tracks.items@.len() + 2 <= u32::MAX,
        ensures
            final(self).wf(),
            final(self).keyframe_counter == old(self).keyframe_counter,
            trimmed(old(self).new_track_name@).len() == 0 ==> *final(self) == *old(self),
            trimmed(old(self).new_track_name@).len() > 0 ==> {
                let n = old(self).tracks.items@.len();
                let added = final(self).tracks.items@[n as int];
                &&& final(self).tracks.items@.len() == n + 1
                &&& final(self).tracks.items@.take(n as int) == old(self).tracks.items@
                &&& first_free_name(names_of(old(self).tracks.items@), trimmed(old(self).new_track_name@), added.name@)
                &&& added.keyframes@.len() == 0
                &&& final(self).tracks.selected == Some(n as usize)
                &&& final(self).selected_keyframe is None
                &&& final(self).new_track_name@.len() == 0
            },
    {
        let base = trim(self.new_track_name.as_str());
        if base.as_str().unicode_len() == 0 {
            return;
        }
        let name = unique_track_name(&self.tracks.items, base.as_str());
        let ghost before = self.tracks.items@;
        self.tracks.push_and_select(Track { name, keyframes: Vec::new() });
        assert(self.tracks.items@.take(before.len() as int) =~= before);
        self.new_track_name = String::new();
        self.selected_keyframe = None;
    }

    /// Delete the selected track with its keyframes; the selection stays at
    /// its position (or moves to the new last track) and no keyframe is
    /// selected. Returns the removed track.
    pub fn delete_selected_track(&mut self) -> (removed: Option<Track<K>>)
        requires
            old(self).wf(),
        ensures
            final(self).wf(),
            final(self).keyframe_counter == old(self).keyframe_counter,
            final(self).new_track_name == old(self).new_track_name,
            old(self).tracks.selected is None ==> removed is None && *final(self) == *old(self),
            old(self).tracks.selected matches Some(i) ==> {
                &&& removed == Some(old(self).tracks.items@[i as int])
                &&& final(self).tracks.items@ == old(self).tracks.items@.remove(i as int)
                &&& final(self).tracks.selected == clamped_selection(i, final(self).tracks.items@.len())
                &&& final(self).selected_keyframe is None
            },
    {
        if self.tracks.selected.is_none() {
            return None;
        }
        let removed = self.tracks.remove_selected();
        self.selected_keyframe = None;
        removed
    }

    /// A click on the label of track `row` selects it, with no keyframe.
    pub fn click_track(&mut self, row: usize)
        requires
            row < old(self).tracks.items@.len(),
        ensures
            final(self).wf(),
            final(self).tracks.items == old(self).tracks.items,
            final(self).tracks.selected == Some(row),
            final(self).selected_keyframe is None,
            final(self).keyframe_counter == old(self).keyframe_counter,
            final(self).new_track_name == old(self).new_track_name,
    {
        self.tracks.select(row);
        self.selected_keyframe = None;
    }

    /// A click on keyframe `ki` of track `row` selects both.
    pub fn click_keyframe(&mut self, row: usize, ki: usize)
        requires
            row < old(self).tracks.items@.len(),
        ensures
            final(self).wf(),
            final(self).tracks.items == old(self).tracks.items,
            final(self).tracks.selected == Some(row),
            final(self).selected_keyframe == Some(ki),
            final(self).keyframe_counter == old(self).keyframe_counter,
            final(self).new_track_name == old(self).new_track_name,
    {
        self.tracks.select(row);
        self.selected_keyframe = Some(ki);
    }

    /// Delete the selected keyframe of the selected track, when both exist;
    /// then no keyframe is selected. Returns the removed keyframe.
    pub fn delete_selected_keyframe(&mut self) -> (removed: Option<K>)
        requires
            old(self).wf(),
        ensures
            final(self).wf(),
            final(self).tracks.selected == old(self).tracks.selected,
            final(self).keyframe_counter == old(self).keyframe_counter,
            final(self).new_track_name == old(self).new_track_name,
            ({
                match (old(self).tracks.selected, old(self).selected_keyframe) {
                    (Some(ti), Some(ki)) if ki < old(self).tracks.items@[ti as int].keyframes@.len() => {
                        let t = old(self).tracks.items@[ti as int];
                        &&& removed == Some(t.keyframes@[ki as int])
                        &&& final(self).tracks.items@.len() == old(self).tracks.items@.len()
                        &&& forall|j: int| 0 <= j < old(self).tracks.items@.len() && j != ti ==>
                                #[trigger] final(self).tracks.items@[j] == old(self).tracks.items@[j]
                        &&& final(self).tracks.items@[ti as int].name == t.name
                        &&& final(self).tracks.items@[ti as int].keyframes@ == t.keyframes@.remove(ki as int)
                        &&& final(self).selected_keyframe is None
                    },
                    _ => removed is None && *final(self) == *old(self),
                }
            }),
    {
        let (ti, ki) = match (self.tracks.selected, self.selected_keyframe) {
            (Some(ti), Some(ki)) => (ti, ki),
            _ => return None,
        };
        if ki >= self.tracks.items[ti].keyframes.len() {
            return None;
        }
        let ghost before = self.tracks.items@;
        let mut track = self.tracks.items.remove(ti);
        let kf = track.keyframes.remove(ki);
        self.tracks.items.insert(ti, track);
        assert(forall|j: int| 0 <= j < before.len() && j != ti ==> #[trigger] self.tracks.items@[j] == before[j]);
        self.selected_keyframe = None;
        Some(kf)
    }

    /// Count one more keyframe and return its letter.
    pub fn next_keyframe_label(&mut self) -> (c: char)
        requires
            old(self).keyframe_counter < u32::MAX,
        ensures
            final(self).keyframe_counter == old(self).keyframe_counter + 1,
            c == keyframe_letter(final(self).keyframe_counter),
            final(self).tracks == old(self).tracks,
            final(self).selected_keyframe == old(self).selected_keyframe,
            final(self).new_track_name == old(self).new_track_name,
    {
        self.keyframe_counter = self.keyframe_counter + 1;
        letter_at(self.keyframe_counter % 26)
    }

    /// Where "💾 Save" writes the animation; without a project the status
    /// says so.
    pub fn save_target(&mut self, ctx: &PanelContext) -> (p: Option<String>)
        ensures
            ctx.asset_root is None ==> p is None && final(self).status@ == "No project loaded — cannot save animation."@,
            ctx.asset_root matches Some(r) ==> (p matches Some(s) && s@ == path_join(
                path_join(r@, "animations"@),
                "animation.toml"@,
            ) && final(self).status == old(self).status),
            final(self).tracks == old(self).tracks,
            final(self).selected_keyframe == old(self).selected_keyframe,
    {
        let p = anim_path(ctx);
        if p.is_none() {
            self.status = no_project_status("save", "animation");
            proof {
                reveal_strlit("No project loaded — cannot save animation.");
                reveal_strlit("No project loaded — cannot ");
                reveal_strlit("save");
                reveal_strlit(" ");
                reveal_strlit("animation");
                reveal_strlit(".");
                assert(self.status@ =~= "No project loaded — cannot save animation."@);
            }
        }
        p
    }

    /// Where "📂 Load" reads the animation; without a project the status
    /// says so.
    pub fn load_target(&mut self, ctx: &PanelContext) -> (p: Option<String>)
        ensures
            ctx.asset_root is None ==> p is None && final(self).status@ == "No project loaded — cannot load animation."@,
            ctx.asset_root matches Some(r) ==> (p matches Some(s) && s@ == path_join(
                path_join(r@, "animations"@),
                "animation.toml"@,
            ) && final(self).status == old(self).status),
            final(self).tracks == old(self).tracks,
            final(self).selected_keyframe == old(self).selected_keyframe,
    {
        let p = anim_path(ctx);
        if p.is_none() {
            self.status = no_project_status("load", "animation");
            proof {
                reveal_strlit("No project loaded — cannot load animation.");
                reveal_strlit("No project loaded — cannot ");
                reveal_strlit("load");
                reveal_strlit(" ");
                reveal_strlit("animation");
                reveal_strlit(".");
                assert(self.status@ =~= "No project loaded — cannot load animation."@);
            }
        }
        p
    }

    /// The application tried to save the animation to `path`.
    pub fn saved(&mut self, path: &str, result: Result<(), SaveError>)
        ensures
            final(self).status@ == save_text(result, path@),
            final(self).tracks == old(self).tracks,
            final(self).selected_keyframe == old(self).selected_keyframe,
            final(self).keyframe_counter == old(self).keyframe_counter,
    {
        self.status = save_status(&result, path);
    }

    /// The application tried to load the animation from `path`: on success
    /// its tracks replace the timeline's and nothing is selected.
    pub fn loaded(&mut self, path: &str, result: Result<Vec<Track<K>>, LoadError>)
        requires
            old(self).wf(),
        ensures
            final(self).wf(),
            final(self).keyframe_counter == old(self).keyframe_counter,
            final(self).new_track_name == old(self).new_track_name,
            result matches Ok(tracks) ==> {
                &&& final(self).tracks.items == tracks
                &&& final(self).tracks.selected is None
                &&& final(self).selected_keyframe is None
                &&& final(self).status@ == "Loaded "@ + decimal(tracks@.len()) + " tracks ← "@ + path@
            },
            result matches Err(e) ==> {
                &&& final(self).tracks == old(self).tracks
                &&& final(self).selected_keyframe == old(self).selected_keyframe
                &&& final(self).status@ == load_error_text(e, path@)
            },
    {
        match result {
            Ok(tracks) => {
                let status = loaded_status(tracks.len(), "tracks", path);
                proof {
                    reveal_strlit(" ");
                    reveal_strlit("tracks");
                    reveal_strlit(" ← ");
                    reveal_strlit(" tracks ← ");
                    assert(status@ =~= "Loaded "@ + decimal(tracks@.len()) + " tracks ← "@ + path@);
                }
                self.tracks = SelectList::new(tracks);
                self.selected_keyframe = None;
                self.status = status;
            },
            Err(e) => {
                self.status = load_error_status(&e, path);
            },
        }
    }

    /// The hint under the toolbar for the selected track:
    /// `Track: <name>  (<n> keyframes)`.
    pub fn track_hint(&self) -> (hint: Option<String>)
        requires
            self.wf(),
        ensures
            self.tracks.selected is None ==> hint is None,
            self.tracks.selected matches Some(i) ==> hint matches Some(h) && h@ == "Track: "@
                + self.tracks.items@[i as int].name@ + "  ("@ + decimal(self.tracks.items@[i as int].keyframes@.len())
                + " keyframes)"@,
    {
        match self.tracks.selected {
            Some(i) => {
                let t = &self.tracks.items[i];
                let mut h = owned("Track: ");
                h.append(t.name.as_str());
                h.append("  (");
                push_decimal(&mut h, t.keyframes.len() as u64);
                h.append(" keyframes)");
                Some(h)
            },
            None => None,
        }
    }
}

} // verus!
