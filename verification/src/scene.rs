//! The scene editor's entity list: which entities the search box lets
//! through, what the list says when it shows none, and the counter that
//! numbers new entities, kept above every "Entity <n>" of a loaded scene.
//! Entities (with their transforms) are the caller's; these functions read
//! their names.

use vstd::prelude::*;

use crate::canvas::{copy_name, entity_name, pie_action, pie_action_spec, scene_path, GizmoMode, PieAction};
use crate::panel::PanelContext;
use crate::paths::path_join;
use crate::selection::{clamped_selection, SelectList};
use crate::status::{
    load_error_status, load_error_text, loaded_status, no_project_status, save_status, save_text,
    LoadError, SaveError,
};
use crate::text::{
    chars_of, contains, decimal, is_prefix, lowercase, occurs_in, owned, starts_with, to_lowercase,
};

verus! {

/// The value of a string of decimal digits.
pub open spec fn digits_value(d: Seq<char>) -> nat
    decreases d.len(),
{
    if d.len() == 0 {
        0
    } else {
        digits_value(d.drop_last()) * 10 + (d.last() as nat - '0' as nat) as nat
    }
}

/// Every character of `d` is an ASCII digit.
pub open spec fn all_digits(d: Seq<char>) -> bool {
    forall|i: int| 0 <= i < d.len() ==> '0' <= #[trigger] d[i] <= '9'
}

/// What `str::parse::<u32>` gives for `s`: an optional `+` followed by one
/// or more ASCII digits whose value fits in a `u32`; anything else fails.
pub open spec fn parsed_u32(s: Seq<char>) -> Option<u32> {
    let d = if s.len() > 0 && s[0] == '+' { s.drop_first() } else { s };
    if d.len() > 0 && all_digits(d) && digits_value(d) <= u32::MAX {
        Some(digits_value(d) as u32)
    } else {
        None
    }
}

proof fn lemma_digits_value_grows(d: Seq<char>, i: int)
    requires
        0 <= i <= d.len(),
        all_digits(d),
    ensures
        digits_value(d.take(i)) <= digits_value(d),
    decreases d.len() - i,
{
    if i < d.len() {
        lemma_digits_value_grows(d, i + 1);
        assert(d.take(i + 1).drop_last() =~= d.take(i));
    } else {
        assert(d.take(i) =~= d);
    }
}

/// Parse a `u32` the way `str::parse` does.
pub fn parse_u32(s: &str) -> (r: Option<u32>)
    ensures
        r == parsed_u32(s@),
{
    let cs = chars_of(s);
    let start: usize = if cs.len() > 0 && cs[0] == '+' { 1 } else { 0 };
    let ghost d = if s@.len() > 0 && s@[0] == '+' { s@.drop_first() } else { s@ };
    assert(d =~= s@.subrange(start as int, s@.len() as int));
    if start >= cs.len() {
        return None;
    }
    let mut value: u64 = 0;
    let mut i = start;
    while i < cs.len()
        invariant
            cs@ == s@,
            start <= i <= cs@.len(),
            d == s@.subrange(start as int, s@.len() as int),
            d == (if s@.len() > 0 && s@[0] == '+' { s@.drop_first() } else { s@ }),
            forall|k: int| 0 <= k < i - start ==> '0' <= #[trigger] d[k] <= '9',
            value == digits_value(d.take(i - start)),
            value <= u32::MAX,
        decreases cs@.len() - i,
    {
        let c = cs[i];
        if c < '0' || c > '9' {
            assert(!all_digits(d)) by {
                assert(d[i - start] == c);
            }
            return None;
        }
        let digit = (c as u32 - '0' as u32) as u64;
        assert(d.take(i - start + 1).drop_last() =~= d.take(i - start));
        assert(d.take(i - start + 1).last() == c);
        value = value * 10 + digit;
        if value > u32::MAX as u64 {
            proof {
                if all_digits(d) {
                    lemma_digits_value_grows(d, i - start + 1);
                }
            }
            return None;
        }
        i = i + 1;
    }
    assert(d.take(d.len() as int) =~= d);
    Some(value as u32)
}

/// The number in the name of an entity called `Entity <n>`.
pub open spec fn entity_number(name: Seq<char>) -> Option<u32> {
    if is_prefix("Entity "@, name) {
        parsed_u32(name.subrange(7, name.len() as int))
    } else {
        None
    }
}

/// The number in `name` when it reads `Entity <n>`.
pub fn entity_number_of(name: &str) -> (n: Option<u32>)
    ensures
        n == entity_number(name@),
{
    proof {
        reveal_strlit("Entity ");
    }
    if !starts_with(name, "Entity ") {
        return None;
    }
    let cs = chars_of(name);
    let mut rest = String::new();
    let mut k: usize = 7;
    while k < cs.len()
        invariant
            cs@ == name@,
            7 <= k <= cs@.len(),
            rest@ == name@.subrange(7, k as int),
        decreases cs@.len() - k,
    {
        crate::text::push_char(&mut rest, cs[k]);
        assert(name@.subrange(7, k + 1) =~= name@.subrange(7, k as int).push(name@[k as int]));
        k = k + 1;
    }
    parse_u32(rest.as_str())
}

/// The largest number of an `Entity <n>` among `names`, or 0.
pub open spec fn max_entity_number(names: Seq<Seq<char>>) -> nat
    decreases names.len(),
{
    if names.len() == 0 {
        0
    } else {
        let rest = max_entity_number(names.drop_last());
        match entity_number(names.last()) {
            Some(n) if n > rest => n as nat,
            _ => rest,
        }
    }
}

/// The entity counter after loading entities named `names`: the larger of
/// `counter` and the largest `Entity <n>` among them.
pub open spec fn loaded_counter(counter: u32, names: Seq<Seq<char>>) -> nat {
    if max_entity_number(names) > counter {
        max_entity_number(names)
    } else {
        counter as nat
    }
}

/// The names of `v`.
pub open spec fn views(v: Seq<String>) -> Seq<Seq<char>> {
    v.map_values(|s: String| s@)
}

/// The entity counter after a scene with entities named `names` was
/// loaded: raised to the largest `Entity <n>` among them, so that new
/// entities never repeat a loaded name.
pub fn counter_after_load(counter: u32, names: &Vec<String>) -> (c: u32)
    ensures
        c as nat == loaded_counter(counter, views(names@)),
{
    let mut best: u32 = 0;
    for i in 0..names.len()
        invariant
            best as nat == max_entity_number(views(names@.take(i as int))),
    {
        assert(views(names@.take(i + 1)).drop_last() =~= views(names@.take(i as int)));
        assert(views(names@.take(i + 1)).last() == names@[i as int]@);
        match entity_number_of(names[i].as_str()) {
            Some(n) => {
                if n > best {
                    best = n;
                }
            },
            None => {},
        }
    }
    assert(names@.take(names@.len() as int) =~= names@);
    if best > counter {
        best
    } else {
        counter
    }
}

proof fn lemma_max_entity_number_bounds(names: Seq<Seq<char>>, i: int)
    requires
        0 <= i < names.len(),
    ensures
        entity_number(names[i]) matches Some(n) ==> n <= max_entity_number(names),
    decreases names.len(),
{
    if i < names.len() - 1 {
        lemma_max_entity_number_bounds(names.drop_last(), i);
        assert(names.drop_last()[i] == names[i]);
    }
}

proof fn lemma_digits_of_decimal(k: nat)
    ensures
        all_digits(decimal(k)),
        digits_value(decimal(k)) == k,
        decimal(k).len() > 0,
    decreases k,
{
    let digits = seq!['0', '1', '2', '3', '4', '5', '6', '7', '8', '9'];
    assert(forall|d: int| 0 <= d < 10 ==> '0' <= #[trigger] digits[d] <= '9' && digits[d] as nat - '0' as nat == d);
    let d = decimal(k);
    if k >= 10 {
        lemma_digits_of_decimal(k / 10);
        assert(d.drop_last() =~= decimal(k / 10));
        assert(d.last() == digits[(k % 10) as int]);
        assert forall|i: int| 0 <= i < d.len() implies '0' <= #[trigger] d[i] <= '9' by {
            if i < d.len() - 1 {
                assert(d[i] == decimal(k / 10)[i]);
            }
        }
        let last = (d.last() as nat - '0' as nat) as nat;
        assert(last == k % 10);
        assert(digits_value(d) == digits_value(d.drop_last()) * 10 + last);
        assert(digits_value(d.drop_last()) == k / 10);
        assert(k == (k / 10) * 10 + k % 10) by (nonlinear_arith);
    } else {
        assert(d.last() == digits[k as int]);
        assert(d.drop_last() =~= Seq::<char>::empty());
        assert(digits_value(d) == digits_value(d.drop_last()) * 10 + (d.last() as nat - '0' as nat) as nat);
    }
}

/// The entity counter after a load stays at or above the number of every
/// loaded `Entity <n>`: every entity added afterwards, `Entity <k>` with
/// `k` above the counter, has a name no loaded entity has.
pub proof fn lemma_new_entity_names_are_fresh(counter: u32, names: Seq<Seq<char>>, k: nat)
    requires
        loaded_counter(counter, names) < k <= u32::MAX,
    ensures
        !names.contains("Entity "@ + decimal(k)),
{
    if names.contains("Entity "@ + decimal(k)) {
        let i = choose|i: int| 0 <= i < names.len() && names[i] == "Entity "@ + decimal(k);
        lemma_max_entity_number_bounds(names, i);
        lemma_digits_of_decimal(k);
        let name = "Entity "@ + decimal(k);
        reveal_strlit("Entity ");
        assert(is_prefix("Entity "@, name)) by {
            assert(name.subrange(0, 7) =~= "Entity "@);
        }
        assert(name.subrange(7, name.len() as int) =~= decimal(k));
        assert(decimal(k)[0] != '+');
        assert(entity_number(name) == Some(k as u32));
    }
}

/// An entity of the scene: its name and its transform (position,
/// rotation and scale, of the caller's type).
pub struct SceneEntity<T> {
    /// The name shown in the entity list.
    pub name: String,
    /// Position, rotation and scale.
    pub transform: T,
}

/// The names of `entities`, in order.
pub open spec fn entity_names<T>(entities: Seq<SceneEntity<T>>) -> Seq<Seq<char>> {
    entities.map_values(|e: SceneEntity<T>| e.name@)
}

/// The names of `entities`, in order.
pub fn names_of_entities<T>(entities: &Vec<SceneEntity<T>>) -> (names: Vec<String>)
    ensures
        views(names@) == entity_names(entities@),
{
    let mut names: Vec<String> = Vec::new();
    for i in 0..entities.len()
        invariant
            views(names@) == entity_names(entities@.take(i as int)),
    {
        names.push(owned(entities[i].name.as_str()));
        assert(entity_names(entities@.take(i + 1)) =~= entity_names(entities@.take(i as int)).push(entities@[i as int].name@));
        assert(views(names@) =~= entity_names(entities@.take(i + 1)));
    }
    assert(entities@.take(entities@.len() as int) =~= entities@);
    names
}

/// The scene editor's entities, the counter that numbers new entities,
/// and the status line.
pub struct SceneEntities<T> {
    /// The entities, with the selected one.
    pub list: SelectList<SceneEntity<T>>,
    /// Number of the last entity added as `Entity <n>`.
    pub entity_counter: u32,
    /// Status line of loading and saving.
    pub status: String,
}

impl<T> SceneEntities<T> {
    /// The entities `entities`, none selected, numbering on from
    /// `entity_counter`.
    pub fn new(entities: Vec<SceneEntity<T>>, entity_counter: u32) -> (s: Self)
        ensures
            s.list.wf(),
            s.list.items == entities,
            s.list.selected is None,
            s.entity_counter == entity_counter,
            s.status@.len() == 0,
    {
        SceneEntities { list: SelectList::new(entities), entity_counter, status: String::new() }
    }

    /// "＋ Entity": count one more entity and return the name it gets,
    /// `Entity <n>`.
    pub fn next_entity_name(&mut self) -> (name: String)
        requires
            old(self).entity_counter < u32::MAX,
        ensures
            final(self).entity_counter == old(self).entity_counter + 1,
            name@ == "Entity "@ + decimal(final(self).entity_counter as nat),
            final(self).list == old(self).list,
            final(self).status == old(self).status,
    {
        self.entity_counter = self.entity_counter + 1;
        entity_name(self.entity_counter)
    }

    /// Carry out slice `idx` of the pie menu (the toolbar buttons do the
    /// same): switch the gizmo mode; add `Entity <n>` with the transform
    /// `fresh` and select it; duplicate the selected entity as
    /// `Copy of <name>` with its transform passed through `nudged`, at the end
    /// of the list, and select it; or delete the selected entity, keeping the
    /// selection at its position.
    pub fn execute_pie_action<G: FnOnce(&T) -> T>(&mut self, idx: usize, gizmo: &mut GizmoMode, fresh: T, nudged: G)
        requires
            old(self).list.wf(),
            idx == 3 ==> old(self).entity_counter < u32::MAX,
            forall|t: &T| #[trigger] call_requires(nudged, (t,)),
        ensures
            final(self).list.wf(),
            final(self).status == old(self).status,
            ({
                let n = old(self).list.items@.len();
                match pie_action_spec(idx) {
                    PieAction::SetGizmo(m) => *final(gizmo) == m && final(self).list == old(self).list
                        && final(self).entity_counter == old(self).entity_counter,
                    PieAction::AddEntity => {
                        &&& *final(gizmo) == *old(gizmo)
                        &&& final(self).entity_counter == old(self).entity_counter + 1
                        &&& final(self).list.items@.len() == n + 1
                        &&& final(self).list.items@.take(n as int) == old(self).list.items@
                        &&& final(self).list.items@[n as int].name@ == "Entity "@ + decimal(final(self).entity_counter as nat)
                        &&& final(self).list.items@[n as int].transform == fresh
                        &&& final(self).list.selected == Some(n as usize)
                    },
                    PieAction::Duplicate => {
                        &&& *final(gizmo) == *old(gizmo)
                        &&& final(self).entity_counter == old(self).entity_counter
                        &&& match old(self).list.selected {
                            Some(i) => {
                                let src = old(self).list.items@[i as int];
                                &&& final(self).list.items@.len() == n + 1
                                &&& final(self).list.items@.take(n as int) == old(self).list.items@
                                &&& final(self).list.items@[n as int].name@ == "Copy of "@ + src.name@
                                &&& call_ensures(nudged, (&src.transform,), final(self).list.items@[n as int].transform)
                                &&& final(self).list.selected == Some(n as usize)
                            },
                            None => final(self).list == old(self).list,
                        }
                    },
                    PieAction::Delete => {
                        &&& *final(gizmo) == *old(gizmo)
                        &&& final(self).entity_counter == old(self).entity_counter
                        &&& match old(self).list.selected {
                            Some(i) => final(self).list.items@ == old(self).list.items@.remove(i as int)
                                && final(self).list.selected == clamped_selection(i, final(self).list.items@.len()),
                            None => final(self).list == old(self).list,
                        }
                    },
                    PieAction::Nothing => *final(gizmo) == *old(gizmo) && final(self).list == old(self).list
                        && final(self).entity_counter == old(self).entity_counter,
                }
            }),
    {
        let ghost before = self.list.items@;
        match pie_action(idx) {
            PieAction::SetGizmo(m) => {
                *gizmo = m;
            },
            PieAction::AddEntity => {
                let name = self.next_entity_name();
                self.list.push_and_select(SceneEntity { name, transform: fresh });
                assert(self.list.items@.take(before.len() as int) =~= before);
            },
            PieAction::Duplicate => {
                if let Some(i) = self.list.selected {
                    let copy = {
                        let src = &self.list.items[i];
                        SceneEntity { name: copy_name(src.name.as_str()), transform: nudged(&src.transform) }
                    };
                    self.list.push_and_select(copy);
                    assert(self.list.items@.take(before.len() as int) =~= before);
                }
            },
            PieAction::Delete => {
                self.list.remove_selected();
            },
            PieAction::Nothing => {},
        }
    }

    /// Where "💾 Save" writes the scene; without a project the status says
    /// so.
    pub fn save_target(&mut self, ctx: &PanelContext) -> (p: Option<String>)
        ensures
            ctx.asset_root is None ==> p is None && final(self).status@ == "No project loaded — cannot save scene."@,
            ctx.asset_root matches Some(r) ==> (p matches Some(s) && s@ == path_join(path_join(r@, "scenes"@), "scene.toml"@)
                && final(self).status == old(self).status),
            final(self).list == old(self).list,
            final(self).entity_counter == old(self).entity_counter,
    {
        let p = scene_path(ctx);
        if p.is_none() {
            self.status = no_project_status("save", "scene");
            proof {
                reveal_strlit("No project loaded — cannot save scene.");
                reveal_strlit("No project loaded — cannot ");
                reveal_strlit("save");
                reveal_strlit(" ");
                reveal_strlit("scene");
                reveal_strlit(".");
                assert(self.status@ =~= "No project loaded — cannot save scene."@);
            }
        }
        p
    }

    /// Where "📂 Load" reads the scene; without a project the status says
    /// so.
    pub fn load_target(&mut self, ctx: &PanelContext) -> (p: Option<String>)
        ensures
            ctx.asset_root is None ==> p is None && final(self).status@ == "No project loaded — cannot load scene."@,
            ctx.asset_root matches Some(r) ==> (p matches Some(s) && s@ == path_join(path_join(r@, "scenes"@), "scene.toml"@)
                && final(self).status == old(self).status),
            final(self).list == old(self).list,
            final(self).entity_counter == old(self).entity_counter,
    {
        let p = scene_path(ctx);
        if p.is_none() {
            self.status = no_project_status("load", "scene");
            proof {
                reveal_strlit("No project loaded — cannot load scene.");
                reveal_strlit("No project loaded — cannot ");
                reveal_strlit("load");
                reveal_strlit(" ");
                reveal_strlit("scene");
                reveal_strlit(".");
                assert(self.status@ =~= "No project loaded — cannot load scene."@);
            }
        }
        p
    }

    /// The application tried to save the scene to `path`.
    pub fn saved(&mut self, path: &str, result: Result<(), SaveError>)
        ensures
            final(self).status@ == save_text(result, path@),
            final(self).list == old(self).list,
            final(self).entity_counter == old(self).entity_counter,
    {
        self.status = save_status(&result, path);
    }

    /// The application tried to load the scene from `path`: on success
    /// the loaded entities replace the list, nothing is selected, and the
    /// counter is raised above every loaded `Entity <n>`.
    pub fn loaded(&mut self, path: &str, result: Result<Vec<SceneEntity<T>>, LoadError>)
        requires
            old(self).list.wf(),
        ensures
            final(self).list.wf(),
            result matches Ok(entities) ==> {
                &&& final(self).list.items == entities
                &&& final(self).list.selected is None
                &&& final(self).entity_counter as nat == loaded_counter(old(self).entity_counter, entity_names(entities@))
                &&& final(self).status@ == "Loaded "@ + decimal(entities@.len()) + " entities ← "@ + path@
            },
            result matches Err(e) ==> {
                &&& final(self).list == old(self).list
                &&& final(self).entity_counter == old(self).entity_counter
                &&& final(self).status@ == load_error_text(e, path@)
            },
    {
        match result {
            Ok(entities) => {
                let status = loaded_status(entities.len(), "entities", path);
                proof {
                    reveal_strlit(" ");
                    reveal_strlit("entities");
                    reveal_strlit(" ← ");
                    reveal_strlit(" entities ← ");
                    assert(status@ =~= "Loaded "@ + decimal(entities@.len()) + " entities ← "@ + path@);
                }
                let names = names_of_entities(&entities);
                self.entity_counter = counter_after_load(self.entity_counter, &names);
                self.list = SelectList::new(entities);
                self.status = status;
            },
            Err(e) => {
                self.status = load_error_status(&e, path);
            },
        }
    }
}

/// The entity list shows the entity named `name` under the search text
/// `filter_lower` (already in lowercase).
pub open spec fn entity_shown(name: Seq<char>, filter_lower: Seq<char>) -> bool {
    filter_lower.len() == 0 || occurs_in(filter_lower, lowercase(name))
}

/// The indices `0..n` of the entities the list shows, in order.
pub open spec fn shown_upto(names: Seq<Seq<char>>, filter_lower: Seq<char>, n: nat) -> Seq<int>
    decreases n,
{
    if n == 0 {
        seq![]
    } else if entity_shown(names[n - 1], filter_lower) {
        shown_upto(names, filter_lower, (n - 1) as nat).push(n - 1)
    } else {
        shown_upto(names, filter_lower, (n - 1) as nat)
    }
}

/// The indices of the entities whose name contains the search text,
/// ignoring case (all of them when the search box is empty).
pub fn visible_entities(names: &Vec<String>, filter: &str) -> (shown: Vec<usize>)
    ensures
        crate::ordering::as_ints(shown@) == shown_upto(views(names@), lowercase(filter@), names@.len()),
{
    let filter_lower = to_lowercase(filter);
    let no_filter = filter_lower.as_str().unicode_len() == 0;
    let mut shown: Vec<usize> = Vec::new();
    for i in 0..names.len()
        invariant
            filter_lower@ == lowercase(filter@),
            no_filter == (filter_lower@.len() == 0),
            crate::ordering::as_ints(shown@) == shown_upto(views(names@), filter_lower@, i as nat),
    {
        let ok = no_filter || {
            let name_lower = to_lowercase(names[i].as_str());
            contains(name_lower.as_str(), filter_lower.as_str())
        };
        assert(views(names@)[i as int] == names@[i as int]@);
        if ok {
            shown.push(i);
        }
        assert(crate::ordering::as_ints(shown@) =~= shown_upto(views(names@), filter_lower@, (i + 1) as nat));
    }
    shown
}

/// What the entity list says when it shows no entity: that there are none,
/// or that none matches the search; nothing when some are shown.
pub fn empty_list_note(total: usize, shown: usize) -> (note: Option<&'static str>)
    ensures
        total == 0 ==> (note matches Some(s) && s@ == "No entities.\nPress ＋ to add one."@),
        total > 0 && shown == 0 ==> (note matches Some(s) && s@ == "No matches."@),
        total > 0 && shown > 0 ==> note is None,
{
    if total == 0 {
        Some("No entities.\nPress ＋ to add one.")
    } else if shown == 0 {
        Some("No matches.")
    } else {
        None
    }
}

} // verus!
