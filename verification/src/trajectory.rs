//! The trajectory document: sections of items and the mission history.
use crate::text::{clone_opt, opt_view};
use vstd::prelude::*;

verus! {

/// The section of active missions.
pub const SECTION_MISSION: &'static str = "Mission";

/// The section that mirrors the open terminal surfaces.
pub const SECTION_CURRENT_SURFACES: &'static str = "Current surfaces";

/// The section of tasks and goals.
pub const SECTION_GOALS: &'static str = "Beads";

/// One row of a section.
#[derive(Debug, PartialEq, Eq)]
pub struct Item {
    pub text: String,
    pub is_checkbox: bool,
    pub checked: Option<bool>,
    pub surface_id: Option<String>,
}

/// A named list of rows.
#[derive(Debug, PartialEq, Eq)]
pub struct Section {
    pub name: String,
    pub items: Vec<Item>,
}

/// What stands before the first section.
#[derive(Debug, PartialEq, Eq)]
pub struct Frontmatter {
    pub workspace: Option<String>,
    pub snapshot: Option<u32>,
}

/// A workspace's trajectory.
#[derive(Debug, PartialEq, Eq)]
pub struct TrajectoryDoc {
    pub frontmatter: Frontmatter,
    pub sections: Vec<Section>,
    pub mission_history: Vec<Item>,
}

/// What a row says.
#[verifier::ext_equal]
pub struct ItemView {
    pub text: Seq<char>,
    pub is_checkbox: bool,
    pub checked: Option<bool>,
    pub surface_id: Option<Seq<char>>,
}

/// What a section says.
#[verifier::ext_equal]
pub struct SectionView {
    pub name: Seq<char>,
    pub items: Seq<ItemView>,
}

/// What a document says.
#[verifier::ext_equal]
pub struct DocView {
    pub workspace: Option<Seq<char>>,
    pub snapshot: Option<u32>,
    pub sections: Seq<SectionView>,
    pub mission_history: Seq<ItemView>,
}

impl View for Item {
    type V = ItemView;

    open spec fn view(&self) -> ItemView {
        ItemView {
            text: self.text@,
            is_checkbox: self.is_checkbox,
            checked: self.checked,
            surface_id: opt_view(self.surface_id),
        }
    }
}

/// What each of the rows says.
pub open spec fn item_views(s: Seq<Item>) -> Seq<ItemView> {
    s.map_values(|i: Item| i@)
}

impl View for Section {
    type V = SectionView;

    open spec fn view(&self) -> SectionView {
        SectionView { name: self.name@, items: item_views(self.items@) }
    }
}

/// What each of the sections says.
pub open spec fn section_views(s: Seq<Section>) -> Seq<SectionView> {
    s.map_values(|i: Section| i@)
}

impl View for TrajectoryDoc {
    type V = DocView;

    open spec fn view(&self) -> DocView {
        DocView {
            workspace: opt_view(self.frontmatter.workspace),
            snapshot: self.frontmatter.snapshot,
            sections: section_views(self.sections@),
            mission_history: item_views(self.mission_history@),
        }
    }
}

impl Clone for Item {
    fn clone(&self) -> (r: Self)
        ensures
            r == *self,
    {
        Item {
            text: self.text.clone(),
            is_checkbox: self.is_checkbox,
            checked: self.checked,
            surface_id: clone_opt(&self.surface_id),
        }
    }
}

/// A copy of a list of rows.
pub fn clone_items(v: &Vec<Item>) -> (r: Vec<Item>)
    ensures
        r@ == v@,
{
    let mut r: Vec<Item> = Vec::new();
    let mut i: usize = 0;
    while i < v.len()
        invariant
            i <= v@.len(),
            r@ == v@.take(i as int),
        decreases v@.len() - i,
    {
        r.push(v[i].clone());
        i += 1;
    }
    assert(r@ =~= v@);
    r
}

impl Clone for Section {
    fn clone(&self) -> (r: Self)
        ensures
            r@ == self@,
    {
        Section { name: self.name.clone(), items: clone_items(&self.items) }
    }
}

impl Clone for Frontmatter {
    fn clone(&self) -> (r: Self)
        ensures
            r == *self,
    {
        Frontmatter { workspace: clone_opt(&self.workspace), snapshot: self.snapshot }
    }
}

impl Clone for TrajectoryDoc {
    fn clone(&self) -> (r: Self)
        ensures
            r@ == self@,
    {
        let mut sections: Vec<Section> = Vec::new();
        let mut i: usize = 0;
        while i < self.sections.len()
            invariant
                i <= self.sections@.len(),
                section_views(sections@) == section_views(self.sections@).take(i as int),
            decreases self.sections@.len() - i,
        {
            let s = self.sections[i].clone();
            let ghost before = sections@;
            sections.push(s);
            assert(section_views(sections@) =~= section_views(before).push(s@));
            i += 1;
        }
        assert(section_views(sections@) =~= section_views(self.sections@));
        TrajectoryDoc {
            frontmatter: self.frontmatter.clone(),
            sections,
            mission_history: clone_items(&self.mission_history),
        }
    }
}

impl Default for TrajectoryDoc {
    fn default() -> (r: Self)
        ensures
            r@ == (DocView {
                workspace: None,
                snapshot: None,
                sections: Seq::empty(),
                mission_history: Seq::empty(),
            }),
    {
        let r = TrajectoryDoc {
            frontmatter: Frontmatter { workspace: None, snapshot: None },
            sections: Vec::new(),
            mission_history: Vec::new(),
        };
        assert(r@.sections =~= Seq::empty());
        assert(r@.mission_history =~= Seq::empty());
        r
    }
}

// ---------------------------------------------------------------------------
// Sections by name
// ---------------------------------------------------------------------------

/// The three canonical sections have different names.
pub proof fn lemma_section_names_differ()
    ensures
        SECTION_MISSION@ != SECTION_CURRENT_SURFACES@,
        SECTION_MISSION@ != SECTION_GOALS@,
        SECTION_CURRENT_SURFACES@ != SECTION_GOALS@,
{
    reveal_strlit("Mission");
    reveal_strlit("Current surfaces");
    reveal_strlit("Beads");
    assert(SECTION_MISSION@.len() == 7);
    assert(SECTION_CURRENT_SURFACES@.len() == 16);
    assert(SECTION_GOALS@.len() == 5);
}

/// Section `i` exists and has the given name.
pub open spec fn section_is(d: DocView, i: int, name: Seq<char>) -> bool {
    0 <= i < d.sections.len() && d.sections[i].name == name
}

/// The first section at or after `i` with the given name.
pub open spec fn section_from(d: DocView, name: Seq<char>, i: int) -> Option<int>
    decreases d.sections.len() - i,
{
    if i < 0 || i >= d.sections.len() {
        None
    } else if d.sections[i].name == name {
        Some(i)
    } else {
        section_from(d, name, i + 1)
    }
}

/// The first section with the given name.
pub open spec fn section_named(d: DocView, name: Seq<char>) -> Option<int> {
    section_from(d, name, 0)
}

/// The section found by name exists, bears the name and is the first to.
pub proof fn lemma_section_from(d: DocView, name: Seq<char>, i: int)
    requires
        0 <= i,
    ensures
        match section_from(d, name, i) {
            Some(k) => i <= k && section_is(d, k, name) && (forall|j: int|
                i <= j < k ==> !#[trigger] section_is(d, j, name)),
            None => forall|j: int| i <= j ==> !#[trigger] section_is(d, j, name),
        },
    decreases d.sections.len() - i,
{
    if i < d.sections.len() && d.sections[i].name != name {
        lemma_section_from(d, name, i + 1);
    }
}

/// Two documents with the same sections find the same one by name.
pub proof fn lemma_same_sections(a: DocView, b: DocView, name: Seq<char>, i: int)
    requires
        a.sections == b.sections,
    ensures
        section_from(a, name, i) == section_from(b, name, i),
    decreases a.sections.len() - i,
{
    if 0 <= i < a.sections.len() && a.sections[i].name != name {
        lemma_same_sections(a, b, name, i + 1);
    }
}

/// The document with the rows of section `s` replaced.
pub open spec fn with_items(d: DocView, s: int, items: Seq<ItemView>) -> DocView {
    DocView {
        sections: d.sections.update(s, SectionView { name: d.sections[s].name, items }),
        ..d
    }
}

/// The rows of the first section with the given name; none without one.
pub open spec fn rows_named(d: DocView, name: Seq<char>) -> Seq<ItemView> {
    match section_named(d, name) {
        Some(k) => d.sections[k].items,
        None => Seq::empty(),
    }
}

/// The document with the rows of the first section of that name replaced, or with
/// such a section added at the end.
pub open spec fn with_section(d: DocView, name: Seq<char>, items: Seq<ItemView>) -> DocView {
    match section_named(d, name) {
        Some(k) => with_items(d, k, items),
        None => DocView { sections: d.sections.push(SectionView { name, items }), ..d },
    }
}

proof fn lemma_section_found_again(
    a: DocView,
    b: DocView,
    name: Seq<char>,
    other: Seq<char>,
    i: int,
)
    requires
        0 <= i <= a.sections.len(),
        a.sections.len() <= b.sections.len(),
        b.sections.len() <= a.sections.len() + 1,
        forall|j: int|
            0 <= j < a.sections.len() ==> (#[trigger] b.sections[j]).name == a.sections[j].name,
        b.sections.len() > a.sections.len() ==> b.sections[a.sections.len() as int].name == name,
    ensures
        section_from(a, name, i) is Some ==> section_from(b, name, i) == section_from(a, name, i),
        section_from(a, name, i) is None && b.sections.len() > a.sections.len() ==> section_from(
            b,
            name,
            i,
        ) == Some(a.sections.len() as int),
        other != name ==> section_from(b, other, i) == section_from(a, other, i),
    decreases a.sections.len() - i,
{
    if i < a.sections.len() {
        assert(b.sections[i].name == a.sections[i].name);
        lemma_section_found_again(a, b, name, other, i + 1);
    } else if b.sections.len() > a.sections.len() {
        assert(section_from(b, other, i + 1) is None);
    }
}

/// Replacing the rows of a section: the section then holds exactly those rows, and
/// every other section, and the mission history, is as before.
pub proof fn replaced_rows_are_found(
    d: DocView,
    name: Seq<char>,
    items: Seq<ItemView>,
    other: Seq<char>,
)
    ensures
        rows_named(with_section(d, name, items), name) == items,
        other != name ==> rows_named(with_section(d, name, items), other) == rows_named(d, other),
        with_section(d, name, items).mission_history == d.mission_history,
{
    let b = with_section(d, name, items);
    lemma_section_from(d, name, 0);
    lemma_section_from(d, other, 0);
    assert forall|j: int| 0 <= j < d.sections.len() implies (#[trigger] b.sections[j]).name
        == d.sections[j].name by {}
    lemma_section_found_again(d, b, name, other, 0);
}

/// The document with a section of the given name, an empty one at the end where
/// there was none.
pub open spec fn with_present(d: DocView, name: Seq<char>) -> DocView {
    if section_named(d, name) is Some {
        d
    } else {
        DocView { sections: d.sections.push(SectionView { name, items: Seq::empty() }), ..d }
    }
}

/// The document with all canonical sections.
pub open spec fn with_canonical(d: DocView) -> DocView {
    with_present(
        with_present(with_present(d, SECTION_MISSION@), SECTION_CURRENT_SURFACES@),
        SECTION_GOALS@,
    )
}

impl TrajectoryDoc {
    fn ensure_section(&mut self, name: &str)
        ensures
            final(self)@ == with_present(old(self)@, name@),
    {
        if self.find_section(name).is_none() {
            let ghost before = self@;
            let items: Vec<Item> = Vec::new();
            assert(item_views(items@) =~= Seq::empty());
            self.sections.push(Section { name: String::from_str(name), items });
            assert(self@.sections =~= before.sections.push(
                SectionView { name: name@, items: Seq::empty() },
            ));
        }
    }

    /// Adds the canonical sections that are missing.
    pub fn ensure_sections(&mut self)
        ensures
            final(self)@ == with_canonical(old(self)@),
    {
        self.ensure_section(SECTION_MISSION);
        self.ensure_section(SECTION_CURRENT_SURFACES);
        self.ensure_section(SECTION_GOALS);
    }

    /// The first section with the given name.
    pub fn section(&self, name: &str) -> (r: Option<&Section>)
        ensures
            match r {
                Some(s) => section_named(self@, name@) is Some && s@
                    == self@.sections[section_named(self@, name@).unwrap()],
                None => section_named(self@, name@) is None,
            },
    {
        match self.find_section(name) {
            Some(k) => Some(&self.sections[k]),
            None => None,
        }
    }

    /// The rows of the first section with the given name.
    pub fn rows(&self, name: &str) -> (r: Vec<Item>)
        ensures
            item_views(r@) == rows_named(self@, name@),
    {
        match self.find_section(name) {
            Some(k) => clone_items(&self.sections[k].items),
            None => {
                let r: Vec<Item> = Vec::new();
                assert(item_views(r@) =~= Seq::empty());
                r
            },
        }
    }

    /// Replaces the rows of the first section with the given name, or adds such a
    /// section at the end.
    pub fn replace_section_items(&mut self, name: &str, items: Vec<Item>)
        ensures
            final(self)@ == with_section(old(self)@, name@, item_views(items@)),
    {
        match self.find_section(name) {
            Some(k) => self.set_items(k, items),
            None => {
                let ghost before = self@;
                self.sections.push(Section { name: String::from_str(name), items });
                assert(self@.sections =~= before.sections.push(
                    SectionView { name: name@, items: item_views(items@) },
                ));
            },
        }
    }

    /// Whether section `i` exists and has the given name.
    pub fn is_section(&self, i: usize, name: &str) -> (r: bool)
        ensures
            r == section_is(self@, i as int, name@),
    {
        i < self.sections.len() && crate::text::same(self.sections[i].name.as_str(), name)
    }

    /// The first section with the given name.
    pub fn find_section(&self, name: &str) -> (r: Option<usize>)
        ensures
            match r {
                Some(k) => section_named(self@, name@) == Some(k as int) && k < self.sections@.len()
                    && self@.sections[k as int].name == name@,
                None => section_named(self@, name@) is None,
            },
    {
        let mut i: usize = 0;
        while i < self.sections.len()
            invariant
                i <= self.sections@.len(),
                section_named(self@, name@) == section_from(self@, name@, i as int),
            decreases self.sections@.len() - i,
        {
            assert(self@.sections[i as int].name == self.sections@[i as int].name@);
            if crate::text::same(self.sections[i].name.as_str(), name) {
                return Some(i);
            }
            i += 1;
        }
        None
    }

    /// Takes row `i` out of section `s`.
    pub fn remove_item(&mut self, s: usize, i: usize) -> (r: Item)
        requires
            s < old(self).sections@.len(),
            i < old(self).sections@[s as int].items@.len(),
        ensures
            r@ == old(self)@.sections[s as int].items[i as int],
            final(self)@ == with_items(
                old(self)@,
                s as int,
                old(self)@.sections[s as int].items.remove(i as int),
            ),
            final(self).sections@.len() == old(self).sections@.len(),
            final(self).sections@[s as int].items@.len() == old(
                self,
            ).sections@[s as int].items@.len() - 1,
    {
        let ghost before = self@;
        let section = &mut self.sections[s];
        let r = section.items.remove(i);
        assert(self@.sections[s as int].items =~= before.sections[s as int].items.remove(i as int));
        assert(self@.sections =~= with_items(
            before,
            s as int,
            before.sections[s as int].items.remove(i as int),
        ).sections);
        r
    }

    /// Puts a row into section `s` at position `i`.
    pub fn insert_item(&mut self, s: usize, i: usize, item: Item)
        requires
            s < old(self).sections@.len(),
            i <= old(self).sections@[s as int].items@.len(),
        ensures
            final(self)@ == with_items(
                old(self)@,
                s as int,
                old(self)@.sections[s as int].items.insert(i as int, item@),
            ),
            final(self).sections@.len() == old(self).sections@.len(),
            final(self).sections@[s as int].items@.len() == old(
                self,
            ).sections@[s as int].items@.len() + 1,
    {
        let ghost before = self@;
        let section = &mut self.sections[s];
        section.items.insert(i, item);
        assert(self@.sections[s as int].items =~= before.sections[s as int].items.insert(
            i as int,
            item@,
        ));
        assert(self@.sections =~= with_items(
            before,
            s as int,
            before.sections[s as int].items.insert(i as int, item@),
        ).sections);
    }

    /// Replaces row `i` of section `s`.
    pub fn replace_item(&mut self, s: usize, i: usize, item: Item)
        requires
            s < old(self).sections@.len(),
            i < old(self).sections@[s as int].items@.len(),
        ensures
            final(self)@ == with_items(
                old(self)@,
                s as int,
                old(self)@.sections[s as int].items.update(i as int, item@),
            ),
            final(self).sections@.len() == old(self).sections@.len(),
            final(self).sections@[s as int].items@.len() == old(
                self,
            ).sections@[s as int].items@.len(),
    {
        let ghost before = self@;
        let section = &mut self.sections[s];
        section.items[i] = item;
        assert(self@.sections[s as int].items =~= before.sections[s as int].items.update(
            i as int,
            item@,
        ));
        assert(self@.sections =~= with_items(
            before,
            s as int,
            before.sections[s as int].items.update(i as int, item@),
        ).sections);
    }

    /// Replaces all rows of section `s`.
    pub fn set_items(&mut self, s: usize, items: Vec<Item>)
        requires
            s < old(self).sections@.len(),
        ensures
            final(self)@ == with_items(old(self)@, s as int, item_views(items@)),
            final(self).sections@.len() == old(self).sections@.len(),
    {
        let ghost before = self@;
        let section = &mut self.sections[s];
        section.items = items;
        assert(self@.sections =~= with_items(before, s as int, item_views(items@)).sections);
    }
}

} // verus!
