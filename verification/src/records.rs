//! Weapon records: which of them are projectiles, and which mesh each
//! distinct mesh path stands for.
use vstd::prelude::*;
use vstd::string::StrSliceExecFns;
use crate::policy::Category;

verus! {

/// The kind of a weapon record, as far as the engine tells kinds apart.
#[derive(Clone, Copy, Debug, PartialEq, Eq, Hash)]
pub enum WeaponKind {
    Arrow,
    Bolt,
    Thrown,
    /// Any weapon that is no projectile.
    Other,
}

/// A weapon record of a content file.
#[derive(Clone, Debug, PartialEq, Eq)]
pub struct WeaponRecord {
    pub id: String,
    pub kind: WeaponKind,
    pub mesh: String,
}

/// A mesh to process: its path in lower case, and the category to process
/// it as.
#[derive(Clone, Debug, PartialEq, Eq)]
pub struct Projectile {
    pub mesh_path: String,
    pub category: Category,
}

/// A weapon record as a value.
pub struct WeaponView {
    pub id: Seq<char>,
    pub kind: WeaponKind,
    pub mesh: Seq<char>,
}

/// A projectile entry as a value.
pub struct ProjectileView {
    pub mesh_path: Seq<char>,
    pub category: Category,
}

impl View for WeaponRecord {
    type V = WeaponView;

    open spec fn view(&self) -> WeaponView {
        WeaponView { id: self.id@, kind: self.kind, mesh: self.mesh@ }
    }
}

impl View for Projectile {
    type V = ProjectileView;

    open spec fn view(&self) -> ProjectileView {
        ProjectileView { mesh_path: self.mesh_path@, category: self.category }
    }
}

/// The views of a sequence of weapon records, one by one.
pub open spec fn weapons_of(records: Seq<WeaponRecord>) -> Seq<WeaponView> {
    Seq::new(records.len(), |i: int| records[i]@)
}

/// The views of a sequence of projectiles, one by one.
pub open spec fn projectiles_of(entries: Seq<Projectile>) -> Seq<ProjectileView> {
    Seq::new(entries.len(), |i: int| entries[i]@)
}

/// The prefix that marks the identifier of an effect-only record.
pub open spec fn vfx_prefix() -> Seq<char> {
    seq!['V', 'F', 'X', '_']
}

/// Whether an identifier starts with the effect-only prefix. The match is
/// exact: case counts.
pub open spec fn is_vfx_id(id: Seq<char>) -> bool {
    id.len() >= 4 && id.subrange(0, 4) == vfx_prefix()
}

/// The category of a kind of weapon; none for a weapon that is no
/// projectile.
pub open spec fn category_of(kind: WeaponKind) -> Option<Category> {
    match kind {
        WeaponKind::Arrow => Some(Category::Arrow),
        WeaponKind::Bolt => Some(Category::Bolt),
        WeaponKind::Thrown => Some(Category::Thrown),
        WeaponKind::Other => None,
    }
}

/// Whether a record describes a projectile with a mesh of its own.
pub open spec fn is_projectile(record: WeaponView) -> bool {
    !is_vfx_id(record.id) && category_of(record.kind) is Some
}

/// The lower-case form of a text, as the standard library computes it.
pub uninterp spec fn lowercase_of(text: Seq<char>) -> Seq<char>;

/// Calls `str::to_lowercase` of the standard library. The result is the
/// lower-case form of the text, which depends on the text alone; the
/// library gives that form a name and claims nothing else of it.
#[verifier::external_body]
fn to_lowercase(text: &str) -> (lower: String)
    ensures
        lower@ == lowercase_of(text@),
{
    text.to_lowercase()
}

/// The entries after `mesh_path` was recorded with `category`: the first
/// entry with that path now has that category, and where there was none, a
/// new entry stands at the end.
pub open spec fn recorded(entries: Seq<ProjectileView>, mesh_path: Seq<char>, category: Category) -> Seq<
    ProjectileView,
>
    decreases entries.len(),
{
    if entries.len() == 0 {
        seq![ProjectileView { mesh_path, category }]
    } else if entries.first().mesh_path == mesh_path {
        seq![ProjectileView { mesh_path, category }] + entries.drop_first()
    } else {
        seq![entries.first()] + recorded(entries.drop_first(), mesh_path, category)
    }
}

/// The projectiles among `weapons`, one entry for each distinct lower-case
/// mesh path, in the order in which the paths first occur. Where several
/// records share a path, the last of them decides the category.
pub open spec fn selected(weapons: Seq<WeaponView>) -> Seq<ProjectileView>
    decreases weapons.len(),
{
    if weapons.len() == 0 {
        Seq::empty()
    } else {
        let earlier = selected(weapons.drop_last());
        let last = weapons.last();
        if is_projectile(last) {
            recorded(earlier, lowercase_of(last.mesh), category_of(last.kind).unwrap())
        } else {
            earlier
        }
    }
}

/// Whether no two entries have the same mesh path.
pub open spec fn distinct_paths(entries: Seq<ProjectileView>) -> bool {
    forall|i: int, j: int|
        0 <= i < j < entries.len() ==> (#[trigger] entries[i]).mesh_path != (
        #[trigger] entries[j]).mesh_path
}

/// The category that `entries` hold for `mesh_path`: that of the first
/// entry with that path.
pub open spec fn lookup(entries: Seq<ProjectileView>, mesh_path: Seq<char>) -> Option<Category>
    decreases entries.len(),
{
    if entries.len() == 0 {
        None
    } else if entries.first().mesh_path == mesh_path {
        Some(entries.first().category)
    } else {
        lookup(entries.drop_first(), mesh_path)
    }
}

/// The category of the last projectile among `weapons` whose mesh path, in
/// lower case, is `mesh_path`.
pub open spec fn last_category(weapons: Seq<WeaponView>, mesh_path: Seq<char>) -> Option<Category>
    decreases weapons.len(),
{
    if weapons.len() == 0 {
        None
    } else {
        let last = weapons.last();
        if is_projectile(last) && lowercase_of(last.mesh) == mesh_path {
            category_of(last.kind)
        } else {
            last_category(weapons.drop_last(), mesh_path)
        }
    }
}

/// Whether `id` names an effect-only record.
pub fn has_vfx_prefix(id: &str) -> (vfx: bool)
    ensures
        vfx == is_vfx_id(id@),
{
    if id.unicode_len() < 4 {
        return false;
    }
    let vfx = id.get_char(0) == 'V' && id.get_char(1) == 'F' && id.get_char(2) == 'X'
        && id.get_char(3) == '_';
    proof {
        if vfx {
            assert(id@.subrange(0, 4) =~= vfx_prefix());
        }
    }
    vfx
}

/// The category to process a weapon of `kind` as, if it is a projectile.
pub fn projectile_category(kind: WeaponKind) -> (category: Option<Category>)
    ensures
        category == category_of(kind),
{
    match kind {
        WeaponKind::Arrow => Some(Category::Arrow),
        WeaponKind::Bolt => Some(Category::Bolt),
        WeaponKind::Thrown => Some(Category::Thrown),
        WeaponKind::Other => None,
    }
}

/// Record that the mesh at `mesh_path` is to be processed as `category`.
/// An entry with that path takes the new category; without one, a new entry
/// is put at the end.
pub fn record_projectile(entries: &mut Vec<Projectile>, mesh_path: String, category: Category)
    ensures
        projectiles_of(final(entries)@) == recorded(
            projectiles_of(old(entries)@),
            mesh_path@,
            category,
        ),
{
    let ghost before = projectiles_of(entries@);
    let mut k: usize = 0;
    while k < entries.len()
        invariant
            k <= entries@.len(),
            before == projectiles_of(old(entries)@),
            projectiles_of(entries@) == before,
            forall|i: int| 0 <= i < k ==> (#[trigger] before[i]).mesh_path != mesh_path@,
        decreases entries@.len() - k,
    {
        if entries[k].mesh_path == mesh_path {
            entries[k].category = category;
            proof {
                lemma_recorded_replaces(before, mesh_path@, category, k as int);
                assert(projectiles_of(entries@) =~= before.update(
                    k as int,
                    ProjectileView { mesh_path: mesh_path@, category },
                ));
            }
            return ;
        }
        k += 1;
    }
    entries.push(Projectile { mesh_path, category });
    proof {
        lemma_recorded_appends(before, mesh_path@, category);
        assert(projectiles_of(entries@) =~= before.push(
            ProjectileView { mesh_path: mesh_path@, category },
        ));
    }
}

/// Where the first entry with the path is at `at`, recording changes that
/// entry and no other.
proof fn lemma_recorded_replaces(
    entries: Seq<ProjectileView>,
    mesh_path: Seq<char>,
    category: Category,
    at: int,
)
    requires
        0 <= at < entries.len(),
        entries[at].mesh_path == mesh_path,
        forall|i: int| 0 <= i < at ==> (#[trigger] entries[i]).mesh_path != mesh_path,
    ensures
        recorded(entries, mesh_path, category) == entries.update(
            at,
            ProjectileView { mesh_path, category },
        ),
    decreases entries.len(),
{
    let entry = ProjectileView { mesh_path, category };
    if at == 0 {
        assert(seq![entry] + entries.drop_first() =~= entries.update(0, entry));
    } else {
        assert(entries.first() == entries[0]);
        assert forall|i: int| 0 <= i < at - 1 implies (#[trigger] entries.drop_first()[i]).mesh_path
            != mesh_path by {
            assert(entries.drop_first()[i] == entries[i + 1]);
        }
        lemma_recorded_replaces(entries.drop_first(), mesh_path, category, at - 1);
        assert(seq![entries.first()] + entries.drop_first().update(at - 1, entry) =~= entries.update(
            at,
            entry,
        ));
    }
}

/// Where no entry has the path, recording puts a new entry at the end.
proof fn lemma_recorded_appends(entries: Seq<ProjectileView>, mesh_path: Seq<char>, category: Category)
    requires
        forall|i: int| 0 <= i < entries.len() ==> (#[trigger] entries[i]).mesh_path != mesh_path,
    ensures
        recorded(entries, mesh_path, category) == entries.push(
            ProjectileView { mesh_path, category },
        ),
    decreases entries.len(),
{
    let entry = ProjectileView { mesh_path, category };
    if entries.len() == 0 {
        assert(seq![entry] =~= entries.push(entry));
    } else {
        assert(entries.first() == entries[0]);
        assert forall|i: int| 0 <= i < entries.drop_first().len() implies (
        #[trigger] entries.drop_first()[i]).mesh_path != mesh_path by {
            assert(entries.drop_first()[i] == entries[i + 1]);
        }
        lemma_recorded_appends(entries.drop_first(), mesh_path, category);
        assert(seq![entries.first()] + entries.drop_first().push(entry) =~= entries.push(entry));
    }
}

/// Gather the projectile meshes of a content file: one entry for each
/// distinct lower-case mesh path among the records that are projectiles and
/// no effect-only variants.
pub fn collect_projectiles(weapons: &Vec<WeaponRecord>) -> (projectiles: Vec<Projectile>)
    ensures
        projectiles_of(projectiles@) == selected(weapons_of(weapons@)),
{
    let mut projectiles: Vec<Projectile> = Vec::new();
    let mut k: usize = 0;
    while k < weapons.len()
        invariant
            k <= weapons@.len(),
            projectiles_of(projectiles@) == selected(weapons_of(weapons@).take(k as int)),
        decreases weapons@.len() - k,
    {
        let weapon = &weapons[k];
        assert(weapons_of(weapons@).take(k + 1).drop_last() =~= weapons_of(weapons@).take(k as int));
        if !has_vfx_prefix(weapon.id.as_str()) {
            if let Some(category) = projectile_category(weapon.kind) {
                let mesh_path = to_lowercase(weapon.mesh.as_str());
                record_projectile(&mut projectiles, mesh_path, category);
            }
        }
        k += 1;
    }
    assert(weapons_of(weapons@).take(k as int) =~= weapons_of(weapons@));
    projectiles
}

/// A path has a category in `entries` exactly when one of the entries has
/// that path.
proof fn lemma_lookup_finds(entries: Seq<ProjectileView>, mesh_path: Seq<char>)
    ensures
        lookup(entries, mesh_path) is Some <==> exists|i: int|
            0 <= i < entries.len() && (#[trigger] entries[i]).mesh_path == mesh_path,
    decreases entries.len(),
{
    if entries.len() > 0 {
        let rest = entries.drop_first();
        lemma_lookup_finds(rest, mesh_path);
        if entries.first().mesh_path == mesh_path {
            assert(entries[0].mesh_path == mesh_path);
        } else if lookup(rest, mesh_path) is Some {
            let i = choose|i: int| 0 <= i < rest.len() && (#[trigger] rest[i]).mesh_path == mesh_path;
            assert(entries[i + 1] == rest[i]);
        } else {
            assert forall|i: int| 0 <= i < entries.len() implies (#[trigger] entries[i]).mesh_path
                != mesh_path by {
                if i > 0 {
                    assert(rest[i - 1] == entries[i]);
                }
            }
        }
    }
}

/// After recording, the recorded path has the recorded category, and every
/// other path the category that it had.
proof fn lemma_recorded_lookup(
    entries: Seq<ProjectileView>,
    mesh_path: Seq<char>,
    category: Category,
    other: Seq<char>,
)
    ensures
        lookup(recorded(entries, mesh_path, category), other) == if other == mesh_path {
            Some(category)
        } else {
            lookup(entries, other)
        },
    decreases entries.len(),
{
    let entry = ProjectileView { mesh_path, category };
    let after = recorded(entries, mesh_path, category);
    if entries.len() == 0 {
        assert(after.first() == entry);
        assert(after.drop_first() =~= Seq::<ProjectileView>::empty());
        assert(lookup(after.drop_first(), other) is None);
    } else if entries.first().mesh_path == mesh_path {
        assert(after.first() == entry);
        assert(after.drop_first() =~= entries.drop_first());
    } else {
        lemma_recorded_lookup(entries.drop_first(), mesh_path, category, other);
        assert(after.first() == entries.first());
        assert(after.drop_first() =~= recorded(entries.drop_first(), mesh_path, category));
    }
}

/// Recording keeps the paths distinct.
proof fn lemma_recorded_distinct(entries: Seq<ProjectileView>, mesh_path: Seq<char>, category: Category)
    requires
        distinct_paths(entries),
    ensures
        distinct_paths(recorded(entries, mesh_path, category)),
    decreases entries.len(),
{
    let entry = ProjectileView { mesh_path, category };
    let after = recorded(entries, mesh_path, category);
    if entries.len() == 0 {
    } else if entries.first().mesh_path == mesh_path {
        assert(after =~= entries.update(0, entry));
    } else {
        let rest = entries.drop_first();
        let tail = recorded(rest, mesh_path, category);
        assert forall|i: int, j: int| 0 <= i < j < rest.len() implies (#[trigger] rest[i]).mesh_path != (
        #[trigger] rest[j]).mesh_path by {
            assert(rest[i] == entries[i + 1] && rest[j] == entries[j + 1]);
        }
        lemma_recorded_distinct(rest, mesh_path, category);
        let first = entries.first();
        assert(lookup(tail, first.mesh_path) is None) by {
            lemma_recorded_lookup(rest, mesh_path, category, first.mesh_path);
            lemma_lookup_finds(rest, first.mesh_path);
            if lookup(rest, first.mesh_path) is Some {
                let i = choose|i: int|
                    0 <= i < rest.len() && (#[trigger] rest[i]).mesh_path == first.mesh_path;
                assert(rest[i] == entries[i + 1]);
                assert(entries[0].mesh_path != entries[i + 1].mesh_path);
            }
        }
        lemma_lookup_finds(tail, first.mesh_path);
        assert forall|i: int, j: int| 0 <= i < j < after.len() implies (#[trigger] after[i]).mesh_path != (
        #[trigger] after[j]).mesh_path by {
            assert(after[j] == tail[j - 1]);
            if i > 0 {
                assert(after[i] == tail[i - 1]);
            }
        }
    }
}

/// No mesh path is selected twice.
pub proof fn selected_paths_are_distinct(weapons: Seq<WeaponView>)
    ensures
        distinct_paths(selected(weapons)),
    decreases weapons.len(),
{
    if weapons.len() > 0 {
        selected_paths_are_distinct(weapons.drop_last());
        let last = weapons.last();
        if is_projectile(last) {
            lemma_recorded_distinct(
                selected(weapons.drop_last()),
                lowercase_of(last.mesh),
                category_of(last.kind).unwrap(),
            );
        }
    }
}

/// A path has a last category exactly when a projectile among the records
/// has that path, in lower case.
proof fn lemma_last_category_finds(weapons: Seq<WeaponView>, mesh_path: Seq<char>)
    ensures
        last_category(weapons, mesh_path) is Some <==> exists|i: int|
            0 <= i < weapons.len() && is_projectile(#[trigger] weapons[i]) && lowercase_of(
                weapons[i].mesh,
            ) == mesh_path,
    decreases weapons.len(),
{
    if weapons.len() > 0 {
        let earlier = weapons.drop_last();
        let last = weapons.last();
        lemma_last_category_finds(earlier, mesh_path);
        if is_projectile(last) && lowercase_of(last.mesh) == mesh_path {
            assert(weapons[weapons.len() - 1] == last);
        } else if last_category(earlier, mesh_path) is Some {
            let i = choose|i: int|
                0 <= i < earlier.len() && is_projectile(#[trigger] earlier[i]) && lowercase_of(
                    earlier[i].mesh,
                ) == mesh_path;
            assert(weapons[i] == earlier[i]);
        } else {
            assert forall|i: int| 0 <= i < weapons.len() implies !(is_projectile(
                #[trigger] weapons[i],
            ) && lowercase_of(weapons[i].mesh) == mesh_path) by {
                if i < earlier.len() {
                    assert(earlier[i] == weapons[i]);
                }
            }
        }
    }
}

/// A mesh path is selected exactly when a projectile among the records has
/// it, in lower case.
pub proof fn selected_paths_come_from_projectiles(weapons: Seq<WeaponView>, mesh_path: Seq<char>)
    ensures
        (exists|k: int|
            0 <= k < selected(weapons).len() && (#[trigger] selected(weapons)[k]).mesh_path
                == mesh_path) <==> (exists|i: int|
            0 <= i < weapons.len() && is_projectile(#[trigger] weapons[i]) && lowercase_of(
                weapons[i].mesh,
            ) == mesh_path),
{
    selected_takes_last_category(weapons, mesh_path);
    lemma_lookup_finds(selected(weapons), mesh_path);
    lemma_last_category_finds(weapons, mesh_path);
}

/// Each selected mesh path has the category of the last projectile among
/// the records that has that path, in lower case.
pub proof fn selected_takes_last_category(weapons: Seq<WeaponView>, mesh_path: Seq<char>)
    ensures
        lookup(selected(weapons), mesh_path) == last_category(weapons, mesh_path),
    decreases weapons.len(),
{
    if weapons.len() > 0 {
        selected_takes_last_category(weapons.drop_last(), mesh_path);
        let last = weapons.last();
        if is_projectile(last) {
            lemma_recorded_lookup(
                selected(weapons.drop_last()),
                lowercase_of(last.mesh),
                category_of(last.kind).unwrap(),
                mesh_path,
            );
        }
    }
}

} // verus!
