use vstd::prelude::*;

verus! {

/// A stored resource: its identifier, its name and whether it can fly.
#[derive(Debug, Clone)]
pub struct Hero {
    pub id: usize,
    pub name: String,
    pub can_fly: bool,
}

/// The fields of a resource that a creation request supplies.
#[derive(Debug, Clone)]
pub struct NewHero {
    pub name: String,
    pub can_fly: bool,
}

pub struct HeroView {
    pub id: usize,
    pub name: Seq<char>,
    pub can_fly: bool,
}

impl View for Hero {
    type V = HeroView;

    open spec fn view(&self) -> HeroView {
        HeroView { id: self.id, name: self.name@, can_fly: self.can_fly }
    }
}

impl Hero {
    /// A copy with the same fields.
    pub fn duplicate(&self) -> (r: Hero)
        ensures
            r@ == self@,
    {
        Hero { id: self.id, name: self.name.clone(), can_fly: self.can_fly }
    }
}

pub open spec fn hero_views(v: Seq<Hero>) -> Seq<HeroView> {
    v.map_values(|h: Hero| h@)
}

/// The resource with identifier `id` among `heroes`, whose identifiers are 1, 2, ... in order.
pub open spec fn hero_with_id(heroes: Seq<HeroView>, id: usize) -> Option<HeroView> {
    if 1 <= id <= heroes.len() {
        Some(heroes[id - 1])
    } else {
        None
    }
}

/// The store after a creation: the new resource has the next identifier and is the
/// last one; those before are kept.
pub open spec fn created(before: Seq<HeroView>, after: Seq<HeroView>, name: Seq<char>, can_fly: bool) -> bool {
    &&& before.len() + 1 <= usize::MAX
    &&& after.len() == before.len() + 1
    &&& after.drop_last() == before
    &&& after.last() == (HeroView { id: (before.len() + 1) as usize, name, can_fly })
}

/// An in-memory collection of resources. Identifiers are handed out from 1 upward,
/// one per creation, and never again; the resources are kept in the order of their
/// identifiers.
pub struct HeroStore {
    heroes: Vec<Hero>,
}

impl HeroStore {
    pub closed spec fn wf(&self) -> bool {
        forall|i: int| 0 <= i < self.heroes@.len() ==> #[trigger] self.heroes@[i].id == i + 1
    }

    /// The stored resources, in the order of their identifiers.
    pub closed spec fn contents(&self) -> Seq<HeroView> {
        hero_views(self.heroes@)
    }

    /// The identifier that the next creation hands out.
    pub open spec fn next_id(&self) -> int {
        self.contents().len() + 1 as int
    }

    /// An empty store.
    pub fn new() -> (r: HeroStore)
        ensures
            r.wf(),
            r.contents() == Seq::<HeroView>::empty(),
    {
        let r = HeroStore { heroes: Vec::new() };
        assert(r.contents() =~= Seq::<HeroView>::empty());
        r
    }

    /// Stores a new resource under the next identifier and returns a copy of it.
    /// `None`, with the store unchanged, once the identifiers are used up.
    pub fn create(&mut self, name: String, can_fly: bool) -> (r: Option<Hero>)
        requires
            old(self).wf(),
        ensures
            final(self).wf(),
            old(self).next_id() <= usize::MAX <==> r is Some,
            r is None ==> final(self).contents() == old(self).contents(),
            r matches Some(h) ==> {
                &&& created(old(self).contents(), final(self).contents(), name@, can_fly)
                &&& h@ == final(self).contents().last()
            },
    {
        let len = self.heroes.len();
        if len == usize::MAX {
            return None;
        }
        let hero = Hero { id: len + 1, name, can_fly };
        let copy = hero.duplicate();
        self.heroes.push(hero);
        assert(self.contents().drop_last() =~= old(self).contents());
        Some(copy)
    }

    /// A copy of the resource with identifier `id`, if there is one.
    pub fn get(&self, id: usize) -> (r: Option<Hero>)
        requires
            self.wf(),
        ensures
            r is Some <==> hero_with_id(self.contents(), id) is Some,
            r matches Some(h) ==> hero_with_id(self.contents(), id) == Some(h@),
    {
        if 1 <= id && id <= self.heroes.len() {
            Some(self.heroes[id - 1].duplicate())
        } else {
            None
        }
    }

    /// Copies of all resources, in the order of their identifiers.
    pub fn list(&self) -> (r: Vec<Hero>)
        requires
            self.wf(),
        ensures
            hero_views(r@) == self.contents(),
    {
        let mut out: Vec<Hero> = Vec::new();
        let mut i: usize = 0;
        while i < self.heroes.len()
            invariant
                i <= self.heroes@.len(),
                hero_views(out@) == self.contents().subrange(0, i as int),
            decreases self.heroes@.len() - i,
        {
            let h = self.heroes[i].duplicate();
            let ghost prev = out@;
            out.push(h);
            assert(hero_views(out@) =~= hero_views(prev).push(h@));
            assert(hero_views(out@) =~= self.contents().subrange(0, i + 1));
            i = i + 1;
        }
        assert(self.contents().subrange(0, i as int) =~= self.contents());
        out
    }

    /// The number of stored resources.
    pub fn len(&self) -> (r: usize)
        ensures
            r == self.contents().len(),
    {
        self.heroes.len()
    }
}

/// In a well-formed store the identifiers are exactly 1, 2, ..., n for n resources:
/// distinct, each in `[1, n + 1)`, and every one of them is found by its identifier.
pub proof fn lemma_store_ids(store: HeroStore)
    requires
        store.wf(),
    ensures
        forall|i: int, j: int|
            0 <= i < j < store.contents().len() ==> store.contents()[i].id
                != store.contents()[j].id,
        forall|i: int|
            0 <= i < store.contents().len() ==> 1 <= #[trigger] store.contents()[i].id < 1
                + store.contents().len(),
        forall|i: int|
            0 <= i < store.contents().len() ==> hero_with_id(
                store.contents(),
                #[trigger] store.contents()[i].id,
            ) == Some(store.contents()[i]),
{
    assert forall|i: int| 0 <= i < store.contents().len() implies #[trigger] store.contents()[i].id
        == i + 1 by {
        assert(store.heroes@[i].id == i + 1);
    }
}

/// Reading back a resource by the identifier that its creation returned gives the
/// created resource, with the fields it was created with.
pub proof fn lemma_get_after_create(
    before: Seq<HeroView>,
    after: Seq<HeroView>,
    name: Seq<char>,
    can_fly: bool,
)
    requires
        created(before, after, name, can_fly),
    ensures
        hero_with_id(after, after.last().id) == Some(HeroView { id: after.last().id, name, can_fly }),
{
}

/// A creation leaves every resource that was already stored where it was found:
/// reads after later creations still return the resource as it was created.
pub proof fn lemma_get_stable(
    before: Seq<HeroView>,
    after: Seq<HeroView>,
    name: Seq<char>,
    can_fly: bool,
    id: usize,
)
    requires
        created(before, after, name, can_fly),
        hero_with_id(before, id) is Some,
    ensures
        hero_with_id(after, id) == hero_with_id(before, id),
{
    assert(after[id - 1] == after.drop_last()[id - 1]);
}

/// An identifier that was never handed out finds nothing.
pub proof fn lemma_get_never_issued(store: HeroStore, id: usize)
    requires
        store.wf(),
        forall|i: int| 0 <= i < store.contents().len() ==> #[trigger] store.contents()[i].id != id,
    ensures
        hero_with_id(store.contents(), id) is None,
{
    if 1 <= id <= store.contents().len() {
        assert(store.heroes@[id - 1].id == id);
        assert(store.contents()[id - 1].id == id);
    }
}

/// The contents of a store, empty at first, after creations with the names and
/// flags `hs`, in order.
pub open spec fn creations(hs: Seq<(Seq<char>, bool)>) -> Seq<HeroView>
    decreases hs.len(),
{
    if hs.len() == 0 {
        Seq::empty()
    } else {
        let b = creations(hs.drop_last());
        b.push(HeroView { id: (b.len() + 1) as usize, name: hs.last().0, can_fly: hs.last().1 })
    }
}

/// One more creation on a store that `hs` filled is one more entry of `hs`.
pub proof fn lemma_created_extends(hs: Seq<(Seq<char>, bool)>, after: Seq<HeroView>, name: Seq<char>, can_fly: bool)
    requires
        created(creations(hs), after, name, can_fly),
    ensures
        after == creations(hs.push((name, can_fly))),
{
    assert(hs.push((name, can_fly)).drop_last() =~= hs);
    assert(after =~= creations(hs).push(after.last()));
}

/// After `n` creations from an empty store there are exactly `n` resources, the k-th
/// with identifier k and the name and flag it was created with; so the identifiers
/// are distinct and lie in `[1, n + 1)`.
pub proof fn lemma_creations(hs: Seq<(Seq<char>, bool)>)
    requires
        hs.len() <= usize::MAX,
    ensures
        creations(hs).len() == hs.len(),
        forall|i: int| 0 <= i < hs.len() ==> (#[trigger] creations(hs)[i]) == (HeroView {
            id: (i + 1) as usize,
            name: hs[i].0,
            can_fly: hs[i].1,
        }),
        forall|i: int, j: int|
            0 <= i < j < hs.len() ==> creations(hs)[i].id != creations(hs)[j].id,
        forall|i: int|
            0 <= i < hs.len() ==> 1 <= #[trigger] creations(hs)[i].id < hs.len() + 1,
    decreases hs.len(),
{
    if hs.len() > 0 {
        lemma_creations(hs.drop_last());
        assert forall|i: int| 0 <= i < hs.len() implies (#[trigger] creations(hs)[i]) == (HeroView {
            id: (i + 1) as usize,
            name: hs[i].0,
            can_fly: hs[i].1,
        }) by {
            if i < hs.len() - 1 {
                assert(creations(hs)[i] == creations(hs.drop_last())[i]);
            }
        }
    }
}

} // verus!
