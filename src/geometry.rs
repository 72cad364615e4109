//! The bookkeeping of the 3D polyline model: a store that gives each
//! distinct vertex one index, and per object the polyline being drawn and
//! the polylines already finished.
//!
//! A vertex is keyed by the bit patterns of its three coordinates, so two
//! vertices are one exactly when their coordinates are bitwise equal.

use vstd::prelude::*;

verus! {

/// The map with no entries.
pub open spec fn no_vertices() -> Map<(u64, u64, u64), usize> {
    Map::empty()
}

/// What a vertex index holds: each key with its index.
pub uninterp spec fn vertex_index_map(m: VertexIndex) -> Map<(u64, u64, u64), usize>;

/// A hash map from vertex keys to indices.
#[verifier::external_body]
pub struct VertexIndex {
    map: hashbrown::HashMap<(u64, u64, u64), usize>,
}

impl VertexIndex {
    /// Relies on `hashbrown::HashMap::new`: an empty map.
    #[verifier::external_body]
    fn new() -> (r: VertexIndex)
        ensures
            vertex_index_map(r) == no_vertices(),
    {
        VertexIndex { map: hashbrown::HashMap::new() }
    }

    /// Relies on `hashbrown::HashMap::get`: the index stored for the key, if any.
    #[verifier::external_body]
    fn get(&self, k: (u64, u64, u64)) -> (r: Option<usize>)
        ensures
            match r {
                Some(i) => vertex_index_map(*self).contains_key(k) && vertex_index_map(*self)[k] == i,
                None => !vertex_index_map(*self).contains_key(k),
            },
    {
        self.map.get(&k).copied()
    }

    /// Relies on `hashbrown::HashMap::insert`: the key now maps to `i`,
    /// every other key keeps its entry.
    #[verifier::external_body]
    fn insert(&mut self, k: (u64, u64, u64), i: usize)
        ensures
            vertex_index_map(*final(self)) == vertex_index_map(*old(self)).insert(k, i),
    {
        self.map.insert(k, i);
    }
}

/// The vertices in order of first insertion, each once.
pub struct VertexStore {
    vertices: Vec<(u64, u64, u64)>,
    index: VertexIndex,
}

/// The sequence after one insertion: unchanged when the key is in it,
/// else with the key appended.
pub open spec fn insert_vertex(vs: Seq<(u64, u64, u64)>, v: (u64, u64, u64)) -> Seq<(u64, u64, u64)> {
    if vs.contains(v) {
        vs
    } else {
        vs.push(v)
    }
}

/// The store's vertices after inserting `ps` one after another into an
/// empty store.
pub open spec fn inserted_all(ps: Seq<(u64, u64, u64)>) -> Seq<(u64, u64, u64)>
    decreases ps.len(),
{
    if ps.len() == 0 {
        seq![]
    } else {
        insert_vertex(inserted_all(ps.drop_last()), ps.last())
    }
}

impl View for VertexStore {
    type V = Seq<(u64, u64, u64)>;

    closed spec fn view(&self) -> Seq<(u64, u64, u64)> {
        self.vertices@
    }
}

impl VertexStore {
    /// The index holds exactly the stored vertices, each with its position.
    pub closed spec fn wf(&self) -> bool {
        &&& self.vertices@.no_duplicates()
        &&& forall|k: (u64, u64, u64)| #[trigger] vertex_index_map(self.index).contains_key(k) <==> self.vertices@.contains(k)
        &&& forall|k: (u64, u64, u64)| vertex_index_map(self.index).contains_key(k) ==> {
            let i = #[trigger] vertex_index_map(self.index)[k];
            i < self.vertices@.len() && self.vertices@[i as int] == k
        }
    }

    /// An empty store.
    pub fn new() -> (r: VertexStore)
        ensures
            r.wf(),
            r@ == Seq::<(u64, u64, u64)>::empty(),
    {
        let r = VertexStore { vertices: Vec::new(), index: VertexIndex::new() };
        assert(r.vertices@ =~= Seq::<(u64, u64, u64)>::empty());
        r
    }

    /// The number of distinct vertices.
    pub fn len(&self) -> (r: usize)
        ensures
            r == self@.len(),
    {
        self.vertices.len()
    }

    /// The vertex at index `i`.
    pub fn get(&self, i: usize) -> (r: (u64, u64, u64))
        requires
            i < self@.len(),
        ensures
            r == self@[i as int],
    {
        self.vertices[i]
    }

    /// Gives `v` its index: the one it already has, or the next free one.
    pub fn insert(&mut self, v: (u64, u64, u64)) -> (r: usize)
        requires
            old(self).wf(),
            old(self)@.len() < usize::MAX,
        ensures
            final(self).wf(),
            final(self)@ == insert_vertex(old(self)@, v),
            r < final(self)@.len(),
            final(self)@[r as int] == v,
    {
        match self.index.get(v) {
            Some(i) => i,
            None => {
                let i = self.vertices.len();
                let ghost before = self.vertices@;
                self.vertices.push(v);
                self.index.insert(v, i);
                proof {
                    assert(!before.contains(v));
                    assert forall|k: (u64, u64, u64)| #[trigger] vertex_index_map(self.index).contains_key(k) <==> self.vertices@.contains(k) by {
                        if self.vertices@.contains(k) && k != v {
                            let j = choose|j: int| 0 <= j < self.vertices@.len() && self.vertices@[j] == k;
                            assert(before[j] == k);
                        }
                        if k != v && before.contains(k) {
                            let j = choose|j: int| 0 <= j < before.len() && before[j] == k;
                            assert(self.vertices@[j] == k);
                        }
                        if k == v {
                            assert(self.vertices@[i as int] == v);
                        }
                    }
                    assert forall|a: int, b: int| 0 <= a < b < self.vertices@.len() implies self.vertices@[a] != self.vertices@[b] by {
                        if b == i {
                            assert(before[a] == self.vertices@[a]);
                        }
                    }
                }
                i
            },
        }
    }
}

/// The store holds each inserted point once: as many vertices as there are
/// distinct points among those inserted, in order of first insertion.
pub proof fn lemma_store_counts_distinct(ps: Seq<(u64, u64, u64)>)
    ensures
        inserted_all(ps).no_duplicates(),
        inserted_all(ps).to_set() == ps.to_set(),
        inserted_all(ps).len() == ps.to_set().len(),
    decreases ps.len(),
{
    if ps.len() > 0 {
        let d = inserted_all(ps.drop_last());
        lemma_store_counts_distinct(ps.drop_last());
        assert(ps =~= ps.drop_last().push(ps.last()));
        if d.contains(ps.last()) {
            ps.drop_last().lemma_push_to_set_commute(ps.last());
            assert(d.to_set().contains(ps.last()));
            assert(ps.to_set() =~= d.to_set());
        } else {
            let e = d.push(ps.last());
            assert forall|a: int, b: int| 0 <= a < b < e.len() implies e[a] != e[b] by {
                if b == d.len() {
                    assert(d.contains(d[a]));
                }
            }
            d.lemma_push_to_set_commute(ps.last());
            ps.drop_last().lemma_push_to_set_commute(ps.last());
        }
        assert(inserted_all(ps) == insert_vertex(d, ps.last()));
    } else {
        assert(ps.to_set() =~= Set::<(u64, u64, u64)>::empty());
        assert(inserted_all(ps).to_set() =~= Set::<(u64, u64, u64)>::empty());
    }
    inserted_all(ps).unique_seq_to_set();
}

/// One object of a multi-object print: its name, the polyline being drawn
/// and the polylines already finished, as vertex indices.
#[derive(Debug)]
pub struct ObjectLines {
    pub id: i128,
    /// Set by `M486 S<id> A"<name>"`; `None` stands for the default name.
    pub name: Option<String>,
    pub open: Vec<usize>,
    pub lines: Vec<Vec<usize>>,
}

/// A polyline is kept only when it joins at least two vertices.
pub open spec fn finalize(open: Seq<usize>, lines: Seq<Seq<usize>>) -> Seq<Seq<usize>> {
    if open.len() > 1 {
        lines.push(open)
    } else {
        lines
    }
}

impl ObjectLines {
    /// The finished polylines as index sequences.
    pub open spec fn lines_view(&self) -> Seq<Seq<usize>> {
        self.lines@.map_values(|l: Vec<usize>| l@)
    }

    /// Every index is below `n`.
    pub open spec fn indices_below(&self, n: nat) -> bool {
        &&& forall|k: int| 0 <= k < self.open@.len() ==> self.open@[k] < n
        &&& forall|l: int, k: int| 0 <= l < self.lines@.len() && 0 <= k < self.lines@[l]@.len() ==> self.lines@[l]@[k] < n
    }

    fn close(&mut self)
        ensures
            final(self).id == old(self).id,
            final(self).name == old(self).name,
            final(self).open@ == Seq::<usize>::empty(),
            final(self).lines_view() == finalize(old(self).open@, old(self).lines_view()),
            forall|n: nat| old(self).indices_below(n) ==> final(self).indices_below(n),
    {
        let mut open: Vec<usize> = Vec::new();
        std::mem::swap(&mut open, &mut self.open);
        if open.len() > 1 {
            let ghost before = self.lines@;
            self.lines.push(open);
            assert(self.lines_view() =~= old(self).lines_view().push(old(self).open@));
            assert forall|n: nat| old(self).indices_below(n) implies self.indices_below(n) by {
                assert forall|l: int, k: int| 0 <= l < self.lines@.len() && 0 <= k < self.lines@[l]@.len() implies self.lines@[l]@[k] < n by {
                    if l < before.len() {
                        assert(self.lines@[l] == before[l]);
                    }
                }
            }
        }
    }
}

/// The polyline model of a print: a vertex store shared by all objects,
/// the objects (each id once), and the object that motion goes to (`None`
/// once the job is cancelled).
pub struct Geometry {
    pub store: VertexStore,
    pub objects: Vec<ObjectLines>,
    pub active: Option<i128>,
}

/// `new` is `old` with only the object at `i` changed, and that one keeps its id.
pub open spec fn only_changed(old: Seq<ObjectLines>, new: Seq<ObjectLines>, i: int) -> bool {
    &&& new.len() == old.len()
    &&& 0 <= i < old.len()
    &&& new[i].id == old[i].id
    &&& forall|j: int| 0 <= j < old.len() && j != i ==> new[j] == old[j]
}

/// Where the object with `id` stands in `objs`.
pub open spec fn object_at(objs: Seq<ObjectLines>, id: i128, i: int) -> bool {
    0 <= i < objs.len() && objs[i].id == id
}

impl Geometry {
    pub open spec fn wf(&self) -> bool {
        &&& self.store.wf()
        &&& forall|i: int, j: int| 0 <= i < j < self.objects@.len() ==> (#[trigger] self.objects@[i]).id != (#[trigger] self.objects@[j]).id
        &&& (self.active is Some ==> exists|i: int| object_at(self.objects@, self.active->Some_0, i))
        &&& forall|i: int| 0 <= i < self.objects@.len() ==> (#[trigger] self.objects@[i]).indices_below(self.store@.len())
    }

    /// No vertex yet; object 0 registered and active.
    pub fn new() -> (r: Geometry)
        ensures
            r.wf(),
            r.store@.len() == 0,
            r.active == Some(0i128),
            r.objects@.len() == 1,
            r.objects@[0].id == 0,
            r.objects@[0].name is None,
            r.objects@[0].open@.len() == 0,
            r.objects@[0].lines@.len() == 0,
    {
        let first = ObjectLines { id: 0, name: None, open: Vec::new(), lines: Vec::new() };
        let mut objects: Vec<ObjectLines> = Vec::new();
        objects.push(first);
        let r = Geometry { store: VertexStore::new(), objects, active: Some(0) };
        assert(object_at(r.objects@, 0, 0));
        assert(r.objects@[0].indices_below(0));
        assert(r.store.wf());
        assert(r.active is Some);
        assert(r.active->Some_0 == 0i128);
        assert(object_at(r.objects@, r.active->Some_0, 0));
        assert(forall|i: int, j: int| 0 <= i < j < r.objects@.len() ==> (#[trigger] r.objects@[i]).id != (#[trigger] r.objects@[j]).id);
        assert(forall|i: int| 0 <= i < r.objects@.len() ==> (#[trigger] r.objects@[i]).indices_below(r.store@.len()));
        r
    }

    fn find(&self, id: i128) -> (r: Option<usize>)
        ensures
            match r {
                Some(i) => object_at(self.objects@, id, i as int),
                None => forall|i: int| 0 <= i < self.objects@.len() ==> self.objects@[i].id != id,
            },
    {
        let mut i: usize = 0;
        while i < self.objects.len()
            invariant
                0 <= i <= self.objects@.len(),
                forall|j: int| 0 <= j < i ==> self.objects@[j].id != id,
            decreases self.objects@.len() - i,
        {
            if self.objects[i].id == id {
                return Some(i);
            }
            i = i + 1;
        }
        None
    }

    /// The position of the active object, when there is one.
    fn active_index(&self) -> (r: Option<usize>)
        requires
            self.wf(),
        ensures
            match self.active {
                Some(id) => r matches Some(i) && object_at(self.objects@, id, i as int),
                None => r is None,
            },
    {
        match self.active {
            Some(id) => {
                let r = self.find(id);
                if r.is_none() {
                    let ghost i = choose|i: int| object_at(self.objects@, id, i);
                    assert(self.objects@[i].id != id);
                }
                r
            },
            None => None,
        }
    }
}

impl Geometry {
    /// The extruder moves to `v` while extruding: the active object's open
    /// polyline goes on to `v`. Without an active object nothing changes.
    pub fn extrude(&mut self, v: (u64, u64, u64))
        requires
            old(self).wf(),
            old(self).store@.len() < usize::MAX,
        ensures
            final(self).wf(),
            final(self).active == old(self).active,
            old(self).active is None ==> final(self).store@ == old(self).store@ && final(self).objects@ == old(self).objects@,
            old(self).active is Some ==> final(self).store@ == insert_vertex(old(self).store@, v)
                && forall|i: int| #[trigger] object_at(old(self).objects@, old(self).active->Some_0, i) ==> {
                    &&& only_changed(old(self).objects@, final(self).objects@, i)
                    &&& final(self).objects@[i].name == old(self).objects@[i].name
                    &&& final(self).objects@[i].lines == old(self).objects@[i].lines
                    &&& final(self).objects@[i].open@.len() == old(self).objects@[i].open@.len() + 1
                    &&& final(self).objects@[i].open@.drop_last() == old(self).objects@[i].open@
                    &&& final(self).store@[final(self).objects@[i].open@.last() as int] == v
                },
    {
        let i = match self.active_index() {
            Some(i) => i,
            None => return,
        };
        let k = self.store.insert(v);
        self.objects[i].open.push(k);
        proof {
            let n = self.store@.len();
            assert forall|j: int| 0 <= j < self.objects@.len() implies (#[trigger] self.objects@[j]).indices_below(n) by {
                let o = old(self).objects@[j];
                assert(o.indices_below(old(self).store@.len()));
                if j == i {
                    let f = self.objects@[j];
                    assert forall|t: int| 0 <= t < f.open@.len() implies f.open@[t] < n by {
                        if t < o.open@.len() {
                            assert(f.open@[t] == o.open@[t]);
                        }
                    }
                }
            }
            assert(self.objects@[i as int].open@.drop_last() =~= old(self).objects@[i as int].open@);
            assert(object_at(self.objects@, self.active->Some_0, i as int));
        }
    }

    /// The extruder moves to `v` without extruding: the active object's open
    /// polyline is finished (kept if it joins two vertices or more) and a new
    /// one starts at `v`. Without an active object nothing changes.
    pub fn travel(&mut self, v: (u64, u64, u64))
        requires
            old(self).wf(),
            old(self).store@.len() < usize::MAX,
        ensures
            final(self).wf(),
            final(self).active == old(self).active,
            old(self).active is None ==> final(self).store@ == old(self).store@ && final(self).objects@ == old(self).objects@,
            old(self).active is Some ==> final(self).store@ == insert_vertex(old(self).store@, v)
                && forall|i: int| #[trigger] object_at(old(self).objects@, old(self).active->Some_0, i) ==> {
                    &&& only_changed(old(self).objects@, final(self).objects@, i)
                    &&& final(self).objects@[i].name == old(self).objects@[i].name
                    &&& final(self).objects@[i].lines_view() == finalize(old(self).objects@[i].open@, old(self).objects@[i].lines_view())
                    &&& final(self).objects@[i].open@.len() == 1
                    &&& final(self).store@[final(self).objects@[i].open@[0] as int] == v
                },
    {
        let i = match self.active_index() {
            Some(i) => i,
            None => return,
        };
        let k = self.store.insert(v);
        self.objects[i].close();
        self.objects[i].open.push(k);
        proof {
            let n = self.store@.len();
            assert forall|j: int| 0 <= j < self.objects@.len() implies (#[trigger] self.objects@[j]).indices_below(n) by {
                let o = old(self).objects@[j];
                assert(o.indices_below(old(self).store@.len()));
            }
            assert(object_at(self.objects@, self.active->Some_0, i as int));
        }
    }

    /// The active object's open polyline is finished (kept if it joins two
    /// vertices or more) and no vertex is added. Without an active object
    /// nothing changes.
    pub fn close_polyline(&mut self)
        requires
            old(self).wf(),
        ensures
            final(self).wf(),
            final(self).active == old(self).active,
            final(self).store@ == old(self).store@,
            old(self).active is None ==> final(self).objects@ == old(self).objects@,
            old(self).active is Some ==> forall|i: int| #[trigger] object_at(old(self).objects@, old(self).active->Some_0, i) ==> {
                &&& only_changed(old(self).objects@, final(self).objects@, i)
                &&& final(self).objects@[i].name == old(self).objects@[i].name
                &&& final(self).objects@[i].lines_view() == finalize(old(self).objects@[i].open@, old(self).objects@[i].lines_view())
                &&& final(self).objects@[i].open@.len() == 0
            },
    {
        let i = match self.active_index() {
            Some(i) => i,
            None => return,
        };
        self.objects[i].close();
        proof {
            let n = self.store@.len();
            assert forall|j: int| 0 <= j < self.objects@.len() implies (#[trigger] self.objects@[j]).indices_below(n) by {
                let o = old(self).objects@[j];
                assert(o.indices_below(n));
            }
            assert(object_at(self.objects@, self.active->Some_0, i as int));
        }
    }

    /// Motion now goes to object `id`, registered if new. With `rename`,
    /// its name becomes `name` (`None`: the default name).
    fn select_object(&mut self, id: i128, rename: bool, name: Option<String>)
        requires
            old(self).wf(),
        ensures
            final(self).wf(),
            final(self).active == Some(id),
            final(self).store@ == old(self).store@,
            exists|i: int| object_at(final(self).objects@, id, i),
            (exists|i: int| object_at(old(self).objects@, id, i)) ==> forall|i: int| #[trigger] object_at(old(self).objects@, id, i) ==> {
                &&& only_changed(old(self).objects@, final(self).objects@, i)
                &&& final(self).objects@[i].open == old(self).objects@[i].open
                &&& final(self).objects@[i].lines == old(self).objects@[i].lines
                &&& final(self).objects@[i].name == if rename { name } else { old(self).objects@[i].name }
            },
            !(exists|i: int| object_at(old(self).objects@, id, i)) ==> {
                &&& final(self).objects@.len() == old(self).objects@.len() + 1
                &&& final(self).objects@.drop_last() == old(self).objects@
                &&& final(self).objects@.last().id == id
                &&& final(self).objects@.last().name == if rename { name } else { None::<String> }
                &&& final(self).objects@.last().open@.len() == 0
                &&& final(self).objects@.last().lines@.len() == 0
            },
    {
        match self.find(id) {
            Some(i) => {
                if rename {
                    self.objects[i].name = name;
                }
                proof {
                    assert(object_at(self.objects@, id, i as int));
                    assert forall|a: int, b: int| 0 <= a < b < self.objects@.len() implies (#[trigger] self.objects@[a]).id != (#[trigger] self.objects@[b]).id by {
                        assert(old(self).objects@[a].id != old(self).objects@[b].id);
                    }
                    assert forall|j: int| 0 <= j < self.objects@.len() implies (#[trigger] self.objects@[j]).indices_below(self.store@.len()) by {
                        assert(old(self).objects@[j].indices_below(self.store@.len()));
                    }
                    assert forall|j: int| #[trigger] object_at(old(self).objects@, id, j) implies j == i by {
                        if j != i {
                            assert(old(self).objects@[j].id != old(self).objects@[i as int].id);
                        }
                    }
                }
            },
            None => {
                let o = ObjectLines { id, name: if rename { name } else { None }, open: Vec::new(), lines: Vec::new() };
                self.objects.push(o);
                proof {
                    let last = (self.objects@.len() - 1) as int;
                    assert(object_at(self.objects@, id, last));
                    assert(self.objects@.drop_last() =~= old(self).objects@);
                    assert forall|a: int, b: int| 0 <= a < b < self.objects@.len() implies (#[trigger] self.objects@[a]).id != (#[trigger] self.objects@[b]).id by {
                        if b == last {
                            assert(old(self).objects@[a].id != id);
                        } else {
                            assert(old(self).objects@[a].id != old(self).objects@[b].id);
                        }
                    }
                    assert forall|j: int| 0 <= j < self.objects@.len() implies (#[trigger] self.objects@[j]).indices_below(self.store@.len()) by {
                        if j < last {
                            assert(old(self).objects@[j].indices_below(self.store@.len()));
                        }
                    }
                }
            },
        }
        self.active = Some(id);
        proof {
            let k = choose|k: int| object_at(self.objects@, id, k);
            assert(object_at(self.objects@, self.active->Some_0, k));
        }
    }

    /// `M486 S<id>`: object `id` starts now, with the given name (`None`:
    /// the default name).
    pub fn start_object(&mut self, id: i128, name: Option<String>)
        requires
            old(self).wf(),
        ensures
            final(self).wf(),
            final(self).active == Some(id),
            final(self).store@ == old(self).store@,
            forall|i: int| #[trigger] object_at(final(self).objects@, id, i) ==> final(self).objects@[i].name == name,
            exists|i: int| object_at(final(self).objects@, id, i),
    {
        self.select_object(id, true, name);
        proof {
            assert forall|i: int| #[trigger] object_at(self.objects@, id, i) implies self.objects@[i].name == name by {
                if exists|j: int| object_at(old(self).objects@, id, j) {
                    let j = choose|j: int| object_at(old(self).objects@, id, j);
                    if i != j {
                        assert(self.objects@[i].id != self.objects@[j].id);
                    }
                } else {
                    let last = self.objects@.len() - 1;
                    if i != last {
                        assert(self.objects@[i].id != self.objects@[last].id);
                    }
                }
            }
        }
    }

    /// `M486 U<id>`: object `id` is un-cancelled and motion goes to it again;
    /// its name is kept.
    pub fn uncancel(&mut self, id: i128)
        requires
            old(self).wf(),
        ensures
            final(self).wf(),
            final(self).active == Some(id),
            final(self).store@ == old(self).store@,
            exists|i: int| object_at(final(self).objects@, id, i),
            forall|i: int| #[trigger] object_at(old(self).objects@, id, i) ==> final(self).objects@[i].name == old(self).objects@[i].name,
    {
        self.select_object(id, false, None);
    }

    /// `M486 P<id>` or `M486 C`: the job is cancelled; motion is dropped
    /// until an object is started or un-cancelled.
    pub fn cancel(&mut self)
        requires
            old(self).wf(),
        ensures
            final(self).wf(),
            final(self).active is None,
            final(self).store@ == old(self).store@,
            final(self).objects@ == old(self).objects@,
    {
        self.active = None;
    }

    /// `M486 A<name>`: the active object's name becomes `name`.
    pub fn assign_name(&mut self, name: String)
        requires
            old(self).wf(),
        ensures
            final(self).wf(),
            final(self).active == old(self).active,
            final(self).store@ == old(self).store@,
            old(self).active is None ==> final(self).objects@ == old(self).objects@,
            old(self).active is Some ==> forall|i: int| #[trigger] object_at(old(self).objects@, old(self).active->Some_0, i) ==> {
                &&& only_changed(old(self).objects@, final(self).objects@, i)
                &&& final(self).objects@[i].name == Some(name)
                &&& final(self).objects@[i].open == old(self).objects@[i].open
                &&& final(self).objects@[i].lines == old(self).objects@[i].lines
            },
    {
        let i = match self.active_index() {
            Some(i) => i,
            None => return,
        };
        self.objects[i].name = Some(name);
        proof {
            assert forall|j: int| 0 <= j < self.objects@.len() implies (#[trigger] self.objects@[j]).indices_below(self.store@.len()) by {
                assert(old(self).objects@[j].indices_below(self.store@.len()));
            }
            assert(object_at(self.objects@, self.active->Some_0, i as int));
        }
    }

    /// End of the stream: every object's open polyline is finished (kept if
    /// it joins two vertices or more).
    pub fn finish(&mut self)
        requires
            old(self).wf(),
        ensures
            final(self).wf(),
            final(self).active == old(self).active,
            final(self).store@ == old(self).store@,
            final(self).objects@.len() == old(self).objects@.len(),
            forall|i: int| 0 <= i < old(self).objects@.len() ==> {
                &&& (#[trigger] final(self).objects@[i]).id == old(self).objects@[i].id
                &&& final(self).objects@[i].name == old(self).objects@[i].name
                &&& final(self).objects@[i].open@.len() == 0
                &&& final(self).objects@[i].lines_view() == finalize(old(self).objects@[i].open@, old(self).objects@[i].lines_view())
            },
    {
        let mut i: usize = 0;
        while i < self.objects.len()
            invariant
                0 <= i <= self.objects@.len(),
                self.objects@.len() == old(self).objects@.len(),
                self.store == old(self).store,
                self.active == old(self).active,
                old(self).wf(),
                forall|j: int| 0 <= j < self.objects@.len() ==> (#[trigger] self.objects@[j]).id == old(self).objects@[j].id,
                forall|j: int| 0 <= j < self.objects@.len() ==> (#[trigger] self.objects@[j]).indices_below(self.store@.len()),
                forall|j: int| i <= j < self.objects@.len() ==> #[trigger] self.objects@[j] == old(self).objects@[j],
                forall|j: int| 0 <= j < i ==> {
                    &&& (#[trigger] self.objects@[j]).name == old(self).objects@[j].name
                    &&& self.objects@[j].open@.len() == 0
                    &&& self.objects@[j].lines_view() == finalize(old(self).objects@[j].open@, old(self).objects@[j].lines_view())
                },
            decreases self.objects@.len() - i,
        {
            self.objects[i].close();
            i = i + 1;
        }
        proof {
            assert forall|a: int, b: int| 0 <= a < b < self.objects@.len() implies (#[trigger] self.objects@[a]).id != (#[trigger] self.objects@[b]).id by {
                assert(old(self).objects@[a].id != old(self).objects@[b].id);
            }
            if self.active is Some {
                let k = choose|k: int| object_at(old(self).objects@, old(self).active->Some_0, k);
                assert(object_at(self.objects@, self.active->Some_0, k));
            }
        }
    }
}

} // verus!
