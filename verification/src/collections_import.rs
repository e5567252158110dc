//! The order in which imported Zotero collections are created.
//!
//! Collections are created in rounds: a collection without a parent, or whose parent
//! has already been created, is created (under that parent); the others wait for the
//! next round. Rounds go on while the previous one made progress. Whatever is left
//! (collections whose parent never appeared) is finally created at the top level.
//!
//! The caller drives the import: it asks [`CollectionImport::next_action`] what to
//! create, creates it, and reports the outcome with [`CollectionImport::record`].
use vstd::prelude::*;

verus! {

/// A collection read from a Zotero library.
pub struct ZoteroCollectionData {
    pub key: String,
    pub name: String,
    pub parent_key: Option<String>,
}

/// One creation to perform: collection `index`, under the already created collection
/// `parent` (an index as well), or at the top level.
pub struct CollectionAction {
    pub index: usize,
    pub parent: Option<usize>,
}

/// Among the first `upto` created collections, the last one whose key is `k`:
/// a later creation under the same key shadows earlier ones.
pub open spec fn last_created_with(
    keys: Seq<String>,
    created: Seq<usize>,
    k: Seq<char>,
    upto: int,
) -> Option<usize>
    decreases upto,
{
    if upto <= 0 {
        None
    } else if keys[created[upto - 1] as int]@ == k {
        Some(created[upto - 1])
    } else {
        last_created_with(keys, created, k, upto - 1)
    }
}

/// The state of a collection import.
///
/// The key map is kept in a `Vec` with an invariant of its own: vstd specifies std's
/// `HashMap`, `HashSet` and `BTreeMap` only for keys with a key model (integers, `bool`,
/// boxes of them), and these keys are strings.
pub struct CollectionImport {
    keys: Vec<String>,
    parents: Vec<Option<String>>,
    remaining: Vec<usize>,
    pos: usize,
    deferred: Vec<usize>,
    progress: bool,
    fallback: bool,
    created: Vec<usize>,
    awaiting: Option<usize>,
    emitted: Ghost<Set<usize>>,
}

impl CollectionImport {
    /// The number of collections.
    pub closed spec fn count(&self) -> nat {
        self.keys@.len()
    }

    /// The key of collection `i`.
    pub closed spec fn key(&self, i: int) -> Seq<char> {
        self.keys@[i]@
    }

    /// The parent key of collection `i`.
    pub closed spec fn parent_key(&self, i: int) -> Option<Seq<char>> {
        match self.parents@[i] {
            Some(p) => Some(p@),
            None => None,
        }
    }

    /// The collections created successfully so far, in order.
    pub closed spec fn created(&self) -> Seq<usize> {
        self.created@
    }

    /// The collections handed out for creation so far.
    pub closed spec fn attempted(&self) -> Set<usize> {
        self.emitted@
    }

    /// Whether the import has reached its final phase, in which every collection left is
    /// created at the top level.
    pub closed spec fn in_fallback(&self) -> bool {
        self.fallback
    }

    /// The collection whose creation outcome is awaited, if any.
    pub closed spec fn awaiting(&self) -> Option<usize> {
        self.awaiting
    }

    /// The collection created under key `k`, if any.
    pub closed spec fn created_under(&self, k: Seq<char>) -> Option<usize> {
        last_created_with(self.keys@, self.created@, k, self.created@.len() as int)
    }

    /// Whether collection `i` has a parent key under which nothing has been created.
    pub closed spec fn parent_missing(&self, i: usize) -> bool {
        &&& self.parent_key(i as int) is Some
        &&& self.created_under(self.parent_key(i as int)->0) is None
    }

    /// Internal consistency of the import state.
    pub closed spec fn wf(&self) -> bool {
        let n = self.keys@.len();
        let rem = self.remaining@;
        let def = self.deferred@;
        &&& self.parents@.len() == n
        &&& self.pos <= rem.len()
        &&& self.fallback ==> def.len() == 0
        &&& !self.fallback && !self.progress ==> forall|b: int|
            0 <= b < def.len() ==> self.parent_missing(#[trigger] def[b])
        &&& forall|a: int| self.pos <= a < rem.len() ==> #[trigger] rem[a] < n
        &&& forall|b: int| 0 <= b < def.len() ==> #[trigger] def[b] < n
        &&& forall|c: int| 0 <= c < self.created@.len() ==> #[trigger] self.created@[c] < n
        &&& forall|c: int|
            0 <= c < self.created@.len() ==> self.emitted@.contains(#[trigger] self.created@[c])
        &&& forall|a: int, b: int|
            self.pos <= a < b < rem.len() ==> #[trigger] rem[a] != #[trigger] rem[b]
        &&& forall|a: int, b: int| 0 <= a < b < def.len() ==> #[trigger] def[a] != #[trigger] def[b]
        &&& forall|a: int, b: int|
            self.pos <= a < rem.len() && 0 <= b < def.len() ==> #[trigger] rem[a]
                != #[trigger] def[b]
        &&& forall|a: int| self.pos <= a < rem.len() ==> !self.emitted@.contains(#[trigger] rem[a])
        &&& forall|b: int| 0 <= b < def.len() ==> !self.emitted@.contains(#[trigger] def[b])
        &&& forall|i: usize|
            i < n ==> self.emitted@.contains(i) || (exists|a: int|
                self.pos <= a < rem.len() && #[trigger] rem[a] == i) || (exists|b: int|
                0 <= b < def.len() && #[trigger] def[b] == i)
        &&& forall|i: usize| #[trigger] self.emitted@.contains(i) ==> i < n
        &&& match self.awaiting {
            Some(i) => self.emitted@.contains(i) && i < n,
            None => true,
        }
    }

    /// Starts the import of `collections`, in their given order.
    pub fn new(collections: &Vec<ZoteroCollectionData>) -> (r: Self)
        ensures
            r.wf(),
            r.count() == collections@.len(),
            forall|i: int|
                0 <= i < collections@.len() ==> r.key(i) == collections@[i].key@ && r.parent_key(i)
                    == match collections@[i].parent_key {
                    Some(p) => Some(p@),
                    None => None::<Seq<char>>,
                },
            r.created().len() == 0,
            r.attempted() == Set::<usize>::empty(),
            r.awaiting() is None,
            !r.in_fallback(),
    {
        let mut keys: Vec<String> = Vec::new();
        let mut parents: Vec<Option<String>> = Vec::new();
        let mut remaining: Vec<usize> = Vec::new();
        let mut i: usize = 0;
        while i < collections.len()
            invariant
                i <= collections.len(),
                keys@.len() == i,
                parents@.len() == i,
                remaining@.len() == i,
                forall|k: int| 0 <= k < i ==> #[trigger] remaining@[k] == k,
                forall|k: int|
                    0 <= k < i ==> #[trigger] keys@[k]@ == collections@[k].key@ && match parents@[k] {
                        Some(p) => collections@[k].parent_key is Some && p@
                            == collections@[k].parent_key->0@,
                        None => collections@[k].parent_key is None,
                    },
            decreases collections.len() - i,
        {
            keys.push(collections[i].key.clone());
            parents.push(collections[i].parent_key.clone());
            remaining.push(i);
            i = i + 1;
        }
        let r = CollectionImport {
            keys,
            parents,
            remaining,
            pos: 0,
            deferred: Vec::new(),
            progress: false,
            fallback: false,
            created: Vec::new(),
            awaiting: None,
            emitted: Ghost(Set::empty()),
        };
        assert forall|i: usize| i < r.keys@.len() implies r.emitted@.contains(i) || (exists|a: int|
            r.pos <= a < r.remaining@.len() && #[trigger] r.remaining@[a] == i) || (exists|b: int|
            0 <= b < r.deferred@.len() && #[trigger] r.deferred@[b] == i) by {
            assert(r.remaining@[i as int] == i);
        }
        assert forall|k: int| 0 <= k < collections@.len() implies r.parent_key(k) == match collections@[k].parent_key {
            Some(p) => Some(p@),
            None => None::<Seq<char>>,
        } by {
            assert(r.keys@[k]@ == collections@[k].key@);
            match r.parents@[k] {
                Some(p) => {},
                None => {},
            }
        }
        r
    }

    /// The last successfully created collection whose key is `k`.
    fn lookup_created(&self, k: &String) -> (r: Option<usize>)
        requires
            self.wf(),
        ensures
            r == self.created_under(k@),
    {
        let mut c = self.created.len();
        while c > 0
            invariant
                self.wf(),
                c <= self.created@.len(),
                self.created_under(k@) == last_created_with(self.keys@, self.created@, k@, c as int),
            decreases c,
        {
            let j = self.created[c - 1];
            if self.keys[j] == *k {
                return Some(j);
            }
            c = c - 1;
        }
        None
    }

    /// The next collection to create, or `None` when the import is complete.
    ///
    /// A collection is handed out at most once; when the import is complete every
    /// collection has been handed out. Before the final phase a collection is created at
    /// the top level only when it has no parent key, and under a parent only when a
    /// collection with that key has been created (the last one so created).
    pub fn next_action(&mut self) -> (r: Option<CollectionAction>)
        requires
            old(self).wf(),
            old(self).awaiting() is None,
        ensures
            final(self).wf(),
            final(self).count() == old(self).count(),
            forall|i: int| 0 <= i < old(self).count() ==> final(self).key(i) == old(self).key(i)
                && final(self).parent_key(i) == old(self).parent_key(i),
            final(self).created() == old(self).created(),
            old(self).in_fallback() ==> final(self).in_fallback(),
            !old(self).in_fallback() && final(self).in_fallback() ==> forall|i: usize|
                i < old(self).count() && !old(self).attempted().contains(i) ==> old(self).parent_key(
                    i as int,
                ) is Some && old(self).created_under(old(self).parent_key(i as int)->0) is None,
            match r {
                Some(act) => {
                    &&& act.index < old(self).count()
                    &&& !old(self).attempted().contains(act.index)
                    &&& final(self).attempted() == old(self).attempted().insert(act.index)
                    &&& final(self).awaiting() == Some(act.index)
                    &&& match act.parent {
                        Some(j) => {
                            &&& !final(self).in_fallback()
                            &&& old(self).parent_key(act.index as int) is Some
                            &&& Some(j) == old(self).created_under(
                                old(self).parent_key(act.index as int)->0,
                            )
                        },
                        None => old(self).parent_key(act.index as int) is None
                            || final(self).in_fallback(),
                    }
                },
                None => {
                    &&& final(self).attempted() == old(self).attempted()
                    &&& forall|i: usize| i < old(self).count() ==> #[trigger] old(
                        self,
                    ).attempted().contains(i)
                    &&& final(self).awaiting() is None
                },
            },
    {
        loop
            invariant
                self.wf(),
                self.awaiting is None,
                self.keys@ == old(self).keys@,
                self.parents@ == old(self).parents@,
                self.created@ == old(self).created@,
                self.emitted@ == old(self).emitted@,
                old(self).fallback ==> self.fallback,
                !old(self).fallback && self.fallback ==> forall|i: usize|
                    i < self.keys@.len() && !old(self).emitted@.contains(i) ==> #[trigger] self.parent_missing(i),
            decreases
                (if self.fallback {
                    0int
                } else {
                    1int
                }),
                (if self.progress {
                    1int
                } else {
                    0int
                }),
                self.remaining@.len() - self.pos,
        {
            let ghost n = self.keys@.len();
            let ghost at_head = *self;
            if self.pos < self.remaining.len() {
                let i = self.remaining[self.pos];
                let ghost pos0 = self.pos as int;
                let ghost rem = self.remaining@;
                let ghost def = self.deferred@;
                let parent = if self.fallback {
                    None
                } else {
                    match &self.parents[i] {
                        None => None,
                        Some(pk) => {
                            let found = self.lookup_created(pk);
                            match found {
                                Some(j) => Some(j),
                                None => {
                                    self.deferred.push(i);
                                    self.pos = self.pos + 1;
                                    proof {
                                        let def2 = self.deferred@;
                                        assert(def2 == def.push(i));
                                        assert(forall|b: int| 0 <= b < def2.len() ==> #[trigger] def2[b] < n);
                                        assert(forall|b: int| 0 <= b < def2.len() ==> !self.emitted@.contains(#[trigger] def2[b]));
                                        assert forall|a: int, b: int| 0 <= a < b < def2.len() implies #[trigger] def2[a] != #[trigger] def2[b] by {
                                            if b == def.len() {
                                                assert(rem[pos0] != def[a]);
                                            }
                                        }
                                        assert forall|a: int, b: int|
                                            self.pos <= a < rem.len() && 0 <= b < def2.len()
                                                implies #[trigger] rem[a] != #[trigger] def2[b] by {
                                            if b == def.len() {
                                                assert(rem[a] != rem[pos0]);
                                            }
                                        }
                                        assert forall|i2: usize| i2 < n implies self.emitted@.contains(i2)
                                            || (exists|a: int|
                                            self.pos <= a < rem.len() && #[trigger] rem[a] == i2)
                                            || (exists|b: int|
                                            0 <= b < def2.len() && #[trigger] def2[b] == i2) by {
                                            if !self.emitted@.contains(i2) {
                                                if exists|a: int| pos0 <= a < rem.len() && #[trigger] rem[a] == i2 {
                                                    let a = choose|a: int| pos0 <= a < rem.len() && #[trigger] rem[a] == i2;
                                                    if a == pos0 {
                                                        assert(def2[def.len() as int] == i2);
                                                    }
                                                } else {
                                                    let b = choose|b: int| 0 <= b < def.len() && #[trigger] def[b] == i2;
                                                    assert(def2[b] == i2);
                                                }
                                            }
                                        }
                                        assert(self.remaining@ == rem);
                                        assert(forall|i2: usize| i2 < self.keys@.len() ==> self.emitted@.contains(i2) || (exists|a: int|
                                            self.pos <= a < self.remaining@.len() && #[trigger] self.remaining@[a] == i2) || (exists|b: int|
                                            0 <= b < self.deferred@.len() && #[trigger] self.deferred@[b] == i2));
                                        assert(forall|a: int, b: int| self.pos <= a < self.remaining@.len() && 0 <= b < self.deferred@.len() ==> #[trigger] self.remaining@[a] != #[trigger] self.deferred@[b]);
                                        assert(forall|a: int, b: int| self.pos <= a < b < self.remaining@.len() ==> #[trigger] self.remaining@[a] != #[trigger] self.remaining@[b]);
                                        assert(forall|a: int| self.pos <= a < self.remaining@.len() ==> !self.emitted@.contains(#[trigger] self.remaining@[a]));
                                        assert(forall|a: int| self.pos <= a < self.remaining@.len() ==> #[trigger] self.remaining@[a] < self.keys@.len());
                                        assert(self.wf());
                                    }
                                    continue;
                                },
                            }
                        },
                    }
                };
                assert(rem[pos0] < n);
                assert(!self.emitted@.contains(rem[pos0]));
                self.pos = self.pos + 1;
                self.awaiting = Some(i);
                self.emitted = Ghost(self.emitted@.insert(i));
                proof {
                    assert forall|i2: usize| i2 < n implies self.emitted@.contains(i2)
                        || (exists|a: int| self.pos <= a < rem.len() && #[trigger] rem[a] == i2)
                        || (exists|b: int| 0 <= b < def.len() && #[trigger] def[b] == i2) by {
                        if !self.emitted@.contains(i2) {
                            if exists|a: int| pos0 <= a < rem.len() && #[trigger] rem[a] == i2 {
                                let a = choose|a: int| pos0 <= a < rem.len() && #[trigger] rem[a] == i2;
                                assert(a != pos0);
                            }
                        }
                    }
                    assert forall|a: int| self.pos <= a < rem.len() implies !self.emitted@.contains(
                        #[trigger] rem[a],
                    ) by {
                        assert(rem[a] != rem[pos0]);
                    }
                    assert forall|b: int| 0 <= b < def.len() implies !self.emitted@.contains(
                        #[trigger] def[b],
                    ) by {
                        assert(rem[pos0] != def[b]);
                    }
                    assert(forall|c: int|
                        0 <= c < self.created@.len() ==> self.emitted@.contains(#[trigger] self.created@[c]));
                    assert(forall|i2: usize| #[trigger] self.emitted@.contains(i2) ==> i2 < n);
                    assert(self.parents@.len() == self.keys@.len());
                    assert(self.pos <= self.remaining@.len());
                    assert(self.fallback ==> self.deferred@.len() == 0);
                    assert(forall|a: int| self.pos <= a < self.remaining@.len() ==> #[trigger] self.remaining@[a] < self.keys@.len());
                    assert(forall|b: int| 0 <= b < self.deferred@.len() ==> #[trigger] self.deferred@[b] < self.keys@.len());
                    assert(forall|c: int| 0 <= c < self.created@.len() ==> #[trigger] self.created@[c] < self.keys@.len());
                    assert(forall|a: int, b: int| self.pos <= a < b < self.remaining@.len() ==> #[trigger] self.remaining@[a] != #[trigger] self.remaining@[b]);
                    assert(forall|a: int, b: int| 0 <= a < b < self.deferred@.len() ==> #[trigger] self.deferred@[a] != #[trigger] self.deferred@[b]);
                    assert(forall|a: int, b: int| self.pos <= a < self.remaining@.len() && 0 <= b < self.deferred@.len() ==> #[trigger] self.remaining@[a] != #[trigger] self.deferred@[b]);
                    assert(forall|a: int| self.pos <= a < self.remaining@.len() ==> !self.emitted@.contains(#[trigger] self.remaining@[a]));
                    assert(forall|b: int| 0 <= b < self.deferred@.len() ==> !self.emitted@.contains(#[trigger] self.deferred@[b]));
                    assert(self.awaiting == Some(i));
                    assert(self.emitted@.contains(i) && i < self.keys@.len());
                    assert(self.remaining@ == rem);
                    assert(self.deferred@ == def);
                    assert(forall|i2: usize| i2 < self.keys@.len() ==> self.emitted@.contains(i2) || (exists|a: int|
                        self.pos <= a < self.remaining@.len() && #[trigger] self.remaining@[a] == i2) || (exists|b: int|
                        0 <= b < self.deferred@.len() && #[trigger] self.deferred@[b] == i2));
                    assert(self.wf());

                }
                proof {
                    if !old(self).fallback && self.fallback {
                        assert forall|i2: usize|
                            i2 < old(self).count() && !old(self).attempted().contains(i2) implies old(self).parent_key(
                            i2 as int,
                        ) is Some && old(self).created_under(old(self).parent_key(i2 as int)->0) is None by {
                            assert(at_head.parent_missing(i2));
                            assert(at_head.parents@[i2 as int] == old(self).parents@[i2 as int]);
                        }
                    }
                }
                return Some(CollectionAction { index: i, parent });
            }
            if self.fallback {
                proof {
                    assert forall|i: usize| i < old(self).keys@.len() implies #[trigger] old(
                        self,
                    ).emitted@.contains(i) by {
                        if !self.emitted@.contains(i) {
                            if exists|a: int| self.pos <= a < self.remaining@.len() && #[trigger] self.remaining@[a] == i {
                            } else {
                                let b = choose|b: int| 0 <= b < self.deferred@.len() && #[trigger] self.deferred@[b] == i;
                            }
                        }
                    }
                }
                return None;
            }
            let ghost def = self.deferred@;
            let mut fresh: Vec<usize> = Vec::new();
            std::mem::swap(&mut fresh, &mut self.deferred);
            self.remaining = fresh;
            self.pos = 0;
            if self.remaining.len() == 0 || !self.progress {
                self.fallback = true;
            } else {
                self.progress = false;
            }
            proof {
                assert(self.remaining@ == def);
                assert(self.deferred@.len() == 0);
                assert(forall|a: int| self.pos <= a < self.remaining@.len() ==> #[trigger] self.remaining@[a] < n);
                assert(forall|a: int, b: int|
                    self.pos <= a < b < self.remaining@.len() ==> #[trigger] self.remaining@[a] != #[trigger] self.remaining@[b]);
                assert(forall|a: int| self.pos <= a < self.remaining@.len() ==> !self.emitted@.contains(#[trigger] self.remaining@[a]));
                assert forall|i2: usize| i2 < n implies self.emitted@.contains(i2) || (exists|a: int|
                    self.pos <= a < self.remaining@.len() && #[trigger] self.remaining@[a] == i2)
                    || (exists|b: int|
                    0 <= b < self.deferred@.len() && #[trigger] self.deferred@[b] == i2) by {
                    if !self.emitted@.contains(i2) {
                        let b = choose|b: int| 0 <= b < def.len() && #[trigger] def[b] == i2;
                        assert(self.remaining@[b] == i2);
                    }
                }
                assert(self.wf());
            }

        }
    }

    /// Records the outcome of the awaited creation.
    pub fn record(&mut self, ok: bool)
        requires
            old(self).wf(),
            old(self).awaiting() is Some,
        ensures
            final(self).wf(),
            final(self).count() == old(self).count(),
            forall|i: int| 0 <= i < old(self).count() ==> final(self).key(i) == old(self).key(i)
                && final(self).parent_key(i) == old(self).parent_key(i),
            final(self).attempted() == old(self).attempted(),
            final(self).in_fallback() == old(self).in_fallback(),
            final(self).awaiting() is None,
            final(self).created() == if ok {
                old(self).created().push(old(self).awaiting()->0)
            } else {
                old(self).created()
            },
    {
        let i = match self.awaiting {
            Some(i) => i,
            None => 0,
        };
        if ok {
            self.created.push(i);
        }
        self.awaiting = None;
        if !self.fallback {
            self.progress = true;
        }
        proof {
            let n = self.keys@.len();
            let rem = self.remaining@;
            let def = self.deferred@;
            assert(forall|c: int| 0 <= c < self.created@.len() ==> #[trigger] self.created@[c] < n);
            assert(forall|c: int|
            0 <= c < self.created@.len() ==> self.emitted@.contains(#[trigger] self.created@[c]));
            assert(forall|i: usize|
            i < n ==> self.emitted@.contains(i) || (exists|a: int|
                self.pos <= a < rem.len() && #[trigger] rem[a] == i) || (exists|b: int|
                0 <= b < def.len() && #[trigger] def[b] == i));
        }
    }
}

} // verus!
