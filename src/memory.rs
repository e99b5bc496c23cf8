use vstd::prelude::*;

use crate::error::{CatalogError, TransportError};
use crate::identifier::{valid_parts, views, Namespace, TableIdentifier};
use crate::models::table_identifier::TableIdentifier as ServiceTableIdentifier;

verus! {

/// The state of a catalog service: for each registered table, in order of
/// registration, its identifier segments and its metadata location.
pub type CatalogState = Seq<(Seq<Seq<char>>, Seq<char>)>;

/// No identifier is registered twice, and each is well formed.
pub open spec fn well_keyed(m: CatalogState) -> bool {
    &&& forall|i: int, j: int|
        0 <= i < m.len() && 0 <= j < m.len() && #[trigger] m[i].0 == #[trigger] m[j].0 ==> i == j
    &&& forall|i: int| 0 <= i < m.len() ==> valid_parts(#[trigger] m[i].0)
}

/// Whether `id` is registered.
pub open spec fn is_registered(m: CatalogState, id: Seq<Seq<char>>) -> bool {
    exists|i: int| 0 <= i < m.len() && #[trigger] m[i].0 == id
}

/// The position at which `id` is registered.
pub open spec fn index_of(m: CatalogState, id: Seq<Seq<char>>) -> int {
    choose|i: int| 0 <= i < m.len() && #[trigger] m[i].0 == id
}

/// The metadata location that `id` points to, if it is registered.
pub open spec fn location_in(m: CatalogState, id: Seq<Seq<char>>) -> Option<Seq<char>> {
    if is_registered(m, id) {
        Some(m[index_of(m, id)].1)
    } else {
        None
    }
}

/// A pointer swap of `id` that names `previous` as the last known location
/// is accepted exactly when the pointer still holds `previous`.
pub open spec fn swap_accepted(m: CatalogState, id: Seq<Seq<char>>, previous: Seq<char>) -> bool {
    location_in(m, id) == Some(previous)
}

/// The state after registering `id` at `location`.
pub open spec fn after_create(m: CatalogState, id: Seq<Seq<char>>, location: Seq<char>) -> CatalogState {
    m.push((id, location))
}

/// The state after removing the entry of `id`.
pub open spec fn after_drop(m: CatalogState, id: Seq<Seq<char>>) -> CatalogState {
    m.remove(index_of(m, id))
}

/// The state after pointing `id` at `location`.
pub open spec fn after_update(m: CatalogState, id: Seq<Seq<char>>, location: Seq<char>) -> CatalogState {
    m.update(index_of(m, id), (id, location))
}

/// The identifiers registered directly under namespace `ns`, in order of
/// registration.
pub open spec fn tables_in(m: CatalogState, ns: Seq<Seq<char>>) -> Seq<Seq<Seq<char>>>
    decreases m.len(),
{
    if m.len() == 0 {
        seq![]
    } else {
        let rest = tables_in(m.drop_last(), ns);
        if m.last().0.drop_last() == ns {
            rest.push(m.last().0)
        } else {
            rest
        }
    }
}

/// Whether namespace `n` lies directly under `parent`; with no parent,
/// whether it is a top-level namespace.
pub open spec fn is_child(n: Seq<Seq<char>>, parent: Option<Seq<Seq<char>>>) -> bool {
    match parent {
        None => n.len() == 1,
        Some(p) => n.len() >= 1 && n.drop_last() == p,
    }
}

/// The segments of an optional parent namespace.
pub open spec fn parent_view(parent: Option<&Namespace>) -> Option<Seq<Seq<char>>> {
    match parent {
        Some(p) => Some(p@),
        None => None,
    }
}

/// The namespaces of `created` that lie directly under `parent`, in order of
/// creation.
pub open spec fn namespaces_under(
    created: Seq<Seq<Seq<char>>>,
    parent: Option<Seq<Seq<char>>>,
) -> Seq<Seq<Seq<char>>>
    decreases created.len(),
{
    if created.len() == 0 {
        seq![]
    } else {
        let rest = namespaces_under(created.drop_last(), parent);
        if is_child(created.last(), parent) {
            rest.push(created.last())
        } else {
            rest
        }
    }
}

/// In a well-keyed state the registered position of `id` is the one that
/// holds it.
proof fn lemma_index_of(m: CatalogState, id: Seq<Seq<char>>, i: int)
    requires
        well_keyed(m),
        0 <= i < m.len(),
        m[i].0 == id,
    ensures
        is_registered(m, id),
        index_of(m, id) == i,
        location_in(m, id) == Some(m[i].1),
{
}

/// A catalog service held in memory. It keeps one metadata pointer per
/// table and swaps a pointer only when the caller names its current value.
pub struct MemoryCatalog {
    entries: Vec<(TableIdentifier, String)>,
    namespaces: Vec<Namespace>,
}

impl View for MemoryCatalog {
    type V = CatalogState;

    closed spec fn view(&self) -> CatalogState {
        self.entries@.map_values(|e: (TableIdentifier, String)| (e.0@, e.1@))
    }
}

impl MemoryCatalog {
    pub open spec fn wf(&self) -> bool {
        well_keyed(self@)
    }

    /// The namespaces created so far, in order of creation.
    pub closed spec fn spec_namespaces(&self) -> Seq<Seq<Seq<char>>> {
        self.namespaces@.map_values(|n: Namespace| n@)
    }

    /// A service with no tables.
    pub fn new() -> (r: MemoryCatalog)
        ensures
            r@ == Seq::<(Seq<Seq<char>>, Seq<char>)>::empty(),
            r.spec_namespaces() == Seq::<Seq<Seq<char>>>::empty(),
            r.wf(),
    {
        let r = MemoryCatalog { entries: Vec::new(), namespaces: Vec::new() };
        assert(r@ =~= Seq::<(Seq<Seq<char>>, Seq<char>)>::empty());
        assert(r.spec_namespaces() =~= Seq::<Seq<Seq<char>>>::empty());
        r
    }

    /// The position of `id`, if it is registered.
    fn find(&self, id: &TableIdentifier) -> (r: Option<usize>)
        requires
            self.wf(),
        ensures
            match r {
                Some(i) => i < self@.len() && self@[i as int].0 == id@ && index_of(self@, id@)
                    == i,
                None => !is_registered(self@, id@),
            },
    {
        let mut i: usize = 0;
        while i < self.entries.len()
            invariant
                0 <= i <= self.entries.len(),
                self.wf(),
                forall|k: int| 0 <= k < i ==> #[trigger] self@[k].0 != id@,
            decreases self.entries.len() - i,
        {
            if self.entries[i].0.same(id) {
                proof {
                    lemma_index_of(self@, id@, i as int);
                }
                return Some(i);
            }
            i += 1;
        }
        None
    }

    /// Registers `id` at `location`; a conflict when it is already
    /// registered, which leaves the service unchanged.
    pub fn create_table(&mut self, id: &TableIdentifier, location: &String) -> (r: Result<
        (),
        TransportError,
    >)
        requires
            old(self).wf(),
            id.wf(),
        ensures
            final(self).wf(),
            final(self).spec_namespaces() == old(self).spec_namespaces(),
            is_registered(old(self)@, id@) ==> r == Err::<(), TransportError>(TransportError::Conflict)
                && final(self)@ == old(self)@,
            !is_registered(old(self)@, id@) ==> r is Ok && final(self)@ == after_create(
                old(self)@,
                id@,
                location@,
            ),
            location_in(final(self)@, id@) == if r is Ok {
                Some(location@)
            } else {
                location_in(old(self)@, id@)
            },
    {
        match self.find(id) {
            Some(_) => Err(TransportError::Conflict),
            None => {
                let ghost prev = self@;
                self.entries.push((id.duplicate(), location.clone()));
                assert(self@ =~= after_create(prev, id@, location@));
                proof {
                    lemma_index_of(self@, id@, prev.len() as int);
                }
                Ok(())
            },
        }
    }

    /// Success when `id` is registered, not-found when it is not.
    pub fn table_exists(&self, id: &TableIdentifier) -> (r: Result<(), TransportError>)
        requires
            self.wf(),
        ensures
            r is Ok <==> is_registered(self@, id@),
            r is Err ==> r == Err::<(), TransportError>(TransportError::NotFound),
    {
        match self.find(id) {
            Some(_) => Ok(()),
            None => Err(TransportError::NotFound),
        }
    }

    /// Removes the entry of `id`; not-found when it is not registered, which
    /// leaves the service unchanged.
    pub fn drop_table(&mut self, id: &TableIdentifier) -> (r: Result<(), TransportError>)
        requires
            old(self).wf(),
        ensures
            final(self).wf(),
            final(self).spec_namespaces() == old(self).spec_namespaces(),
            is_registered(old(self)@, id@) ==> r is Ok && final(self)@ == after_drop(
                old(self)@,
                id@,
            ),
            !is_registered(old(self)@, id@) ==> r == Err::<(), TransportError>(
                TransportError::NotFound,
            ) && final(self)@ == old(self)@,
            !is_registered(final(self)@, id@),
    {
        match self.find(id) {
            Some(i) => {
                let ghost prev = self@;
                self.entries.remove(i);
                assert(self@ =~= prev.remove(i as int));
                assert(!is_registered(self@, id@)) by {
                    if is_registered(self@, id@) {
                        let j = choose|j: int| 0 <= j < self@.len() && #[trigger] self@[j].0 == id@;
                        if j < i {
                            assert(prev[j].0 == id@);
                        } else {
                            assert(prev[j + 1].0 == id@);
                        }
                    }
                }
                Ok(())
            },
            None => Err(TransportError::NotFound),
        }
    }

    /// The metadata location that `id` points to; not-found when it is not
    /// registered.
    pub fn load_location(&self, id: &TableIdentifier) -> (r: Result<String, TransportError>)
        requires
            self.wf(),
        ensures
            match location_in(self@, id@) {
                Some(l) => r matches Ok(s) && s@ == l,
                None => r == Err::<String, TransportError>(TransportError::NotFound),
            },
    {
        match self.find(id) {
            Some(i) => {
                proof {
                    lemma_index_of(self@, id@, i as int);
                }
                Ok(self.entries[i].1.clone())
            },
            None => Err(TransportError::NotFound),
        }
    }

    /// Points `id` at `location` if it still points at `previous`. Not-found
    /// when `id` is not registered and a conflict when its pointer differs
    /// from `previous`; both leave the service unchanged.
    pub fn update_location(
        &mut self,
        id: &TableIdentifier,
        location: &String,
        previous: &String,
    ) -> (r: Result<(), TransportError>)
        requires
            old(self).wf(),
        ensures
            final(self).wf(),
            final(self).spec_namespaces() == old(self).spec_namespaces(),
            !is_registered(old(self)@, id@) ==> r == Err::<(), TransportError>(
                TransportError::NotFound,
            ) && final(self)@ == old(self)@,
            is_registered(old(self)@, id@) && !swap_accepted(old(self)@, id@, previous@) ==> r
                == Err::<(), TransportError>(TransportError::Conflict) && final(self)@ == old(
                self,
            )@,
            swap_accepted(old(self)@, id@, previous@) ==> r is Ok && final(self)@ == after_update(
                old(self)@,
                id@,
                location@,
            ),
            r is Ok ==> location_in(final(self)@, id@) == Some(location@),
    {
        match self.find(id) {
            Some(i) => {
                proof {
                    lemma_index_of(self@, id@, i as int);
                }
                if self.entries[i].1 != *previous {
                    return Err(TransportError::Conflict);
                }
                let ghost prev = self@;
                let entry = (id.duplicate(), location.clone());
                self.entries.set(i, entry);
                assert(self@ =~= after_update(prev, id@, location@));
                proof {
                    lemma_index_of(self@, id@, i as int);
                }
                Ok(())
            },
            None => Err(TransportError::NotFound),
        }
    }

    /// Creates namespace `ns`; a conflict when it exists already, which
    /// leaves the service unchanged.
    pub fn create_namespace(&mut self, ns: &Namespace) -> (r: Result<(), TransportError>)
        ensures
            final(self)@ == old(self)@,
            old(self).spec_namespaces().contains(ns@) ==> r == Err::<(), TransportError>(
                TransportError::Conflict,
            ) && final(self).spec_namespaces() == old(self).spec_namespaces(),
            !old(self).spec_namespaces().contains(ns@) ==> r is Ok && final(self).spec_namespaces()
                == old(self).spec_namespaces().push(ns@),
    {
        let mut i: usize = 0;
        while i < self.namespaces.len()
            invariant
                0 <= i <= self.namespaces.len(),
                forall|k: int| 0 <= k < i ==> #[trigger] self.spec_namespaces()[k] != ns@,
            decreases self.namespaces.len() - i,
        {
            if self.namespaces[i].same(ns) {
                assert(self.spec_namespaces()[i as int] == ns@);
                return Err(TransportError::Conflict);
            }
            i += 1;
        }
        let ghost prev = self.spec_namespaces();
        self.namespaces.push(ns.clone_namespace());
        assert(self.spec_namespaces() =~= prev.push(ns@));
        Ok(())
    }

    /// The segments of each namespace directly under `parent`, or of each
    /// top-level namespace, in order of creation.
    pub fn list_namespaces(&self, parent: Option<&Namespace>) -> (r: Vec<Vec<String>>)
        ensures
            r.len() == namespaces_under(self.spec_namespaces(), parent_view(parent)).len(),
            forall|i: int|
                0 <= i < r.len() ==> #[trigger] views(r@[i]@) == namespaces_under(
                    self.spec_namespaces(),
                    parent_view(parent),
                )[i],
    {
        let ghost want = parent_view(parent);
        let mut r: Vec<Vec<String>> = Vec::new();
        let mut i: usize = 0;
        while i < self.namespaces.len()
            invariant
                0 <= i <= self.namespaces.len(),
                want == parent_view(parent),
                r.len() == namespaces_under(self.spec_namespaces().take(i as int), want).len(),
                forall|k: int|
                    0 <= k < r.len() ==> #[trigger] views(r@[k]@) == namespaces_under(
                        self.spec_namespaces().take(i as int),
                        want,
                    )[k],
            decreases self.namespaces.len() - i,
        {
            let n = &self.namespaces[i];
            let ghost m = self.spec_namespaces().take(i + 1);
            assert(m.drop_last() =~= self.spec_namespaces().take(i as int));
            assert(m.last() == n@);
            let levels = n.levels();
            let child = match parent {
                None => levels.len() == 1,
                Some(p) => levels.len() >= 1 && n.is_child_of(p),
            };
            if child {
                let ghost prev = r@;
                r.push(crate::identifier::copy_strings(levels));
                assert forall|k: int| 0 <= k < r.len() implies #[trigger] views(r@[k]@)
                    == namespaces_under(m, want)[k] by {
                    if k < prev.len() {
                        assert(r@[k] == prev[k]);
                    }
                }
            }
            i += 1;
        }
        assert(self.spec_namespaces().take(i as int) =~= self.spec_namespaces());
        r
    }

    /// The tables registered directly under `ns`, in order of registration,
    /// as the service lists them.
    pub fn list_tables(&self, ns: &Namespace) -> (r: Vec<ServiceTableIdentifier>)
        requires
            self.wf(),
        ensures
            r.len() == tables_in(self@, ns@).len(),
            forall|i: int|
                0 <= i < r.len() ==> #[trigger] crate::catalog::entry_parts(r@[i]) == tables_in(
                    self@,
                    ns@,
                )[i],
    {
        let mut r: Vec<ServiceTableIdentifier> = Vec::new();
        let mut i: usize = 0;
        while i < self.entries.len()
            invariant
                0 <= i <= self.entries.len(),
                self.wf(),
                r.len() == tables_in(self@.take(i as int), ns@).len(),
                forall|k: int|
                    0 <= k < r.len() ==> #[trigger] crate::catalog::entry_parts(r@[k])
                        == tables_in(self@.take(i as int), ns@)[k],
            decreases self.entries.len() - i,
        {
            let id = &self.entries[i].0;
            let ghost m = self@.take(i + 1);
            assert(m.drop_last() =~= self@.take(i as int));
            assert(m.last().0 == id@);
            assert(id@.len() >= 2);
            if id.namespace().same(ns) {
                let entry = ServiceTableIdentifier::new(
                    crate::identifier::copy_strings(id.namespace().levels()),
                    id.name().clone(),
                );
                let ghost prev = r@;
                r.push(entry);
                assert(crate::catalog::entry_parts(entry) =~= id@);
                assert forall|k: int| 0 <= k < r.len() implies #[trigger] crate::catalog::entry_parts(
                    r@[k],
                ) == tables_in(m, ns@)[k] by {
                    if k < prev.len() {
                        assert(r@[k] == prev[k]);
                    }
                }
            }
            i += 1;
        }
        assert(self@.take(i as int) =~= self@);
        r
    }
}

/// A change of a table's metadata pointer, opened from a table whose
/// metadata location it remembers as the previous one.
pub struct Transaction<'a> {
    identifier: &'a TableIdentifier,
    previous_location: String,
}

impl<'a> Transaction<'a> {
    /// The identifier of the table.
    pub closed spec fn spec_identifier(&self) -> Seq<Seq<char>> {
        self.identifier@
    }

    /// The metadata location the table had when the transaction was opened.
    pub closed spec fn spec_previous(&self) -> Seq<char> {
        self.previous_location@
    }

    /// A transaction on `identifier` whose table was at `previous_location`.
    pub fn new(identifier: &'a TableIdentifier, previous_location: &String) -> (r: Transaction<'a>)
        ensures
            r.spec_identifier() == identifier@,
            r.spec_previous() == previous_location@,
    {
        Transaction { identifier, previous_location: previous_location.clone() }
    }

    /// The metadata location the table had when the transaction was opened.
    pub fn previous_location(&self) -> (r: &String)
        ensures
            r@ == self.spec_previous(),
    {
        &self.previous_location
    }

    /// Commits by swapping the table's pointer from the remembered location
    /// to `new_location`, then reads the pointer back. A stale remembered
    /// location is a concurrent modification; an unregistered table is
    /// not-found. A failed commit leaves the service unchanged.
    pub fn commit(self, catalog: &mut MemoryCatalog, new_location: &String) -> (r: Result<
        String,
        CatalogError,
    >)
        requires
            old(catalog).wf(),
        ensures
            final(catalog).wf(),
            swap_accepted(old(catalog)@, self.spec_identifier(), self.spec_previous()) ==> {
                &&& final(catalog)@ == after_update(
                    old(catalog)@,
                    self.spec_identifier(),
                    new_location@,
                )
                &&& r matches Ok(l) && Some(l@) == location_in(
                    final(catalog)@,
                    self.spec_identifier(),
                )
            },
            !swap_accepted(old(catalog)@, self.spec_identifier(), self.spec_previous()) ==> {
                &&& final(catalog)@ == old(catalog)@
                &&& is_registered(old(catalog)@, self.spec_identifier()) ==> r == Err::<
                    String,
                    CatalogError,
                >(CatalogError::ConcurrentModification)
                &&& !is_registered(old(catalog)@, self.spec_identifier()) ==> r == Err::<
                    String,
                    CatalogError,
                >(CatalogError::CatalogTransportError(TransportError::NotFound))
            },
    {
        let ghost before = catalog@;
        let swapped = catalog.update_location(self.identifier, new_location, &self.previous_location);
        proof {
            if swap_accepted(before, self.identifier@, self.previous_location@) {
                lemma_index_of(catalog@, self.identifier@, index_of(before, self.identifier@));
            }
        }
        match crate::catalog::commit_result(swapped) {
            Ok(()) => match catalog.load_location(self.identifier) {
                Ok(l) => Ok(l),
                Err(e) => Err(CatalogError::CatalogTransportError(e)),
            },
            Err(e) => Err(e),
        }
    }
}

/// Two tables created under one namespace that held none are listed there
/// in the order of their creation.
pub proof fn lemma_two_tables_listed(
    m: CatalogState,
    ns: Seq<Seq<char>>,
    first: Seq<Seq<char>>,
    first_location: Seq<char>,
    second: Seq<Seq<char>>,
    second_location: Seq<char>,
)
    requires
        tables_in(m, ns).len() == 0,
        first.drop_last() == ns,
        second.drop_last() == ns,
    ensures
        tables_in(
            after_create(after_create(m, first, first_location), second, second_location),
            ns,
        ) == seq![first, second],
{
    let m1 = after_create(m, first, first_location);
    let m2 = after_create(m1, second, second_location);
    assert(m1.drop_last() =~= m);
    assert(m2.drop_last() =~= m1);
    assert(tables_in(m1, ns) =~= seq![first]);
    assert(tables_in(m2, ns) =~= seq![first, second]);
}

/// A listing of the namespaces under a parent holds only namespaces that lie
/// directly under it, and every created namespace that does.
pub proof fn lemma_namespace_listing(
    created: Seq<Seq<Seq<char>>>,
    parent: Option<Seq<Seq<char>>>,
    n: Seq<Seq<char>>,
)
    ensures
        namespaces_under(created, parent).contains(n) <==> created.contains(n) && is_child(
            n,
            parent,
        ),
    decreases created.len(),
{
    if created.len() > 0 {
        lemma_namespace_listing(created.drop_last(), parent, n);
        let rest = namespaces_under(created.drop_last(), parent);
        if created.contains(n) && is_child(n, parent) {
            let j = choose|j: int| 0 <= j < created.len() && created[j] == n;
            if j < created.len() - 1 {
                assert(created.drop_last()[j] == n);
            }
        }
        if created.drop_last().contains(n) {
            let j = choose|j: int| 0 <= j < created.drop_last().len() && created.drop_last()[j] == n;
            assert(created[j] == n);
        }
        if is_child(created.last(), parent) {
            assert(rest.push(created.last())[rest.len() as int] == created.last());
            if rest.contains(n) {
                let j = choose|j: int| 0 <= j < rest.len() && rest[j] == n;
                assert(rest.push(created.last())[j] == n);
            }
            if rest.push(created.last()).contains(n) && n != created.last() {
                let j = choose|j: int| 0 <= j < rest.len() + 1 && rest.push(created.last())[j] == n;
                assert(rest[j] == n);
            }
        }
        assert(created[created.len() - 1] == created.last());
    }
}

/// A table that is not registered is registered after its creation and no
/// longer after it is dropped again.
pub proof fn lemma_exists_after_create_until_drop(
    m: CatalogState,
    id: Seq<Seq<char>>,
    location: Seq<char>,
)
    requires
        well_keyed(m),
        valid_parts(id),
        !is_registered(m, id),
    ensures
        is_registered(after_create(m, id, location), id),
        !is_registered(after_drop(after_create(m, id, location), id), id),
{
    let m1 = after_create(m, id, location);
    assert(well_keyed(m1));
    lemma_index_of(m1, id, m.len() as int);
    assert(after_drop(m1, id) =~= m);
}

/// An accepted swap to a new location moves the pointer: a later read of
/// the pointer gives the new location, which differs from the previous one.
pub proof fn lemma_commit_moves_pointer(
    m: CatalogState,
    id: Seq<Seq<char>>,
    previous: Seq<char>,
    location: Seq<char>,
)
    requires
        well_keyed(m),
        swap_accepted(m, id, previous),
        location != previous,
    ensures
        well_keyed(after_update(m, id, location)),
        location_in(after_update(m, id, location), id) == Some(location),
        location_in(after_update(m, id, location), id) != Some(previous),
{
    let i = index_of(m, id);
    let m1 = after_update(m, id, location);
    assert(well_keyed(m1));
    lemma_index_of(m1, id, i);
}

/// Of two writers that read the same location, once the first has moved
/// the pointer elsewhere the second one's swap is refused, and the pointer
/// keeps the first writer's location.
pub proof fn lemma_second_writer_refused(
    m: CatalogState,
    id: Seq<Seq<char>>,
    read: Seq<char>,
    first_location: Seq<char>,
)
    requires
        well_keyed(m),
        location_in(m, id) == Some(read),
        first_location != read,
    ensures
        swap_accepted(m, id, read),
        !swap_accepted(after_update(m, id, first_location), id, read),
        location_in(after_update(m, id, first_location), id) == Some(first_location),
{
    lemma_commit_moves_pointer(m, id, read, first_location);
}

/// A retried swap succeeds with the pointer as freshly read, and fails with
/// any other previous location.
pub proof fn lemma_retry_needs_fresh_read(m: CatalogState, id: Seq<Seq<char>>, stale: Seq<char>)
    requires
        is_registered(m, id),
        location_in(m, id) != Some(stale),
    ensures
        swap_accepted(m, id, location_in(m, id)->0),
        !swap_accepted(m, id, stale),
{
}

} // verus!
