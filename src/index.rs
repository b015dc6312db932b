use vstd::prelude::*;
use vstd::string::*;

use crate::schema::{MyModel, Structure, StructureView};

verus! {

/// Why an index could not be built over a store: two entities claim one key.
#[derive(Debug)]
pub enum IndexError {
    DuplicateModelUuid(String),
    DuplicateModelName(String),
    DuplicateFieldUuid(String),
}

impl StructureView {
    /// Two different models carry the UUID `u`.
    pub open spec fn model_uuid_shared(self, u: Seq<char>) -> bool {
        exists|i: int, j: int|
            0 <= i < self.models.len() && 0 <= j < self.models.len() && i != j
                && #[trigger] self.models[i].meta.uuid == u && #[trigger] self.models[j].meta.uuid == u
    }

    /// Two different models carry the display name `n`.
    pub open spec fn model_name_shared(self, n: Seq<char>) -> bool {
        exists|i: int, j: int|
            0 <= i < self.models.len() && 0 <= j < self.models.len() && i != j
                && #[trigger] self.models[i].object_name == n && #[trigger] self.models[j].object_name == n
    }

    /// Two different fields carry the UUID `f`.
    pub open spec fn field_uuid_shared(self, f: Seq<char>) -> bool {
        exists|i1: int, j1: int, i2: int, j2: int|
            self.is_field(i1, j1) && self.is_field(i2, j2) && (i1 != i2 || j1 != j2)
                && #[trigger] self.field_uuid(i1, j1) == f && #[trigger] self.field_uuid(i2, j2) == f
    }

    /// The model whose UUID is `u` (meaningful where one exists).
    pub open spec fn model_with_uuid(self, u: Seq<char>) -> crate::schema::ModelView {
        let i = choose|i: int| 0 <= i < self.models.len() && #[trigger] self.models[i].meta.uuid == u;
        self.models[i]
    }

    /// The model whose display name is `n` (meaningful where one exists).
    pub open spec fn model_with_name(self, n: Seq<char>) -> crate::schema::ModelView {
        let i = choose|i: int| 0 <= i < self.models.len() && #[trigger] self.models[i].object_name == n;
        self.models[i]
    }
}

/// A field entry `(a, b)` was visited before field `j` of model `i`.
pub open spec fn visited_before(i: int, j: int, a: int, b: int) -> bool {
    a < i || (a == i && b < j)
}

/// Lookup tables over one schema snapshot, which the index owns.
///
/// `by_uuid` and `by_name` hold, for each model in store order, its UUID or
/// display name and its position; `by_field` holds, for every field of every
/// model, its UUID with the positions of its owner and of itself.
pub struct UuidIndexes {
    data: Structure,
    by_uuid: Vec<(String, usize)>,
    by_name: Vec<(String, usize)>,
    by_field: Vec<(String, usize, usize)>,
}

/// Position of the first entry keyed `key`, if any.
fn find_key(table: &Vec<(String, usize)>, key: &String) -> (r: Option<usize>)
    ensures
        match r {
            Some(k) => k < table.len() && table@[k as int].0@ == key@,
            None => forall|k: int| 0 <= k < table.len() ==> #[trigger] table@[k].0@ != key@,
        },
{
    let n = table.len();
    for k in 0..n
        invariant
            n == table.len(),
            forall|t: int| 0 <= t < k ==> #[trigger] table@[t].0@ != key@,
    {
        if table[k].0 == *key {
            return Some(k);
        }
    }
    None
}

/// Position of the first field entry keyed `key`, if any.
fn find_field(table: &Vec<(String, usize, usize)>, key: &String) -> (r: Option<usize>)
    ensures
        match r {
            Some(k) => k < table.len() && table@[k as int].0@ == key@,
            None => forall|k: int| 0 <= k < table.len() ==> #[trigger] table@[k].0@ != key@,
        },
{
    let n = table.len();
    for k in 0..n
        invariant
            n == table.len(),
            forall|t: int| 0 <= t < k ==> #[trigger] table@[t].0@ != key@,
    {
        if table[k].0 == *key {
            return Some(k);
        }
    }
    None
}

impl UuidIndexes {
    /// The snapshot the index was built from.
    pub closed spec fn store(&self) -> StructureView {
        self.data@
    }

    /// The tables describe exactly the snapshot, whose identities are unique.
    pub closed spec fn wf(&self) -> bool {
        let s = self.data@;
        &&& s.identities_unique()
        &&& self.by_uuid.len() == s.models.len()
        &&& self.by_name.len() == s.models.len()
        &&& forall|k: int|
            0 <= k < self.by_uuid.len() ==> (#[trigger] self.by_uuid@[k]).0@
                == s.models[k].meta.uuid && self.by_uuid@[k].1 == k
        &&& forall|k: int|
            0 <= k < self.by_name.len() ==> (#[trigger] self.by_name@[k]).0@
                == s.models[k].object_name && self.by_name@[k].1 == k
        &&& forall|k: int|
            0 <= k < self.by_field.len() ==> s.is_field(
                (#[trigger] self.by_field@[k]).1 as int,
                self.by_field@[k].2 as int,
            ) && self.by_field@[k].0@ == s.field_uuid(
                self.by_field@[k].1 as int,
                self.by_field@[k].2 as int,
            )
        &&& forall|i: int, j: int|
            #![trigger s.is_field(i, j)]
            s.is_field(i, j) ==> exists|k: int|
                0 <= k < self.by_field.len() && (#[trigger] self.by_field@[k]).1 == i
                    && self.by_field@[k].2 == j
    }

    /// Builds the three tables in one pass over the store, refusing any store in
    /// which two models share a UUID or a display name, or two fields share a UUID.
    pub fn new(data: Structure) -> (r: Result<UuidIndexes, IndexError>)
        ensures
            r is Ok <==> data@.identities_unique(),
            r matches Ok(idx) ==> idx.wf() && idx.store() == data@,
            r matches Err(IndexError::DuplicateModelUuid(u)) ==> data@.model_uuid_shared(u@),
            r matches Err(IndexError::DuplicateModelName(n)) ==> data@.model_name_shared(n@),
            r matches Err(IndexError::DuplicateFieldUuid(f)) ==> data@.field_uuid_shared(f@),
    {
        let ghost s = data@;
        let mut by_uuid: Vec<(String, usize)> = Vec::new();
        let mut by_name: Vec<(String, usize)> = Vec::new();
        let mut by_field: Vec<(String, usize, usize)> = Vec::new();
        let m = data.models.len();
        for i in 0..m
            invariant
                m == data.models.len(),
                s == data@,
                by_uuid.len() == i,
                by_name.len() == i,
                forall|k: int|
                    0 <= k < i ==> (#[trigger] by_uuid@[k]).0@ == s.models[k].meta.uuid
                        && by_uuid@[k].1 == k,
                forall|k: int|
                    0 <= k < i ==> (#[trigger] by_name@[k]).0@ == s.models[k].object_name
                        && by_name@[k].1 == k,
                forall|a: int, b: int|
                    #![trigger s.models[a].meta.uuid, s.models[b].meta.uuid]
                    0 <= a < i && 0 <= b < i && a != b ==> s.models[a].meta.uuid
                        != s.models[b].meta.uuid,
                forall|a: int, b: int|
                    #![trigger s.models[a].object_name, s.models[b].object_name]
                    0 <= a < i && 0 <= b < i && a != b ==> s.models[a].object_name
                        != s.models[b].object_name,
                forall|k: int|
                    0 <= k < by_field.len() ==> s.is_field(
                        (#[trigger] by_field@[k]).1 as int,
                        by_field@[k].2 as int,
                    ) && by_field@[k].1 < i && by_field@[k].0@ == s.field_uuid(
                        by_field@[k].1 as int,
                        by_field@[k].2 as int,
                    ),
                forall|a: int, b: int|
                    #![trigger s.is_field(a, b)]
                    s.is_field(a, b) && a < i ==> exists|k: int|
                        0 <= k < by_field.len() && (#[trigger] by_field@[k]).1 == a
                            && by_field@[k].2 == b,
                forall|i1: int, j1: int, i2: int, j2: int|
                    #![trigger s.field_uuid(i1, j1), s.field_uuid(i2, j2)]
                    s.is_field(i1, j1) && s.is_field(i2, j2) && i1 < i && i2 < i && (i1 != i2
                        || j1 != j2) ==> s.field_uuid(i1, j1) != s.field_uuid(i2, j2),
        {
            let model = &data.models[i];
            assert(model@ == s.models[i as int]);
            let uuid = model.meta_data.uuid.clone();
            match find_key(&by_uuid, &uuid) {
                Some(k) => {
                    assert(s.models[k as int].meta.uuid == uuid@);
                    assert(s.models[i as int].meta.uuid == uuid@);
                    assert(s.model_uuid_shared(uuid@));
                    return Err(IndexError::DuplicateModelUuid(uuid));
                },
                None => {},
            }
            let name = model.object_name.clone();
            match find_key(&by_name, &name) {
                Some(k) => {
                    assert(s.models[k as int].object_name == name@);
                    assert(s.models[i as int].object_name == name@);
                    assert(s.model_name_shared(name@));
                    return Err(IndexError::DuplicateModelName(name));
                },
                None => {},
            }
            assert forall|a: int, b: int|
                #![trigger s.models[a].meta.uuid, s.models[b].meta.uuid]
                0 <= a < i + 1 && 0 <= b < i + 1 && a != b implies s.models[a].meta.uuid
                    != s.models[b].meta.uuid by {
                if a == i {
                    assert(by_uuid@[b].0@ != uuid@);
                } else if b == i {
                    assert(by_uuid@[a].0@ != uuid@);
                }
            }
            assert forall|a: int, b: int|
                #![trigger s.models[a].object_name, s.models[b].object_name]
                0 <= a < i + 1 && 0 <= b < i + 1 && a != b implies s.models[a].object_name
                    != s.models[b].object_name by {
                if a == i {
                    assert(by_name@[b].0@ != name@);
                } else if b == i {
                    assert(by_name@[a].0@ != name@);
                }
            }
            by_uuid.push((uuid, i));
            by_name.push((name, i));
            let nf = model.fields.len();
            assert(s.models[i as int].fields.len() == nf);
            for j in 0..nf
                invariant
                    m == data.models.len(),
                    i < m,
                    s == data@,
                    model == &data.models[i as int],
                    nf == s.models[i as int].fields.len(),
                    nf == model.fields.len(),
                    forall|k: int|
                        0 <= k < by_field.len() ==> s.is_field(
                            (#[trigger] by_field@[k]).1 as int,
                            by_field@[k].2 as int,
                        ) && visited_before(i as int, j as int, by_field@[k].1 as int, by_field@[k].2 as int)
                        && by_field@[k].0@ == s.field_uuid(
                            by_field@[k].1 as int,
                            by_field@[k].2 as int,
                        ),
                    forall|a: int, b: int|
                        #![trigger s.is_field(a, b)]
                        s.is_field(a, b) && visited_before(i as int, j as int, a, b) ==> exists|k: int|
                            0 <= k < by_field.len() && (#[trigger] by_field@[k]).1 == a
                                && by_field@[k].2 == b,
                    forall|i1: int, j1: int, i2: int, j2: int|
                        #![trigger s.field_uuid(i1, j1), s.field_uuid(i2, j2)]
                        s.is_field(i1, j1) && s.is_field(i2, j2)
                            && visited_before(i as int, j as int, i1, j1)
                            && visited_before(i as int, j as int, i2, j2)
                            && (i1 != i2 || j1 != j2) ==> s.field_uuid(i1, j1) != s.field_uuid(i2, j2),
            {
                let fuuid = model.fields[j].meta_data.uuid.clone();
                assert(fuuid@ == s.field_uuid(i as int, j as int));
                match find_field(&by_field, &fuuid) {
                    Some(k) => {
                        let ghost a = by_field@[k as int].1 as int;
                        let ghost b = by_field@[k as int].2 as int;
                        assert(s.field_uuid(a, b) == fuuid@);
                        assert(s.field_uuid(i as int, j as int) == fuuid@);
                        assert(s.field_uuid_shared(fuuid@));
                        return Err(IndexError::DuplicateFieldUuid(fuuid));
                    },
                    None => {},
                }
                let ghost old_table = by_field@;
                by_field.push((fuuid, i, j));
                assert forall|a: int, b: int|
                    #![trigger s.is_field(a, b)]
                    s.is_field(a, b) && visited_before(i as int, j + 1, a, b) implies exists|k: int|
                        0 <= k < by_field.len() && (#[trigger] by_field@[k]).1 == a
                            && by_field@[k].2 == b by {
                    if a == i && b == j {
                        assert(by_field@[old_table.len() as int].1 == a);
                    } else {
                        assert(visited_before(i as int, j as int, a, b));
                        let k = choose|k: int|
                            0 <= k < old_table.len() && (#[trigger] old_table[k]).1 == a
                                && old_table[k].2 == b;
                        assert(by_field@[k] == old_table[k]);
                    }
                }
                assert forall|i1: int, j1: int, i2: int, j2: int|
                    #![trigger s.field_uuid(i1, j1), s.field_uuid(i2, j2)]
                    s.is_field(i1, j1) && s.is_field(i2, j2)
                        && visited_before(i as int, j + 1, i1, j1)
                        && visited_before(i as int, j + 1, i2, j2)
                        && (i1 != i2 || j1 != j2) implies s.field_uuid(i1, j1) != s.field_uuid(i2, j2) by {
                    if i1 == i && j1 == j {
                        assert(visited_before(i as int, j as int, i2, j2));
                        let k = choose|k: int|
                            0 <= k < old_table.len() && (#[trigger] old_table[k]).1 == i2
                                && old_table[k].2 == j2;
                        assert(old_table[k].0@ != fuuid@);
                    } else if i2 == i && j2 == j {
                        assert(visited_before(i as int, j as int, i1, j1));
                        let k = choose|k: int|
                            0 <= k < old_table.len() && (#[trigger] old_table[k]).1 == i1
                                && old_table[k].2 == j1;
                        assert(old_table[k].0@ != fuuid@);
                    }
                }
            }
        }
        let idx = UuidIndexes { data, by_uuid, by_name, by_field };
        assert(s.identities_unique());
        Ok(idx)
    }

    /// An index only stands over a store whose identities are unique.
    pub proof fn lemma_identities_unique(&self)
        requires
            self.wf(),
        ensures
            self.store().identities_unique(),
    {
    }

    /// The snapshot itself.
    pub fn data(&self) -> (r: &Structure)
        ensures
            r@ == self.store(),
    {
        &self.data
    }

    fn position_of_uuid(&self, uuid: &str) -> (r: Option<usize>)
        requires
            self.wf(),
        ensures
            match r {
                Some(k) => k < self.store().models.len() && self.store().models[k as int].meta.uuid
                    == uuid@,
                None => !self.store().has_model_uuid(uuid@),
            },
    {
        let key = String::from_str(uuid);
        match find_key(&self.by_uuid, &key) {
            Some(k) => Some(self.by_uuid[k].1),
            None => {
                assert forall|i: int| 0 <= i < self.store().models.len() implies
                    #[trigger] self.store().models[i].meta.uuid != uuid@ by {
                    assert(self.by_uuid@[i].0@ != key@);
                }
                None
            },
        }
    }

    fn position_of_name(&self, name: &str) -> (r: Option<usize>)
        requires
            self.wf(),
        ensures
            match r {
                Some(k) => k < self.store().models.len() && self.store().models[k as int].object_name
                    == name@,
                None => !self.store().has_model_name(name@),
            },
    {
        let key = String::from_str(name);
        match find_key(&self.by_name, &key) {
            Some(k) => Some(self.by_name[k].1),
            None => {
                assert forall|i: int| 0 <= i < self.store().models.len() implies
                    #[trigger] self.store().models[i].object_name != name@ by {
                    assert(self.by_name@[i].0@ != key@);
                }
                None
            },
        }
    }

    /// Whether some model of the snapshot has the UUID `uuid`.
    pub fn has_model(&self, uuid: &str) -> (r: bool)
        requires
            self.wf(),
        ensures
            r == self.store().has_model_uuid(uuid@),
    {
        self.position_of_uuid(uuid).is_some()
    }

    /// Whether some model of the snapshot has the display name `name`.
    pub fn has_model_name(&self, name: &str) -> (r: bool)
        requires
            self.wf(),
        ensures
            r == self.store().has_model_name(name@),
    {
        self.position_of_name(name).is_some()
    }

    /// The model with UUID `uuid`, or `None` where there is none.
    pub fn get_model(&self, uuid: &str) -> (r: Option<&MyModel>)
        requires
            self.wf(),
        ensures
            r is Some <==> self.store().has_model_uuid(uuid@),
            r matches Some(m) ==> m@ == self.store().model_with_uuid(uuid@) && m@.meta.uuid == uuid@,
    {
        match self.position_of_uuid(uuid) {
            Some(k) => {
                let ghost s = self.store();
                assert(self.data.models@[k as int]@ == s.models[k as int]);
                assert(s.has_model_uuid(uuid@));
                proof {
                    let i = choose|i: int| 0 <= i < s.models.len() && #[trigger] s.models[i].meta.uuid == uuid@;
                    assert(s.models[i].meta.uuid == s.models[k as int].meta.uuid);
                }
                Some(&self.data.models[k])
            },
            None => None,
        }
    }

    /// The model with display name `name`, or `None` where there is none.
    pub fn get_model_by_name(&self, name: &str) -> (r: Option<&MyModel>)
        requires
            self.wf(),
        ensures
            r is Some <==> self.store().has_model_name(name@),
            r matches Some(m) ==> m@ == self.store().model_with_name(name@) && m@.object_name == name@,
    {
        match self.position_of_name(name) {
            Some(k) => {
                let ghost s = self.store();
                assert(self.data.models@[k as int]@ == s.models[k as int]);
                assert(s.has_model_name(name@));
                proof {
                    let i = choose|i: int| 0 <= i < s.models.len() && #[trigger] s.models[i].object_name == name@;
                    assert(s.models[i].object_name == s.models[k as int].object_name);
                }
                Some(&self.data.models[k])
            },
            None => None,
        }
    }

    /// The UUID of the model that declares the field `field`, or `None` where no
    /// model of the snapshot declares it.
    pub fn get_model_from_field(&self, field: &str) -> (r: Option<&String>)
        requires
            self.wf(),
        ensures
            match r {
                Some(u) => self.store().field_owner(field@) == Some(u@),
                None => self.store().field_owner(field@) is None,
            },
    {
        let ghost s = self.store();
        let key = String::from_str(field);
        match find_field(&self.by_field, &key) {
            Some(k) => {
                let a = self.by_field[k].1;
                let b = self.by_field[k].2;
                assert(s.field_uuid(a as int, b as int) == field@);
                assert(s.has_field(field@));
                proof {
                    let (i, j) = choose|i: int, j: int| s.is_field(i, j) && #[trigger] s.field_uuid(i, j) == field@;
                    assert(s.field_uuid(i, j) == s.field_uuid(a as int, b as int));
                }
                assert(self.data.models@[a as int]@ == s.models[a as int]);
                Some(&self.data.models[a].meta_data.uuid)
            },
            None => {
                assert forall|i: int, j: int| s.is_field(i, j) implies #[trigger] s.field_uuid(i, j) != field@ by {
                    let k = choose|k: int|
                        0 <= k < self.by_field.len() && (#[trigger] self.by_field@[k]).1 == i
                            && self.by_field@[k].2 == j;
                    assert(self.by_field@[k].0@ != key@);
                }
                None
            },
        }
    }
}

/// Resolves user input that may be a display name or a UUID: a name match wins,
/// then a UUID match; otherwise there is no match.
pub fn get_model_by<'a>(indexes: &'a UuidIndexes, model_name_or_uuid: &str) -> (r: Option<&'a MyModel>)
    requires
        indexes.wf(),
    ensures
        indexes.store().has_model_name(model_name_or_uuid@) ==> (r matches Some(m) && m@
            == indexes.store().model_with_name(model_name_or_uuid@)),
        !indexes.store().has_model_name(model_name_or_uuid@) && indexes.store().has_model_uuid(
            model_name_or_uuid@,
        ) ==> (r matches Some(m) && m@ == indexes.store().model_with_uuid(model_name_or_uuid@)),
        !indexes.store().has_model_name(model_name_or_uuid@) && !indexes.store().has_model_uuid(
            model_name_or_uuid@,
        ) ==> r is None,
{
    if indexes.has_model_name(model_name_or_uuid) {
        indexes.get_model_by_name(model_name_or_uuid)
    } else if indexes.has_model(model_name_or_uuid) {
        indexes.get_model(model_name_or_uuid)
    } else {
        None
    }
}

/// In a store whose identities are unique, a UUID is known to the index exactly
/// when some model carries it, and looking it up yields that very model.
pub proof fn lemma_uuid_lookup_exact(s: StructureView, u: Seq<char>)
    requires
        s.identities_unique(),
    ensures
        s.has_model_uuid(u) <==> s.models.map_values(|m: crate::schema::ModelView| m.meta.uuid).contains(u),
        forall|i: int|
            0 <= i < s.models.len() && #[trigger] s.models[i].meta.uuid == u ==> s.model_with_uuid(u)
                == s.models[i],
{
    let uuids = s.models.map_values(|m: crate::schema::ModelView| m.meta.uuid);
    if s.has_model_uuid(u) {
        let i = choose|i: int| 0 <= i < s.models.len() && #[trigger] s.models[i].meta.uuid == u;
        assert(uuids[i] == u);
    }
    if uuids.contains(u) {
        let i = choose|i: int| 0 <= i < uuids.len() && uuids[i] == u;
        assert(s.models[i].meta.uuid == u);
    }
    assert forall|i: int|
        0 <= i < s.models.len() && #[trigger] s.models[i].meta.uuid == u implies s.model_with_uuid(u)
            == s.models[i] by {
        let k = choose|k: int| 0 <= k < s.models.len() && #[trigger] s.models[k].meta.uuid == u;
        assert(s.models[k].meta.uuid == s.models[i].meta.uuid);
    }
}

/// In a store whose identities are unique, the field declared as field `j` of
/// model `i` resolves to the UUID of model `i`.
pub proof fn lemma_field_resolves_to_owner(s: StructureView, i: int, j: int)
    requires
        s.identities_unique(),
        s.is_field(i, j),
    ensures
        s.field_owner(s.field_uuid(i, j)) == Some(s.models[i].meta.uuid),
{
    let f = s.field_uuid(i, j);
    assert(s.has_field(f));
    let (a, b) = choose|a: int, b: int| s.is_field(a, b) && #[trigger] s.field_uuid(a, b) == f;
    assert(s.field_uuid(a, b) == s.field_uuid(i, j));
}

} // verus!
