use vstd::prelude::*;

use crate::index::UuidIndexes;
use crate::schema::{ModelView, MyModel, Relation, RelationView, Structure, StructureView};

verus! {

/// Holds of a relation that points at the model with UUID `u`.
pub open spec fn points_at(u: Seq<char>) -> spec_fn(RelationView) -> bool {
    |r: RelationView| r.target_model == u
}

/// The star around `u`: the model with that UUID alone, and every relation that
/// points at it, in store order. Relations keep their source field even where the
/// model declaring it is left out.
pub open spec fn star_around(s: StructureView, u: Seq<char>) -> StructureView {
    StructureView { models: seq![s.model_with_uuid(u)], relations: s.relations.filter(points_at(u)) }
}

/// Narrows the snapshot held by `indexes` to the star around the model with UUID
/// `model_uuid`, and indexes the result afresh. `None` where no model has that UUID.
pub fn rebuild(indexes: &UuidIndexes, model_uuid: &str) -> (r: Option<UuidIndexes>)
    requires
        indexes.wf(),
    ensures
        r is Some <==> indexes.store().has_model_uuid(model_uuid@),
        r matches Some(n) ==> n.wf() && n.store() == star_around(indexes.store(), model_uuid@),
{
    let ghost s = indexes.store();
    let model = match indexes.get_model(model_uuid) {
        Some(m) => m,
        None => return None,
    };
    let data = indexes.data();
    let ghost rs = s.relations;
    let ghost p = points_at(model_uuid@);
    let mut relations: Vec<Relation> = Vec::new();
    let n = data.relations.len();
    for k in 0..n
        invariant
            n == data.relations.len(),
            data@ == s,
            rs == s.relations,
            p == points_at(model_uuid@),
            relations@.map_values(|r: Relation| r@) == rs.take(k as int).filter(p),
    {
        let rel = &data.relations[k];
        assert(rel@ == rs[k as int]);
        let ghost before = relations@.map_values(|r: Relation| r@);
        proof {
            reveal(Seq::filter);
            assert(rs.take(k + 1).drop_last() =~= rs.take(k as int));
            assert(rs.take(k + 1).last() == rs[k as int]);
        }
        let target = String::from_str(model_uuid);
        if rel.target_model == target {
            relations.push(rel.duplicate());
            assert(relations@.map_values(|r: Relation| r@) =~= before.push(rel@));
        }
    }
    assert(rs.take(n as int) =~= rs);
    let only = model.duplicate();
    let ghost mv = only@;
    let models: Vec<MyModel> = vec![only];
    let narrowed = Structure { models, relations };
    assert(narrowed@.models =~= seq![mv]);
    let ghost t = narrowed@;
    assert(t == star_around(s, model_uuid@));
    assert(t.field_uuids_unique()) by {
        assert forall|i1: int, j1: int, i2: int, j2: int|
            #![trigger t.field_uuid(i1, j1), t.field_uuid(i2, j2)]
            t.is_field(i1, j1) && t.is_field(i2, j2) && (i1 != i2 || j1 != j2) implies t.field_uuid(i1, j1)
                != t.field_uuid(i2, j2) by {
            let k = choose|k: int| 0 <= k < s.models.len() && #[trigger] s.models[k].meta.uuid == model_uuid@;
            indexes.lemma_identities_unique();
            assert(s.models[k] == mv);
            assert(i1 == 0 && i2 == 0);
            assert(s.is_field(k, j1) && s.is_field(k, j2));
            assert(s.field_uuid(k, j1) != s.field_uuid(k, j2));
        }
    }
    match UuidIndexes::new(narrowed) {
        Ok(idx) => Some(idx),
        Err(_) => None,
    }
}

proof fn lemma_filter_members(rs: Seq<RelationView>, u: Seq<char>)
    ensures
        forall|r: RelationView|
            #[trigger] rs.filter(points_at(u)).contains(r) <==> rs.contains(r) && r.target_model == u,
    decreases rs.len(),
{
    reveal(Seq::filter);
    if rs.len() > 0 {
        let init = rs.drop_last();
        lemma_filter_members(init, u);
        assert forall|r: RelationView|
            #[trigger] rs.filter(points_at(u)).contains(r) <==> rs.contains(r) && r.target_model == u by {
            if rs.contains(r) && r.target_model == u && r != rs.last() {
                let i = choose|i: int| 0 <= i < rs.len() && rs[i] == r;
                assert(init[i] == r);
            }
            if init.contains(r) {
                let i = choose|i: int| 0 <= i < init.len() && init[i] == r;
                assert(rs[i] == r);
            }
            if rs.filter(points_at(u)).contains(r) && r != rs.last() {
                let f = init.filter(points_at(u));
                let i = choose|i: int| 0 <= i < rs.filter(points_at(u)).len() && rs.filter(points_at(u))[i] == r;
                if points_at(u)(rs.last()) {
                    assert(f.push(rs.last())[i] == r);
                    assert(i < f.len());
                    assert(f[i] == r);
                }
                assert(f.contains(r));
            }
            if rs.filter(points_at(u)).contains(r) && r == rs.last() && r.target_model != u {
                let f = init.filter(points_at(u));
                assert(f.contains(r));
            }
            if r == rs.last() && r.target_model == u {
                let f = init.filter(points_at(u));
                assert(f.push(r)[f.len() as int] == r);
            }
        }
    }
}

proof fn lemma_filter_idempotent(rs: Seq<RelationView>, u: Seq<char>)
    ensures
        rs.filter(points_at(u)).filter(points_at(u)) == rs.filter(points_at(u)),
    decreases rs.len(),
{
    reveal(Seq::filter);
    if rs.len() > 0 {
        let init = rs.drop_last();
        lemma_filter_idempotent(init, u);
        let f = init.filter(points_at(u));
        if points_at(u)(rs.last()) {
            assert(f.push(rs.last()).drop_last() =~= f);
        }
    }
}

/// Extraction is exact: the star around a model that the store holds has that
/// model as its only model, and its relations are exactly those of the store
/// that point at the model.
pub proof fn lemma_star_exact(s: StructureView, u: Seq<char>)
    requires
        s.identities_unique(),
        s.has_model_uuid(u),
    ensures
        star_around(s, u).models.len() == 1,
        forall|m: ModelView|
            #[trigger] star_around(s, u).models.contains(m) <==> s.models.contains(m) && m.meta.uuid == u,
        forall|r: RelationView|
            #[trigger] star_around(s, u).relations.contains(r) <==> s.relations.contains(r)
                && r.target_model == u,
{
    lemma_filter_members(s.relations, u);
    let e = star_around(s, u);
    let k = choose|k: int| 0 <= k < s.models.len() && #[trigger] s.models[k].meta.uuid == u;
    assert(e.models[0] == s.models[k]);
    assert forall|m: ModelView|
        #[trigger] e.models.contains(m) <==> s.models.contains(m) && m.meta.uuid == u by {
        if s.models.contains(m) && m.meta.uuid == u {
            let i = choose|i: int| 0 <= i < s.models.len() && s.models[i] == m;
            assert(s.models[i].meta.uuid == s.models[k].meta.uuid);
            assert(e.models[0] == m);
        }
        if e.models.contains(m) {
            assert(s.models[k] == m);
        }
    }
}

/// Extracting around a model a second time, from the result of the first
/// extraction, changes nothing: the same single model and the same relations.
pub proof fn lemma_star_stable(s: StructureView, u: Seq<char>)
    requires
        s.identities_unique(),
        s.has_model_uuid(u),
    ensures
        star_around(star_around(s, u), u) == star_around(s, u),
{
    let e = star_around(s, u);
    let k = choose|k: int| 0 <= k < s.models.len() && #[trigger] s.models[k].meta.uuid == u;
    assert(e.models[0] == s.models[k]);
    assert(e.models[0].meta.uuid == u);
    let i = choose|i: int| 0 <= i < e.models.len() && #[trigger] e.models[i].meta.uuid == u;
    assert(i == 0);
    assert(e.model_with_uuid(u) == e.models[0]);
    lemma_filter_idempotent(s.relations, u);
    assert(star_around(e, u).models =~= e.models);
}

} // verus!
