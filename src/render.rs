use vstd::prelude::*;
use vstd::string::*;

use crate::index::UuidIndexes;
use crate::schema::{ModelView, MyModel, RelationView, StructureView};

verus! {

/// Why a store could not be rendered: a relation's source field is declared by
/// no model of the store.
#[derive(Debug)]
pub enum RenderError {
    UnknownSourceField(String),
}

pub open spec fn focus_view(focus: Option<String>) -> Option<Seq<char>> {
    match focus {
        Some(t) => Some(t@),
        None => None,
    }
}

/// The node statement of a model: its UUID, labelled with its display name.
pub open spec fn node_line(m: ModelView) -> Seq<char> {
    "  \""@ + m.meta.uuid + "\" [label=\""@ + m.object_name + "\"];\n"@
}

/// Node statements of the models, in order, skipping those other than the focus.
pub open spec fn node_lines(ms: Seq<ModelView>, focus: Option<Seq<char>>) -> Seq<char>
    decreases ms.len(),
{
    if ms.len() == 0 {
        Seq::empty()
    } else {
        let rest = node_lines(ms.drop_last(), focus);
        if focus is None || focus == Some(ms.last().meta.uuid) {
            rest + node_line(ms.last())
        } else {
            rest
        }
    }
}

/// The edge statement of a relation whose source field is owned by model `src`.
pub open spec fn edge_line(src: Seq<char>, r: RelationView) -> Seq<char> {
    "  \""@ + src + "\" -> \""@ + r.target_model + "\" [label=\""@ + r.kind.spec_label() + "\"];\n"@
}

/// Every relation's source field is declared by some model of `s`.
pub open spec fn sources_resolve(s: StructureView, rs: Seq<RelationView>) -> bool {
    forall|i: int| 0 <= i < rs.len() ==> #[trigger] s.field_owner(rs[i].src_field) is Some
}

/// Edge statements of the relations, in order; the focus does not filter them.
pub open spec fn edge_lines(s: StructureView, rs: Seq<RelationView>) -> Seq<char>
    decreases rs.len(),
{
    if rs.len() == 0 {
        Seq::empty()
    } else {
        edge_lines(s, rs.drop_last()) + edge_line(s.field_owner(rs.last().src_field).unwrap(), rs.last())
    }
}

/// The whole graph description of a store.
pub open spec fn dot_text(s: StructureView, focus: Option<Seq<char>>) -> Seq<char> {
    "digraph ER {\n"@ + node_lines(s.models, focus) + edge_lines(s, s.relations) + "}\n"@
}

fn node_text(m: &MyModel) -> (r: String)
    ensures
        r@ == node_line(m@),
{
    let mut t = String::new();
    t.append("  \"");
    t.append(m.meta_data.uuid.as_str());
    t.append("\" [label=\"");
    t.append(m.object_name.as_str());
    t.append("\"];\n");
    t
}

fn edge_text(src: &String, r: &crate::schema::Relation) -> (t: String)
    ensures
        t@ == edge_line(src@, r@),
{
    let mut t = String::new();
    t.append("  \"");
    t.append(src.as_str());
    t.append("\" -> \"");
    t.append(r.target_model.as_str());
    t.append("\" [label=\"");
    t.append(r.relation_type.label());
    t.append("\"];\n");
    t
}

/// Renders the snapshot held by `indexes` as a directed graph: a node per model
/// (only the focus model, where one is given), an edge per relation from the
/// model owning its source field to its target model. Fails, naming the field,
/// where a relation's source field is declared by no model of the snapshot.
pub fn dump_er_dot(indexes: &UuidIndexes, target_model: Option<String>) -> (r: Result<String, RenderError>)
    requires
        indexes.wf(),
    ensures
        r is Ok <==> sources_resolve(indexes.store(), indexes.store().relations),
        r matches Ok(t) ==> t@ == dot_text(indexes.store(), focus_view(target_model)),
        r matches Err(RenderError::UnknownSourceField(f)) ==> exists|i: int|
            0 <= i < indexes.store().relations.len() && (#[trigger] indexes.store().relations[i]).src_field
                == f@ && indexes.store().field_owner(f@) is None,
{
    let ghost s = indexes.store();
    let ghost focus = focus_view(target_model);
    let data = indexes.data();
    let mut dot = String::new();
    dot.append("digraph ER {\n");
    let m = data.models.len();
    for k in 0..m
        invariant
            m == data.models.len(),
            data@ == s,
            focus == focus_view(target_model),
            dot@ == "digraph ER {\n"@ + node_lines(s.models.take(k as int), focus),
    {
        let model = &data.models[k];
        assert(model@ == s.models[k as int]);
        assert(s.models.take(k + 1).drop_last() =~= s.models.take(k as int));
        assert(s.models.take(k + 1).last() == s.models[k as int]);
        let keep = match &target_model {
            Some(t) => *t == model.meta_data.uuid,
            None => true,
        };
        if keep {
            let line = node_text(model);
            dot.append(line.as_str());
            assert(dot@ =~= "digraph ER {\n"@ + node_lines(s.models.take(k + 1), focus));
        }
    }
    assert(s.models.take(m as int) =~= s.models);
    let ghost head = dot@;
    let n = data.relations.len();
    for k in 0..n
        invariant
            n == data.relations.len(),
            data@ == s,
            indexes.wf(),
            indexes.store() == s,
            sources_resolve(s, s.relations.take(k as int)),
            dot@ == head + edge_lines(s, s.relations.take(k as int)),
    {
        let rel = &data.relations[k];
        assert(rel@ == s.relations[k as int]);
        assert(s.relations.take(k + 1).drop_last() =~= s.relations.take(k as int));
        assert(s.relations.take(k + 1).last() == s.relations[k as int]);
        match indexes.get_model_from_field(rel.src_field.as_str()) {
            Some(src) => {
                let line = edge_text(src, rel);
                dot.append(line.as_str());
                assert(dot@ =~= head + edge_lines(s, s.relations.take(k + 1)));
                assert forall|i: int| 0 <= i < k + 1 implies #[trigger] s.field_owner(
                    s.relations.take(k + 1)[i].src_field,
                ) is Some by {
                    if i < k {
                        assert(s.relations.take(k + 1)[i] == s.relations.take(k as int)[i]);
                    }
                }
            },
            None => {
                let f = rel.src_field.clone();
                assert(!sources_resolve(s, s.relations)) by {
                    assert(s.field_owner(s.relations[k as int].src_field) is None);
                }
                return Err(RenderError::UnknownSourceField(f));
            },
        }
    }
    assert(s.relations.take(n as int) =~= s.relations);
    dot.append("}\n");
    assert(dot@ =~= dot_text(s, focus));
    Ok(dot)
}

} // verus!
