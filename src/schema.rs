use vstd::prelude::*;

verus! {

/// The kind of association a relation describes.
#[derive(Clone, Copy, Debug, PartialEq, Eq, Structural)]
pub enum RelationType {
    OneToOne,
    OneToMany,
    ManyToOne,
    ManyToMany,
}

impl RelationType {
    /// The textual tag of the kind, as it appears on a rendered edge.
    pub open spec fn spec_label(self) -> Seq<char> {
        match self {
            RelationType::OneToOne => "OneToOne"@,
            RelationType::OneToMany => "OneToMany"@,
            RelationType::ManyToOne => "ManyToOne"@,
            RelationType::ManyToMany => "ManyToMany"@,
        }
    }

    pub fn label(&self) -> (r: &'static str)
        ensures
            r@ == self.spec_label(),
    {
        match self {
            RelationType::OneToOne => "OneToOne",
            RelationType::OneToMany => "OneToMany",
            RelationType::ManyToOne => "ManyToOne",
            RelationType::ManyToMany => "ManyToMany",
        }
    }
}

/// Where an entity was declared; informational only.
#[derive(Debug)]
pub struct CodeLocation {
    pub source_file: String,
    pub line_number: u64,
}

/// Identity and provenance of a model or a field.
#[derive(Debug)]
pub struct MetaData {
    pub uuid: String,
    pub code: CodeLocation,
}

#[derive(Debug)]
pub struct Field {
    pub name: String,
    pub meta_data: MetaData,
}

/// One schema entity together with the fields it owns.
#[derive(Debug)]
pub struct MyModel {
    pub model_name: String,
    pub object_name: String,
    pub app_label: String,
    pub db_table: String,
    pub fields: Vec<Field>,
    pub meta_data: MetaData,
}

/// A directed edge from a source field to a target model, by identifiers only.
#[derive(Debug)]
pub struct Relation {
    pub src_field: String,
    pub target_model: String,
    pub relation_type: RelationType,
}

/// A snapshot of the whole schema: models and relations in declaration order.
#[derive(Debug)]
pub struct Structure {
    pub models: Vec<MyModel>,
    pub relations: Vec<Relation>,
}

pub ghost struct MetaView {
    pub uuid: Seq<char>,
    pub source_file: Seq<char>,
    pub line_number: u64,
}

pub ghost struct FieldView {
    pub name: Seq<char>,
    pub meta: MetaView,
}

pub ghost struct ModelView {
    pub model_name: Seq<char>,
    pub object_name: Seq<char>,
    pub app_label: Seq<char>,
    pub db_table: Seq<char>,
    pub fields: Seq<FieldView>,
    pub meta: MetaView,
}

pub ghost struct RelationView {
    pub src_field: Seq<char>,
    pub target_model: Seq<char>,
    pub kind: RelationType,
}

pub ghost struct StructureView {
    pub models: Seq<ModelView>,
    pub relations: Seq<RelationView>,
}

impl View for MetaData {
    type V = MetaView;

    open spec fn view(&self) -> MetaView {
        MetaView {
            uuid: self.uuid@,
            source_file: self.code.source_file@,
            line_number: self.code.line_number,
        }
    }
}

impl View for Field {
    type V = FieldView;

    open spec fn view(&self) -> FieldView {
        FieldView { name: self.name@, meta: self.meta_data@ }
    }
}

impl View for MyModel {
    type V = ModelView;

    open spec fn view(&self) -> ModelView {
        ModelView {
            model_name: self.model_name@,
            object_name: self.object_name@,
            app_label: self.app_label@,
            db_table: self.db_table@,
            fields: self.fields@.map_values(|f: Field| f@),
            meta: self.meta_data@,
        }
    }
}

impl View for Relation {
    type V = RelationView;

    open spec fn view(&self) -> RelationView {
        RelationView {
            src_field: self.src_field@,
            target_model: self.target_model@,
            kind: self.relation_type,
        }
    }
}

impl View for Structure {
    type V = StructureView;

    open spec fn view(&self) -> StructureView {
        StructureView {
            models: self.models@.map_values(|m: MyModel| m@),
            relations: self.relations@.map_values(|r: Relation| r@),
        }
    }
}

impl StructureView {
    /// No two models share a UUID.
    pub open spec fn model_uuids_unique(self) -> bool {
        forall|i: int, j: int|
            #![trigger self.models[i].meta.uuid, self.models[j].meta.uuid]
            0 <= i < self.models.len() && 0 <= j < self.models.len() && i != j
                ==> self.models[i].meta.uuid != self.models[j].meta.uuid
    }

    /// No two models share a display name.
    pub open spec fn model_names_unique(self) -> bool {
        forall|i: int, j: int|
            #![trigger self.models[i].object_name, self.models[j].object_name]
            0 <= i < self.models.len() && 0 <= j < self.models.len() && i != j
                ==> self.models[i].object_name != self.models[j].object_name
    }

    /// The field at `(i, j)` is field `j` of model `i`.
    pub open spec fn is_field(self, i: int, j: int) -> bool {
        0 <= i < self.models.len() && 0 <= j < self.models[i].fields.len()
    }

    pub open spec fn field_uuid(self, i: int, j: int) -> Seq<char> {
        self.models[i].fields[j].meta.uuid
    }

    /// No two fields, over all models, share a UUID.
    pub open spec fn field_uuids_unique(self) -> bool {
        forall|i1: int, j1: int, i2: int, j2: int|
            #![trigger self.field_uuid(i1, j1), self.field_uuid(i2, j2)]
            self.is_field(i1, j1) && self.is_field(i2, j2) && (i1 != i2 || j1 != j2)
                ==> self.field_uuid(i1, j1) != self.field_uuid(i2, j2)
    }

    /// The identity constraints that an index over this store relies on.
    pub open spec fn identities_unique(self) -> bool {
        self.model_uuids_unique() && self.model_names_unique() && self.field_uuids_unique()
    }

    pub open spec fn has_model_uuid(self, u: Seq<char>) -> bool {
        exists|i: int| 0 <= i < self.models.len() && #[trigger] self.models[i].meta.uuid == u
    }

    pub open spec fn has_model_name(self, n: Seq<char>) -> bool {
        exists|i: int| 0 <= i < self.models.len() && #[trigger] self.models[i].object_name == n
    }

    pub open spec fn has_field(self, f: Seq<char>) -> bool {
        exists|i: int, j: int| self.is_field(i, j) && #[trigger] self.field_uuid(i, j) == f
    }

    /// The UUID of the model that declares the field `f`, if any model does.
    pub open spec fn field_owner(self, f: Seq<char>) -> Option<Seq<char>> {
        if self.has_field(f) {
            let (i, j) = choose|i: int, j: int| self.is_field(i, j) && #[trigger] self.field_uuid(i, j) == f;
            Some(self.models[i].meta.uuid)
        } else {
            None
        }
    }
}

impl MetaData {
    pub fn duplicate(&self) -> (r: MetaData)
        ensures
            r@ == self@,
    {
        MetaData {
            uuid: self.uuid.clone(),
            code: CodeLocation {
                source_file: self.code.source_file.clone(),
                line_number: self.code.line_number,
            },
        }
    }
}

impl Field {
    pub fn duplicate(&self) -> (r: Field)
        ensures
            r@ == self@,
    {
        Field { name: self.name.clone(), meta_data: self.meta_data.duplicate() }
    }
}

impl MyModel {
    /// A copy of the model, fields included.
    pub fn duplicate(&self) -> (r: MyModel)
        ensures
            r@ == self@,
    {
        let mut fields: Vec<Field> = Vec::new();
        let n = self.fields.len();
        for k in 0..n
            invariant
                n == self.fields.len(),
                fields.len() == k,
                forall|t: int| 0 <= t < k ==> #[trigger] fields@[t]@ == self.fields@[t]@,
        {
            fields.push(self.fields[k].duplicate());
        }
        assert(fields@.map_values(|f: Field| f@) =~= self.fields@.map_values(|f: Field| f@));
        MyModel {
            model_name: self.model_name.clone(),
            object_name: self.object_name.clone(),
            app_label: self.app_label.clone(),
            db_table: self.db_table.clone(),
            fields,
            meta_data: self.meta_data.duplicate(),
        }
    }
}

impl Relation {
    pub fn duplicate(&self) -> (r: Relation)
        ensures
            r@ == self@,
    {
        Relation {
            src_field: self.src_field.clone(),
            target_model: self.target_model.clone(),
            relation_type: self.relation_type,
        }
    }
}

} // verus!
