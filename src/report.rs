use vstd::prelude::*;
use vstd::string::*;

use crate::schema::{FieldView, MetaData, MetaView, ModelView, MyModel, Structure};

verus! {

/// The decimal text of one digit.
pub open spec fn digit_text(d: nat) -> Seq<char> {
    if d == 0 {
        "0"@
    } else if d == 1 {
        "1"@
    } else if d == 2 {
        "2"@
    } else if d == 3 {
        "3"@
    } else if d == 4 {
        "4"@
    } else if d == 5 {
        "5"@
    } else if d == 6 {
        "6"@
    } else if d == 7 {
        "7"@
    } else if d == 8 {
        "8"@
    } else {
        "9"@
    }
}

/// The decimal text of `n`, without leading zeros.
pub open spec fn decimal(n: nat) -> Seq<char>
    decreases n,
{
    if n < 10 {
        digit_text(n)
    } else {
        decimal(n / 10) + digit_text(n % 10)
    }
}

fn digit_str(d: u64) -> (r: &'static str)
    requires
        d < 10,
    ensures
        r@ == digit_text(d as nat),
{
    if d == 0 {
        "0"
    } else if d == 1 {
        "1"
    } else if d == 2 {
        "2"
    } else if d == 3 {
        "3"
    } else if d == 4 {
        "4"
    } else if d == 5 {
        "5"
    } else if d == 6 {
        "6"
    } else if d == 7 {
        "7"
    } else if d == 8 {
        "8"
    } else {
        "9"
    }
}

fn append_decimal(out: &mut String, n: u64)
    ensures
        final(out)@ == old(out)@ + decimal(n as nat),
    decreases n,
{
    if n < 10 {
        out.append(digit_str(n));
    } else {
        append_decimal(out, n / 10);
        out.append(digit_str(n % 10));
        assert(final(out)@ =~= old(out)@ + decimal(n as nat));
    }
}

/// The listing line of a model, with its UUID where `show_uuid` holds.
pub open spec fn model_entry(m: ModelView, show_uuid: bool) -> Seq<char> {
    if show_uuid {
        "[M] "@ + m.meta.uuid + ": "@ + m.object_name
    } else {
        "[M] "@ + m.object_name
    }
}

/// The listing line of a field, with its UUID where `show_uuid` holds.
pub open spec fn field_entry(f: FieldView, show_uuid: bool) -> Seq<char> {
    if show_uuid {
        "[F] "@ + f.meta.uuid + ": "@ + f.name
    } else {
        "[F] "@ + f.name
    }
}

/// A model's line followed by the lines of its fields, in declaration order.
pub open spec fn model_block(m: ModelView, show_uuid: bool) -> Seq<Seq<char>> {
    seq![model_entry(m, show_uuid)] + m.fields.map_values(|f: FieldView| field_entry(f, show_uuid))
}

/// The blocks of all models, in store order.
pub open spec fn listing(ms: Seq<ModelView>, show_uuid: bool) -> Seq<Seq<char>>
    decreases ms.len(),
{
    if ms.len() == 0 {
        Seq::empty()
    } else {
        listing(ms.drop_last(), show_uuid) + model_block(ms.last(), show_uuid)
    }
}

/// Lists every model of the store and, under it, each of its fields.
pub fn enumerate(data: &Structure, show_uuid: bool) -> (r: Vec<String>)
    ensures
        r@.map_values(|l: String| l@) == listing(data@.models, show_uuid),
{
    let ghost ms = data@.models;
    let mut lines: Vec<String> = Vec::new();
    let m = data.models.len();
    for k in 0..m
        invariant
            m == data.models.len(),
            ms == data@.models,
            lines@.map_values(|l: String| l@) == listing(ms.take(k as int), show_uuid),
    {
        let model = &data.models[k];
        assert(model@ == ms[k as int]);
        assert(ms.take(k + 1).drop_last() =~= ms.take(k as int));
        let ghost before = lines@.map_values(|l: String| l@);
        let mut line = String::new();
        line.append("[M] ");
        if show_uuid {
            line.append(model.meta_data.uuid.as_str());
            line.append(": ");
        }
        line.append(model.object_name.as_str());
        assert(line@ =~= model_entry(model@, show_uuid));
        lines.push(line);
        let nf = model.fields.len();
        let ghost fs = model@.fields;
        for j in 0..nf
            invariant
                nf == model.fields.len(),
                fs == model@.fields,
                lines@.map_values(|l: String| l@) == before + seq![model_entry(model@, show_uuid)]
                    + fs.take(j as int).map_values(|f: FieldView| field_entry(f, show_uuid)),
        {
            let field = &model.fields[j];
            assert(field@ == fs[j as int]);
            let ghost prev = lines@.map_values(|l: String| l@);
            let mut fl = String::new();
            fl.append("[F] ");
            if show_uuid {
                fl.append(field.meta_data.uuid.as_str());
                fl.append(": ");
            }
            fl.append(field.name.as_str());
            assert(fl@ =~= field_entry(field@, show_uuid));
            lines.push(fl);
            assert(lines@.map_values(|l: String| l@) =~= prev.push(fl@));
            assert(fs.take(j + 1).map_values(|f: FieldView| field_entry(f, show_uuid)) =~= fs.take(
                j as int,
            ).map_values(|f: FieldView| field_entry(f, show_uuid)).push(field_entry(fs[j as int], show_uuid)));
            assert(lines@.map_values(|l: String| l@) =~= before + seq![model_entry(model@, show_uuid)]
                + fs.take(j + 1).map_values(|f: FieldView| field_entry(f, show_uuid)));
        }
        assert(fs.take(nf as int) =~= fs);
        assert(lines@.map_values(|l: String| l@) =~= listing(ms.take(k + 1), show_uuid));
    }
    assert(ms.take(m as int) =~= ms);
    lines
}

/// The report on a model's attributes, one `key: value` line each.
pub open spec fn model_report(m: ModelView) -> Seq<char> {
    "model name: "@ + m.model_name + "\n"@ + "object name: "@ + m.object_name + "\n"@
        + "app label: "@ + m.app_label + "\n"@ + "db table: "@ + m.db_table + "\n"@
        + "fields: "@ + decimal(m.fields.len()) + "\n"@
}

/// The report on a model's identity and provenance.
pub open spec fn meta_report(d: MetaView) -> Seq<char> {
    "uuid: "@ + d.uuid + "\n"@ + "source file: "@ + d.source_file + "\n"@ + "source line: "@
        + decimal(d.line_number as nat) + "\n"@
}

/// The text of the report on a model's identity and provenance.
pub fn show_meta_data(meta_data: &MetaData) -> (r: String)
    ensures
        r@ == meta_report(meta_data@),
{
    let mut t = String::new();
    t.append("uuid: ");
    t.append(meta_data.uuid.as_str());
    t.append("\n");
    t.append("source file: ");
    t.append(meta_data.code.source_file.as_str());
    t.append("\n");
    t.append("source line: ");
    append_decimal(&mut t, meta_data.code.line_number);
    t.append("\n");
    assert(t@ =~= meta_report(meta_data@));
    t
}

/// The text of the report on a model, followed by the report on its metadata
/// where `show_meta` holds.
pub fn show_model(model: &MyModel, show_meta: bool) -> (r: String)
    ensures
        r@ == (if show_meta {
            model_report(model@) + meta_report(model@.meta)
        } else {
            model_report(model@)
        }),
{
    let mut t = String::new();
    t.append("model name: ");
    t.append(model.model_name.as_str());
    t.append("\n");
    t.append("object name: ");
    t.append(model.object_name.as_str());
    t.append("\n");
    t.append("app label: ");
    t.append(model.app_label.as_str());
    t.append("\n");
    t.append("db table: ");
    t.append(model.db_table.as_str());
    t.append("\n");
    t.append("fields: ");
    append_decimal(&mut t, model.fields.len() as u64);
    t.append("\n");
    assert(t@ =~= model_report(model@));
    if show_meta {
        let meta = show_meta_data(&model.meta_data);
        t.append(meta.as_str());
    }
    t
}

} // verus!
