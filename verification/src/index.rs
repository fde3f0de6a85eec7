//! The index builder: the body of the root listing resource, in free-text
//! or structured form, derived from the compiled schema.

use vstd::prelude::*;
use crate::attributes::{CompiledSchema, FieldSpecModel, SchemaModel, Serialization};
use crate::chars::{chars_to_string, str_to_chars};
use crate::json_codec::{json_string_enc, json_string_push};

verus! {

/// The media type of a response body.
#[derive(Debug, Clone, Copy, PartialEq, Eq)]
pub enum ContentType {
    Text,
    Structured,
}

/// The header value for a content type.
pub open spec fn content_type_spec(ct: ContentType) -> Seq<char> {
    match ct {
        ContentType::Text => "text/plain; charset=utf-8"@,
        ContentType::Structured => "application/json"@,
    }
}

/// The header value for a content type, as sent over the wire.
pub fn content_type_value(ct: ContentType) -> (r: String)
    ensures
        r@ == content_type_spec(ct),
{
    match ct {
        ContentType::Text => String::from_str("text/plain; charset=utf-8"),
        ContentType::Structured => String::from_str("application/json"),
    }
}

/// The name of the header that carries the content type.
pub fn content_type_header() -> (r: String)
    ensures
        r@ == "Content-Type"@,
{
    String::from_str("Content-Type")
}

/// The fields that the index lists: every field not marked `skip`, in
/// declaration order. Hidden fields are listed like any other.
pub open spec fn listed_fields(fields: Seq<FieldSpecModel>) -> Seq<FieldSpecModel> {
    fields.filter(|f: FieldSpecModel| !f.attributes.skip)
}

/// The banner of the text index when no root message is configured.
pub open spec fn default_banner() -> Seq<char> {
    "Available configuration options:"@
}

/// The banner of the text index: the configured root message, or the
/// default.
pub open spec fn index_banner(root_message: Option<Seq<char>>) -> Seq<char> {
    match root_message {
        Some(m) => m,
        None => default_banner(),
    }
}

/// One line of the text index.
pub open spec fn index_line(f: FieldSpecModel) -> Seq<char> {
    "  - "@ + f.name + ": "@ + f.rendered + "\n"@
}

/// The per-field lines of the text index, in order.
pub open spec fn text_lines(fields: Seq<FieldSpecModel>) -> Seq<char>
    decreases fields.len(),
{
    if fields.len() == 0 {
        Seq::<char>::empty()
    } else {
        text_lines(fields.drop_last()) + index_line(fields.last())
    }
}

/// The body of the text index: the banner (followed by a newline unless
/// empty), then one line per listed field.
pub open spec fn text_index(s: SchemaModel) -> Seq<char> {
    let b = index_banner(s.attributes.root_message);
    (if b.len() == 0 {
        b
    } else {
        b + "\n"@
    }) + text_lines(listed_fields(s.fields))
}

/// One record of the structured index.
pub open spec fn index_entry(f: FieldSpecModel) -> Seq<char> {
    "{\"name\":"@ + json_string_enc(f.name) + ",\"type\":"@ + json_string_enc(f.rendered)
        + seq!['}']
}

/// The comma-separated records of the structured index.
pub open spec fn index_entries(fields: Seq<FieldSpecModel>) -> Seq<char>
    decreases fields.len(),
{
    if fields.len() == 0 {
        Seq::<char>::empty()
    } else if fields.len() == 1 {
        index_entry(fields[0])
    } else {
        index_entries(fields.drop_last()) + seq![','] + index_entry(fields.last())
    }
}

/// The body of the structured index: an array of `{name, type}` records
/// for the listed fields, in declaration order.
pub open spec fn structured_index(s: SchemaModel) -> Seq<char> {
    seq!['['] + index_entries(listed_fields(s.fields)) + seq![']']
}

/// The body of the index for the schema's serialization mode.
pub open spec fn index_body_spec(s: SchemaModel) -> Seq<char> {
    match s.attributes.serialization {
        Serialization::Text => text_index(s),
        Serialization::Structured => structured_index(s),
    }
}

/// The content type of the index for the schema's serialization mode.
pub open spec fn index_content_type(s: SchemaModel) -> ContentType {
    match s.attributes.serialization {
        Serialization::Text => ContentType::Text,
        Serialization::Structured => ContentType::Structured,
    }
}

/// The body of the root listing resource together with its content type.
pub struct IndexData {
    pub body: String,
    pub content_type: ContentType,
}

/// The index lists exactly the fields not marked `skip`, in declaration
/// order: every unskipped field appears (whatever its hide flags), no
/// skipped field does, and the listing of any declaration prefix is a
/// prefix of the whole listing.
pub proof fn lemma_index_lists_exactly_unskipped(fields: Seq<FieldSpecModel>)
    ensures
        forall|i: int|
            0 <= i < fields.len() && !(#[trigger] fields[i]).attributes.skip ==> listed_fields(
                fields,
            ).contains(fields[i]),
        forall|i: int|
            0 <= i < listed_fields(fields).len() ==> !(#[trigger] listed_fields(fields)[i])
                .attributes.skip,
        forall|k: int|
            0 <= k <= fields.len() ==> (#[trigger] listed_fields(fields.take(k))).is_prefix_of(
                listed_fields(fields),
            ),
    decreases fields.len(),
{
    reveal(Seq::filter);
    let pred = |f: FieldSpecModel| !f.attributes.skip;
    assert forall|i: int| 0 <= i < fields.len() && !(#[trigger] fields[i]).attributes.skip implies
        listed_fields(fields).contains(fields[i]) by {
        fields.lemma_filter_contains(pred, i);
    }
    assert forall|i: int| 0 <= i < listed_fields(fields).len() implies !(#[trigger] listed_fields(
        fields,
    )[i]).attributes.skip by {
        fields.lemma_filter_pred(pred, i);
    }
    assert forall|k: int| 0 <= k <= fields.len() implies (#[trigger] listed_fields(
        fields.take(k),
    )).is_prefix_of(listed_fields(fields)) by {
        lemma_listed_take_prefix(fields, k);
    }
}

/// The listing of a declaration prefix is a prefix of the whole listing.
proof fn lemma_listed_take_prefix(fields: Seq<FieldSpecModel>, k: int)
    requires
        0 <= k <= fields.len(),
    ensures
        listed_fields(fields.take(k)).is_prefix_of(listed_fields(fields)),
    decreases fields.len(),
{
    reveal(Seq::filter);
    let pred = |f: FieldSpecModel| !f.attributes.skip;
    if k == fields.len() {
        assert(fields.take(k) =~= fields);
        let l = listed_fields(fields);
        assert(l.take(l.len() as int) =~= l);
    } else {
        assert(fields.drop_last().take(k) =~= fields.take(k));
        lemma_listed_take_prefix(fields.drop_last(), k);
        let prev = listed_fields(fields.drop_last());
        let whole = listed_fields(fields);
        let part = listed_fields(fields.take(k));
        assert(part.is_prefix_of(prev));
        if pred(fields.last()) {
            assert(whole == prev.push(fields.last()));
            assert(whole.take(prev.len() as int) =~= prev);
            assert(whole.take(part.len() as int) =~= prev.take(part.len() as int));
        } else {
            assert(whole == prev);
        }
    }
}

/// `listed_fields`, unfolded over one more declared field.
pub proof fn lemma_listed_take_step(fields: Seq<FieldSpecModel>, i: int)
    requires
        0 <= i < fields.len(),
    ensures
        listed_fields(fields.take(i + 1)) == if !fields[i].attributes.skip {
            listed_fields(fields.take(i)).push(fields[i])
        } else {
            listed_fields(fields.take(i))
        },
{
    reveal(Seq::filter);
    assert(fields.take(i + 1).drop_last() =~= fields.take(i));
    assert(fields.take(i + 1).last() == fields[i]);
}

/// Builds the body of the root listing resource from the compiled schema.
/// In text mode the body is the banner followed by one `  - name: type`
/// line per listed field; in structured mode it is an array of
/// `{name, type}` records. Only `skip` removes a field from the listing.
#[verifier::loop_isolation(false)]
pub fn build_index(schema: &CompiledSchema) -> (r: IndexData)
    ensures
        r.body@ == index_body_spec(schema@),
        r.content_type == index_content_type(schema@),
{
    let ghost fm = schema@.fields;
    proof {
        reveal_strlit("\n");
        assert("\n"@ =~= seq!['\n']);
    }
    let mut out: Vec<char> = Vec::new();
    match schema.attributes.serialization {
        Serialization::Text => {
            match &schema.attributes.root_message {
                Some(m) => {
                    let mut b = str_to_chars(m.as_str());
                    out.append(&mut b);
                },
                None => {
                    let mut b = str_to_chars("Available configuration options:");
                    out.append(&mut b);
                },
            }
            if out.len() > 0 {
                out.push('\n');
            }
            let ghost head = out@;
            proof {
                reveal(Seq::filter);
                assert(fm.take(0) =~= Seq::<FieldSpecModel>::empty());
            }
            let mut i: usize = 0;
            while i < schema.fields.len()
                invariant
                    0 <= i <= schema.fields@.len(),
                    out@ == head + text_lines(listed_fields(fm.take(i as int))),
                decreases schema.fields@.len() - i,
            {
                let f = &schema.fields[i];
                proof {
                    assert(fm[i as int] == f@);
                    lemma_listed_take_step(fm, i as int);
                }
                if !f.attributes.skip {
                    let mut part = str_to_chars("  - ");
                    out.append(&mut part);
                    let mut name = str_to_chars(f.name.as_str());
                    out.append(&mut name);
                    let mut sep = str_to_chars(": ");
                    out.append(&mut sep);
                    let mut ty = str_to_chars(f.rendered_type.as_str());
                    out.append(&mut ty);
                    out.push('\n');
                    proof {
                        let l = listed_fields(fm.take(i + 1 as int));
                        assert(l.drop_last() =~= listed_fields(fm.take(i as int)));
                        assert(l.last() == fm[i as int]);
                        assert(out@ =~= head + text_lines(l));
                    }
                }
                i = i + 1;
            }
            assert(fm.take(i as int) =~= fm);
            IndexData { body: chars_to_string(&out), content_type: ContentType::Text }
        },
        Serialization::Structured => {
            out.push('[');
            let mut emitted = false;
            proof {
                reveal(Seq::filter);
                assert(fm.take(0) =~= Seq::<FieldSpecModel>::empty());
            }
            let mut i: usize = 0;
            while i < schema.fields.len()
                invariant
                    0 <= i <= schema.fields@.len(),
                    emitted == (listed_fields(fm.take(i as int)).len() > 0),
                    out@ == seq!['['] + index_entries(listed_fields(fm.take(i as int))),
                decreases schema.fields@.len() - i,
            {
                let f = &schema.fields[i];
                proof {
                    assert(fm[i as int] == f@);
                    lemma_listed_take_step(fm, i as int);
                }
                if !f.attributes.skip {
                    if emitted {
                        out.push(',');
                    }
                    let mut part = str_to_chars("{\"name\":");
                    out.append(&mut part);
                    json_string_push(f.name.as_str(), &mut out);
                    let mut sep = str_to_chars(",\"type\":");
                    out.append(&mut sep);
                    json_string_push(f.rendered_type.as_str(), &mut out);
                    out.push('}');
                    emitted = true;
                    proof {
                        let l = listed_fields(fm.take(i + 1 as int));
                        assert(l.drop_last() =~= listed_fields(fm.take(i as int)));
                        assert(l.last() == fm[i as int]);
                        if l.len() == 1 {
                            assert(index_entries(l) == index_entry(l[0]));
                            assert(out@ =~= seq!['['] + index_entries(l));
                        } else {
                            assert(out@ =~= seq!['['] + index_entries(l));
                        }
                    }
                }
                i = i + 1;
            }
            assert(fm.take(i as int) =~= fm);
            out.push(']');
            assert(out@ =~= structured_index(schema@));
            IndexData { body: chars_to_string(&out), content_type: ContentType::Structured }
        },
    }
}

} // verus!
